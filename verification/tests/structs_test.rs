use axfs::{VfsDirEntry, VfsNodeAttr, VfsNodePerm, VfsNodeType};

#[test]
fn test_perm_default_file() {
    let perm = VfsNodePerm::default_file();
    assert!(perm.owner_readable());
    assert!(perm.owner_writable());
    assert!(!perm.owner_executable());
    assert!(perm.contains(VfsNodePerm::group_read()));
    assert!(perm.contains(VfsNodePerm::group_write()));
    assert!(!perm.contains(VfsNodePerm::group_exec()));
    assert!(perm.contains(VfsNodePerm::other_read()));
    assert!(perm.contains(VfsNodePerm::other_write()));
    assert!(!perm.contains(VfsNodePerm::other_exec()));
}

#[test]
fn test_perm_default_dir() {
    let perm = VfsNodePerm::default_dir();
    assert!(perm.owner_readable());
    assert!(perm.owner_writable());
    assert!(perm.owner_executable());
    assert!(perm.contains(VfsNodePerm::group_read()));
    assert!(!perm.contains(VfsNodePerm::group_write()));
    assert!(perm.contains(VfsNodePerm::group_exec()));
    assert!(perm.contains(VfsNodePerm::other_read()));
    assert!(!perm.contains(VfsNodePerm::other_write()));
    assert!(perm.contains(VfsNodePerm::other_exec()));
}

#[test]
fn test_perm_mode() {
    let perm = VfsNodePerm::default_file();
    assert_eq!(perm.mode(), 0o666u32);
}

#[test]
fn test_perm_rwx_buf() {
    let perm = VfsNodePerm::default_file();
    let buf = perm.rwx_buf();
    assert_eq!(&buf[..], b"rw-rw-rw-");

    let perm = VfsNodePerm::default_dir();
    let buf = perm.rwx_buf();
    assert_eq!(&buf[..], b"rwxr-xr-x");

    let perm = VfsNodePerm::empty();
    let buf = perm.rwx_buf();
    assert_eq!(&buf[..], b"---------");
}

#[test]
fn test_perm_owner_checks() {
    let perm = VfsNodePerm::owner_read() | VfsNodePerm::owner_write() | VfsNodePerm::owner_exec();
    assert!(perm.owner_readable());
    assert!(perm.owner_writable());
    assert!(perm.owner_executable());

    let perm = VfsNodePerm::group_read() | VfsNodePerm::group_write();
    assert!(!perm.owner_readable());
    assert!(!perm.owner_writable());
    assert!(!perm.owner_executable());
}

#[test]
fn test_node_type_is_file() {
    assert!(VfsNodeType::File.is_file());
    assert!(!VfsNodeType::Dir.is_file());
    assert!(!VfsNodeType::SymLink.is_file());
}

#[test]
fn test_node_type_is_dir() {
    assert!(VfsNodeType::Dir.is_dir());
    assert!(!VfsNodeType::File.is_dir());
    assert!(!VfsNodeType::SymLink.is_dir());
}

#[test]
fn test_node_type_is_symlink() {
    assert!(VfsNodeType::SymLink.is_symlink());
    assert!(!VfsNodeType::File.is_symlink());
    assert!(!VfsNodeType::Dir.is_symlink());
}

#[test]
fn test_node_type_is_block_device() {
    assert!(VfsNodeType::BlockDevice.is_block_device());
    assert!(!VfsNodeType::File.is_block_device());
}

#[test]
fn test_node_type_is_char_device() {
    assert!(VfsNodeType::CharDevice.is_char_device());
    assert!(!VfsNodeType::File.is_char_device());
}

#[test]
fn test_node_type_is_fifo() {
    assert!(VfsNodeType::Fifo.is_fifo());
    assert!(!VfsNodeType::File.is_fifo());
}

#[test]
fn test_node_type_is_socket() {
    assert!(VfsNodeType::Socket.is_socket());
    assert!(!VfsNodeType::File.is_socket());
}

#[test]
fn test_node_type_as_char() {
    assert_eq!(VfsNodeType::Fifo.as_char(), 'p');
    assert_eq!(VfsNodeType::CharDevice.as_char(), 'c');
    assert_eq!(VfsNodeType::Dir.as_char(), 'd');
    assert_eq!(VfsNodeType::BlockDevice.as_char(), 'b');
    assert_eq!(VfsNodeType::File.as_char(), '-');
    assert_eq!(VfsNodeType::SymLink.as_char(), 'l');
    assert_eq!(VfsNodeType::Socket.as_char(), 's');
}

#[test]
fn test_node_attr_new() {
    let perm = VfsNodePerm::owner_read() | VfsNodePerm::owner_write();
    let attr = VfsNodeAttr::new(perm, VfsNodeType::File, 1024, 8);
    assert!(attr.perm().contains(VfsNodePerm::owner_read()));
    assert!(attr.perm().contains(VfsNodePerm::owner_write()));
    assert_eq!(attr.file_type(), VfsNodeType::File);
    assert_eq!(attr.size(), 1024);
    assert_eq!(attr.blocks(), 8);
}

#[test]
fn test_node_attr_new_file() {
    let attr = VfsNodeAttr::new_file(2048, 16);
    assert_eq!(attr.file_type(), VfsNodeType::File);
    assert_eq!(attr.size(), 2048);
    assert_eq!(attr.blocks(), 16);
    assert!(attr.perm().owner_readable());
    assert!(attr.perm().owner_writable());
    assert!(attr.perm().contains(VfsNodePerm::group_read()));
    assert!(attr.perm().contains(VfsNodePerm::group_write()));
    assert!(attr.perm().contains(VfsNodePerm::other_read()));
    assert!(attr.perm().contains(VfsNodePerm::other_write()));
}

#[test]
fn test_node_attr_new_dir() {
    let attr = VfsNodeAttr::new_dir(512, 4);
    assert_eq!(attr.file_type(), VfsNodeType::Dir);
    assert_eq!(attr.size(), 512);
    assert_eq!(attr.blocks(), 4);
    assert!(attr.perm().owner_readable());
    assert!(attr.perm().owner_writable());
    assert!(attr.perm().owner_executable());
    assert!(attr.perm().contains(VfsNodePerm::group_read()));
    assert!(attr.perm().contains(VfsNodePerm::group_exec()));
    assert!(attr.perm().contains(VfsNodePerm::other_read()));
    assert!(attr.perm().contains(VfsNodePerm::other_exec()));
}

#[test]
fn test_node_attr_is_file() {
    let attr = VfsNodeAttr::new_file(100, 1);
    assert!(attr.is_file());
    assert!(!attr.is_dir());
}

#[test]
fn test_node_attr_is_dir() {
    let attr = VfsNodeAttr::new_dir(100, 1);
    assert!(attr.is_dir());
    assert!(!attr.is_file());
}

#[test]
fn test_node_attr_set_perm() {
    let mut attr = VfsNodeAttr::new_file(100, 1);
    let new_perm = VfsNodePerm::owner_read() | VfsNodePerm::owner_exec();
    attr.set_perm(new_perm);
    assert!(attr.perm().contains(VfsNodePerm::owner_read()));
    assert!(attr.perm().contains(VfsNodePerm::owner_exec()));
    assert!(!attr.perm().contains(VfsNodePerm::owner_write()));
}

#[test]
fn test_dir_entry_default() {
    let entry = VfsDirEntry::default();
    assert_eq!(entry.entry_type(), VfsNodeType::File);
    assert_eq!(entry.name_as_bytes().len(), 0);
}

#[test]
fn test_dir_entry_new_short_name() {
    let entry = VfsDirEntry::new("test.txt", VfsNodeType::File);
    assert_eq!(entry.entry_type(), VfsNodeType::File);
    assert_eq!(entry.name_as_bytes(), b"test.txt");
}

#[test]
fn test_dir_entry_new_exact_63() {
    let name = "a".repeat(63);
    let entry = VfsDirEntry::new(&name, VfsNodeType::Dir);
    assert_eq!(entry.entry_type(), VfsNodeType::Dir);
    assert_eq!(entry.name_as_bytes().len(), 63);
}

#[test]
fn test_dir_entry_new_long_name() {
    let name = "a".repeat(63);
    let entry = VfsDirEntry::new(&name, VfsNodeType::File);
    assert_eq!(entry.entry_type(), VfsNodeType::File);
    assert_eq!(entry.name_as_bytes().len(), 63);
    assert!(entry.name_as_bytes().iter().all(|&b| b == b'a'));
}

#[test]
fn test_dir_entry_name_as_bytes_with_null() {
    let entry = VfsDirEntry::new("hello", VfsNodeType::File);
    assert_eq!(entry.name_field()[5], 0);
    assert_eq!(entry.name_as_bytes(), b"hello");
}

#[test]
fn test_dir_entry_empty_name() {
    let entry = VfsDirEntry::new("", VfsNodeType::File);
    assert_eq!(entry.name_as_bytes().len(), 0);
    assert_eq!(entry.entry_type(), VfsNodeType::File);
}

#[test]
fn dir_entry_keeps_the_first_63_bytes_of_a_longer_name() {
    let name = format!("{}{}", "a".repeat(63), "bcd");
    let entry = VfsDirEntry::new(&name, VfsNodeType::File);
    assert_eq!(entry.name_as_bytes().len(), 63);
    assert_eq!(entry.name_as_bytes(), "a".repeat(63).as_bytes());
    let name = "x".repeat(200);
    let entry = VfsDirEntry::new(&name, VfsNodeType::Dir);
    assert_eq!(entry.name_as_bytes(), "x".repeat(63).as_bytes());
    assert_eq!(entry.entry_type(), VfsNodeType::Dir);
}

#[test]
fn dir_entry_name_field_is_zero_after_the_name() {
    let entry = VfsDirEntry::new("ab", VfsNodeType::File);
    let field = entry.name_field();
    assert_eq!(field.len(), 63);
    assert_eq!(field[0], b'a');
    assert_eq!(field[1], b'b');
    assert!(field[2..].iter().all(|&b| b == 0));
}

#[test]
fn perm_from_bits_truncate_drops_other_bits() {
    assert_eq!(VfsNodePerm::from_bits_truncate(0o7777).bits(), 0o777);
    assert_eq!(VfsNodePerm::from_bits_truncate(0o644).bits(), 0o644);
    assert_eq!(VfsNodePerm::from_bits_truncate(0x8000).bits(), 0);
    assert_eq!(VfsNodePerm::empty().bits(), 0);
}

#[test]
fn perm_flags_have_their_bits() {
    assert_eq!(VfsNodePerm::owner_read().bits(), 0o400);
    assert_eq!(VfsNodePerm::owner_write().bits(), 0o200);
    assert_eq!(VfsNodePerm::owner_exec().bits(), 0o100);
    assert_eq!(VfsNodePerm::group_read().bits(), 0o40);
    assert_eq!(VfsNodePerm::group_write().bits(), 0o20);
    assert_eq!(VfsNodePerm::group_exec().bits(), 0o10);
    assert_eq!(VfsNodePerm::other_read().bits(), 0o4);
    assert_eq!(VfsNodePerm::other_write().bits(), 0o2);
    assert_eq!(VfsNodePerm::other_exec().bits(), 0o1);
    assert_eq!((VfsNodePerm::owner_read() | VfsNodePerm::other_exec()).bits(), 0o401);
}

#[test]
fn perm_rwx_buf_of_single_bits() {
    assert_eq!(&VfsNodePerm::owner_exec().rwx_buf()[..], b"--x------");
    assert_eq!(&VfsNodePerm::group_write().rwx_buf()[..], b"----w----");
    assert_eq!(&VfsNodePerm::other_read().rwx_buf()[..], b"------r--");
    assert_eq!(&VfsNodePerm::from_bits_truncate(0o777).rwx_buf()[..], b"rwxrwxrwx");
}

#[test]
fn perm_mode_of_default_dir() {
    assert_eq!(VfsNodePerm::default_dir().mode(), 0o755u32);
    assert_eq!(VfsNodePerm::default_dir().bits(), 0o755);
}
