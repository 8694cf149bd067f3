use axfs::{
    Done, FileSystemInfo, Found, NodeId, VfsDirEntry, VfsError, VfsNodeAttr, VfsNodeOps,
    VfsNodeType, VfsOps, VfsResult,
};
use std::collections::HashMap;

/// A simulated inode structure for system-level testing
#[derive(Debug, Clone)]
#[allow(dead_code)]
struct SimulatedInode {
    ino: u64,
    ty: VfsNodeType,
    size: u64,
    blocks: u64,
    perm: u16,
}

/// A simulated file for system-level testing
struct SimulatedFile {
    #[allow(dead_code)]
    inode: SimulatedInode,
    data: Vec<u8>,
}

impl SimulatedFile {
    fn new(ino: u64) -> Self {
        SimulatedFile {
            inode: SimulatedInode {
                ino,
                ty: VfsNodeType::File,
                size: 0,
                blocks: 0,
                perm: 0o644,
            },
            data: Vec::new(),
        }
    }
}

/// A simulated directory for system-level testing
struct SimulatedDirectory {
    inode: SimulatedInode,
    entries: HashMap<String, NodeId>,
}

impl SimulatedDirectory {
    fn new(ino: u64, is_root: bool) -> Self {
        SimulatedDirectory {
            inode: SimulatedInode {
                ino,
                ty: VfsNodeType::Dir,
                size: 4096,
                blocks: 8,
                perm: if is_root { 0o755 } else { 0o755 },
            },
            entries: HashMap::new(),
        }
    }
}

enum SimulatedNode {
    File(SimulatedFile),
    Directory(SimulatedDirectory),
}

/// A simulated filesystem for system-level testing
struct SimulatedFilesystem {
    nodes: Vec<SimulatedNode>,
}

impl SimulatedFilesystem {
    fn new() -> Self {
        SimulatedFilesystem {
            nodes: vec![SimulatedNode::Directory(SimulatedDirectory::new(1, true))],
        }
    }

    fn setup(&mut self) -> VfsResult<()> {
        // Setup initial directory structure
        let root = self.root_dir();
        self.create(root, "bin", VfsNodeType::Dir)?;
        self.create(root, "etc", VfsNodeType::Dir)?;
        self.create(root, "home", VfsNodeType::Dir)?;
        self.create(root, "var", VfsNodeType::Dir)?;

        // Create some files
        self.create(root, "test.txt", VfsNodeType::File)?;
        self.create(root, "README.md", VfsNodeType::File)?;
        Ok(())
    }

    fn file(&mut self, node: NodeId) -> VfsResult<&mut SimulatedFile> {
        match self.nodes.get_mut(node) {
            Some(SimulatedNode::File(f)) => Ok(f),
            _ => Err(VfsError::InvalidInput),
        }
    }

    fn directory(&self, node: NodeId) -> VfsResult<&SimulatedDirectory> {
        match self.nodes.get(node) {
            Some(SimulatedNode::Directory(d)) => Ok(d),
            _ => Err(VfsError::Unsupported),
        }
    }

    fn directory_mut(&mut self, node: NodeId) -> VfsResult<&mut SimulatedDirectory> {
        match self.nodes.get_mut(node) {
            Some(SimulatedNode::Directory(d)) => Ok(d),
            _ => Err(VfsError::Unsupported),
        }
    }
}

impl VfsNodeOps for SimulatedFilesystem {
    fn open(&mut self, _node: NodeId) -> VfsResult<()> {
        Ok(())
    }

    fn release(&mut self, _node: NodeId) -> VfsResult<()> {
        Ok(())
    }

    fn get_attr(&self, node: NodeId) -> VfsResult<VfsNodeAttr> {
        match self.nodes.get(node) {
            Some(SimulatedNode::File(f)) => {
                let size = f.data.len() as u64;
                let blocks = (size + 511) / 512; // Round up to 512-byte blocks
                Ok(VfsNodeAttr::new_file(size, blocks))
            }
            Some(SimulatedNode::Directory(d)) => {
                Ok(VfsNodeAttr::new_dir(d.inode.size, d.inode.blocks))
            }
            None => Err(VfsError::Unsupported),
        }
    }

    fn read_at(&mut self, node: NodeId, offset: u64, buf: &mut [u8]) -> VfsResult<usize> {
        let data = &self.file(node)?.data;
        let offset = offset as usize;
        let to_read = buf.len().min(data.len().saturating_sub(offset));
        buf[..to_read].copy_from_slice(&data[offset..offset + to_read]);
        Ok(to_read)
    }

    fn write_at(&mut self, node: NodeId, offset: u64, buf: &[u8]) -> VfsResult<usize> {
        let data = &mut self.file(node)?.data;
        let offset = offset as usize;
        let new_len = (offset + buf.len()).max(data.len());
        data.resize(new_len, 0);
        data[offset..offset + buf.len()].copy_from_slice(buf);
        Ok(buf.len())
    }

    fn fsync(&mut self, node: NodeId) -> VfsResult<()> {
        self.file(node)?;
        Ok(())
    }

    fn truncate(&mut self, node: NodeId, size: u64) -> VfsResult<()> {
        self.file(node)?.data.resize(size as usize, 0);
        Ok(())
    }

    fn lookup<'a>(&self, node: NodeId, path: &'a str) -> VfsResult<Found<'a>> {
        let entries = &self.directory(node)?.entries;
        entries
            .get(path)
            .map(|n| Found::Node(*n))
            .ok_or(VfsError::NotFound)
    }

    fn create<'a>(&mut self, node: NodeId, path: &'a str, ty: VfsNodeType) -> VfsResult<Done<'a>> {
        if self.directory(node)?.entries.contains_key(path) {
            return Ok(Done::Here);
        }

        let ino = self.nodes.len() as u64 + 1;
        let new_node = match ty {
            VfsNodeType::File => SimulatedNode::File(SimulatedFile::new(ino)),
            VfsNodeType::Dir => SimulatedNode::Directory(SimulatedDirectory::new(ino, false)),
            _ => return Err(VfsError::Unsupported),
        };

        let id = self.nodes.len();
        self.nodes.push(new_node);
        self.directory_mut(node)?.entries.insert(path.to_string(), id);
        Ok(Done::Here)
    }

    fn remove<'a>(&mut self, node: NodeId, path: &'a str) -> VfsResult<Done<'a>> {
        let entries = &mut self.directory_mut(node)?.entries;
        entries.remove(path).ok_or(VfsError::NotFound)?;
        Ok(Done::Here)
    }

    fn read_dir(
        &self,
        node: NodeId,
        start_idx: usize,
        dirents: &mut [VfsDirEntry],
    ) -> VfsResult<usize> {
        let entries = &self.directory(node)?.entries;
        let entry_names: Vec<_> = entries.keys().collect();
        let count = dirents
            .len()
            .min(entry_names.len().saturating_sub(start_idx));

        for i in 0..count {
            let name = entry_names[start_idx + i];
            let child = *entries.get(name).unwrap();
            let attr = self.get_attr(child)?;

            dirents[i] = VfsDirEntry::new(name, attr.file_type());
        }

        Ok(count)
    }

    fn rename(&mut self, node: NodeId, src_path: &str, dst_path: &str) -> VfsResult<()> {
        let entries = &mut self.directory_mut(node)?.entries;
        if !entries.contains_key(src_path) {
            return Err(VfsError::NotFound);
        }

        let child = entries.remove(src_path).unwrap();
        entries.insert(dst_path.to_string(), child);
        Ok(())
    }
}

impl VfsOps for SimulatedFilesystem {
    fn mount(&mut self, _path: &str, _mount_point_has_parent: bool) -> VfsResult<()> {
        self.setup()
    }

    fn umount(&mut self) -> VfsResult<()> {
        Ok(())
    }

    fn statfs(&self) -> VfsResult<FileSystemInfo> {
        Err(VfsError::Unsupported)
    }

    fn root_dir(&self) -> NodeId {
        0
    }
}

fn mounted() -> SimulatedFilesystem {
    let mut fs = SimulatedFilesystem::new();
    let has_parent = fs.parent(fs.root_dir()).is_some();
    fs.mount("/", has_parent).unwrap();
    fs
}

// ============== System Tests ==============

#[test]
fn test_system_filesystem_lifecycle() {
    let mut fs = SimulatedFilesystem::new();

    // Test mount
    let has_parent = fs.parent(fs.root_dir()).is_some();
    let result = fs.mount("/", has_parent);
    assert!(result.is_ok());

    // Test umount
    let result = fs.umount();
    assert!(result.is_ok());
}

#[test]
fn test_system_directory_structure_setup() {
    let fs = mounted();

    let root = fs.root_dir();
    let dirents: &mut [VfsDirEntry] =
        &mut (0..100).map(|_| VfsDirEntry::default()).collect::<Vec<_>>();
    let count = fs.read_dir(root, 0, dirents).unwrap();

    // Should have created directories and files
    assert!(count > 0);
}

#[test]
fn test_system_file_create_read_write() {
    let mut fs = mounted();

    let root = fs.root_dir();
    fs.create(root, "system_test.txt", VfsNodeType::File).unwrap();

    // Lookup the file
    let file = fs.lookup(root, "system_test.txt").unwrap().node().unwrap();

    // Write data
    let test_data = b"System test data";
    let written = fs.write_at(file, 0, test_data).unwrap();
    assert_eq!(written, test_data.len());

    // Read data back
    let mut read_buf = vec![0u8; 100];
    let read_bytes = fs.read_at(file, 0, &mut read_buf).unwrap();
    assert_eq!(read_bytes, test_data.len());
    assert_eq!(&read_buf[..read_bytes], test_data);
}

#[test]
fn test_system_file_operations_sequence() {
    let mut fs = mounted();

    let root = fs.root_dir();

    // Create file
    fs.create(root, "seq_test.txt", VfsNodeType::File).unwrap();
    let file = fs.lookup(root, "seq_test.txt").unwrap().node().unwrap();

    // Write first chunk
    fs.write_at(file, 0, b"Hello, ").unwrap();

    // Write second chunk at offset
    fs.write_at(file, 7, b"World!").unwrap();

    // Read full content
    let mut buf = vec![0u8; 20];
    let n = fs.read_at(file, 0, &mut buf).unwrap();
    assert_eq!(&buf[..n], b"Hello, World!");

    // Truncate
    fs.truncate(file, 5).unwrap();

    // Read after truncate
    let mut buf2 = vec![0u8; 20];
    let n2 = fs.read_at(file, 0, &mut buf2).unwrap();
    assert_eq!(&buf2[..n2], b"Hello");
}

#[test]
fn test_system_directory_operations() {
    let mut fs = mounted();

    let root = fs.root_dir();

    // Create subdirectory
    fs.create(root, "test_dir", VfsNodeType::Dir).unwrap();
    let dir = fs.lookup(root, "test_dir").unwrap().node().unwrap();

    // Create file in subdirectory
    fs.create(dir, "file_in_dir.txt", VfsNodeType::File).unwrap();

    // Create duplicate should not fail
    fs.create(root, "test_dir", VfsNodeType::Dir).unwrap();

    // Remove directory
    fs.remove(root, "test_dir").unwrap();

    // Lookup should fail
    assert!(fs.lookup(root, "test_dir").is_err());
}

#[test]
fn test_system_file_rename() {
    let mut fs = mounted();

    let root = fs.root_dir();

    // Create file
    fs.create(root, "old_name.txt", VfsNodeType::File).unwrap();
    let file = fs.lookup(root, "old_name.txt").unwrap().node().unwrap();

    // Write data
    fs.write_at(file, 0, b"Rename test").unwrap();

    // Rename file
    fs.rename(root, "old_name.txt", "new_name.txt").unwrap();

    // Old name should not exist
    assert!(fs.lookup(root, "old_name.txt").is_err());

    // New name should exist
    let new_file = fs.lookup(root, "new_name.txt").unwrap().node().unwrap();

    // Data should be preserved
    let mut buf = vec![0u8; 20];
    let n = fs.read_at(new_file, 0, &mut buf).unwrap();
    assert_eq!(&buf[..n], b"Rename test");
}

#[test]
fn test_system_directory_pagination() {
    let mut fs = mounted();

    let root = fs.root_dir();

    // Create multiple files
    for i in 0..15 {
        fs.create(root, &format!("file_{}.txt", i), VfsNodeType::File)
            .unwrap();
    }

    // Read first page
    let mut dirents1: Vec<VfsDirEntry> = (0..5).map(|_| VfsDirEntry::default()).collect();
    let count1 = fs.read_dir(root, 0, &mut dirents1).unwrap();
    assert!(count1 > 0);

    // Read second page
    let mut dirents2: Vec<VfsDirEntry> = (0..5).map(|_| VfsDirEntry::default()).collect();
    let count2 = fs.read_dir(root, 5, &mut dirents2).unwrap();
    assert!(count2 > 0);

    // Read third page
    let mut dirents3: Vec<VfsDirEntry> = (0..5).map(|_| VfsDirEntry::default()).collect();
    let count3 = fs.read_dir(root, 10, &mut dirents3).unwrap();
    assert!(count3 > 0);
}

#[test]
fn test_system_file_truncate_extend() {
    let mut fs = mounted();

    let root = fs.root_dir();
    fs.create(root, "truncate_test.txt", VfsNodeType::File).unwrap();
    let file = fs.lookup(root, "truncate_test.txt").unwrap().node().unwrap();

    // Write initial data
    fs.write_at(file, 0, b"12345").unwrap();

    // Extend file
    fs.truncate(file, 100).unwrap();

    let mut buf = vec![0u8; 200];
    let n = fs.read_at(file, 0, &mut buf).unwrap();
    assert_eq!(n, 100);
    assert_eq!(&buf[..5], b"12345");
    assert!(&buf[5..n].iter().all(|&b| b == 0));

    // Shrink file
    fs.truncate(file, 3).unwrap();

    let mut buf2 = vec![0u8; 20];
    let n2 = fs.read_at(file, 0, &mut buf2).unwrap();
    assert_eq!(n2, 3);
    assert_eq!(&buf2[..n2], b"123");
}

#[test]
fn test_system_file_fsync() {
    let mut fs = mounted();

    let root = fs.root_dir();
    fs.create(root, "fsync_test.txt", VfsNodeType::File).unwrap();
    let file = fs.lookup(root, "fsync_test.txt").unwrap().node().unwrap();

    // Write data
    fs.write_at(file, 0, b"Fsync test").unwrap();

    // Sync should succeed
    let result = fs.fsync(file);
    assert!(result.is_ok());
}

#[test]
fn test_system_node_attributes() {
    let mut fs = mounted();

    let root = fs.root_dir();

    // Test directory attributes
    let dir_attr = fs.get_attr(root).unwrap();
    assert!(dir_attr.is_dir());
    assert!(!dir_attr.is_file());
    assert_eq!(dir_attr.size(), 4096);

    // Create file
    fs.create(root, "attr_test.txt", VfsNodeType::File).unwrap();
    let file = fs.lookup(root, "attr_test.txt").unwrap().node().unwrap();

    // Test file attributes
    let file_attr = fs.get_attr(file).unwrap();
    assert!(!file_attr.is_dir());
    assert!(file_attr.is_file());
    assert_eq!(file_attr.size(), 0);

    // Write data and check updated size
    fs.write_at(file, 0, b"Test").unwrap();
    let file_attr2 = fs.get_attr(file).unwrap();
    assert_eq!(file_attr2.size(), 4);
}

#[test]
fn test_system_error_handling() {
    let mut fs = mounted();

    let root = fs.root_dir();

    // Lookup non-existent file
    let result = fs.lookup(root, "nonexistent.txt");
    assert!(result.is_err());

    // Remove non-existent file
    let result = fs.remove(root, "nonexistent.txt");
    assert!(result.is_err());

    // Rename non-existent file
    let result = fs.rename(root, "nonexistent.txt", "new.txt");
    assert!(result.is_err());
}
