use axfs::{
    Device, DirNode, Done, Found, Node, NodeRef, NullDev, Place, RamFileSystem, Tree, VfsDirEntry,
    VfsError, VfsNodeType,
};

#[test]
fn a_new_tree_is_one_empty_root() {
    let tree = Tree::new();
    let root = tree.root();
    assert_eq!(root, 0);
    assert_eq!(tree.kind(root), Some(VfsNodeType::Dir));
    assert_eq!(tree.kind(1), None);
    assert!(tree.get(1).is_none());
    assert!(matches!(tree.get(root), Some(Node::Dir(_))));
    assert_eq!(tree.dir_node(root).ok().map(DirNode::len), Some(0));
    assert_eq!(tree.dir_node(5).err(), Some(VfsError::NotFound));
    assert!(tree.parent(root).is_none());
    assert!(tree.parent(9).is_none());
    assert_eq!(tree.get_attr(root).unwrap().size(), 4096);
    assert_eq!(tree.get_attr(3).err(), Some(VfsError::NotFound));
}

#[test]
fn the_tree_gives_ids_in_the_order_of_creation() {
    let mut tree = Tree::new();
    let root = tree.root();
    assert_eq!(tree.create_node(root, "b", VfsNodeType::Dir), Ok(()));
    assert_eq!(tree.create_node(root, "a", VfsNodeType::File), Ok(()));
    assert_eq!(tree.create_node(1, "c", VfsNodeType::File), Ok(()));
    assert!(matches!(tree.lookup(root, "b"), Ok(Found::Node(1))));
    assert!(matches!(tree.lookup(root, "a"), Ok(Found::Node(2))));
    assert!(matches!(tree.lookup(root, "b/c"), Ok(Found::Node(3))));
    assert_eq!(tree.kind(1), Some(VfsNodeType::Dir));
    assert_eq!(tree.kind(2), Some(VfsNodeType::File));
    assert_eq!(tree.parent(1), Some(NodeRef::Inside(root)));
    assert!(tree.parent(2).is_none());
    assert_eq!(tree.dir_node(2).err(), Some(VfsError::NotADirectory));
    assert_eq!(tree.remove_node(1, "c"), Ok(()));
    assert_eq!(tree.remove_node(root, "b"), Ok(()));
    assert_eq!(tree.create_node(root, "d", VfsNodeType::File), Ok(()));
    assert!(matches!(tree.lookup(root, "d"), Ok(Found::Node(4))));
    assert_eq!(tree.kind(1), None);
    assert_eq!(tree.kind(3), None);
}

#[test]
fn locate_stops_before_the_last_component() {
    let mut tree = Tree::new();
    let root = tree.root();
    tree.create_node(root, "a", VfsNodeType::Dir).unwrap();
    tree.create_node(root, "f", VfsNodeType::File).unwrap();
    assert!(matches!(tree.locate(root, "a/new"), Ok(Place::At(1, "new"))));
    assert!(matches!(tree.locate(root, "//a//new"), Ok(Place::At(1, "new"))));
    assert!(matches!(tree.locate(root, "a/"), Ok(Place::At(1, ""))));
    assert!(matches!(tree.locate(root, "a"), Ok(Place::At(0, "a"))));
    assert!(matches!(tree.locate(root, ""), Ok(Place::At(0, ""))));
    assert!(matches!(tree.locate(root, "a/../.."), Ok(Place::At(0, ".."))));
    assert!(matches!(tree.locate(root, "missing"), Ok(Place::At(0, "missing"))));
    assert_eq!(
        tree.locate(root, "missing/x").err(),
        Some(VfsError::NotFound)
    );
    assert_eq!(
        tree.locate(root, "f/x").err(),
        Some(VfsError::NotADirectory)
    );
    assert_eq!(tree.locate(2, "x").err(), Some(VfsError::NotADirectory));
    assert_eq!(tree.locate(7, "x").err(), Some(VfsError::NotFound));
    assert_eq!(tree.locate(root, "../x").err(), Some(VfsError::NotFound));
    tree.mount(true);
    assert!(matches!(tree.locate(root, "../x/y"), Ok(Place::Outside("x/y"))));
    assert!(matches!(tree.locate(root, ".."), Ok(Place::At(0, ".."))));
}

#[test]
fn a_directory_node_finds_its_entries_by_name() {
    let mut fs = RamFileSystem::new();
    let root = fs.root_dir();
    for name in ["m", "c", "x", "a", "k"] {
        fs.create(root, name, VfsNodeType::File).unwrap();
    }
    let dir = fs.root_dir_node();
    assert_eq!(dir.len(), 5);
    assert!(dir.parent().is_none());
    let names: Vec<&str> = (0..dir.len()).map(|i| dir.entry_name(i)).collect();
    assert_eq!(names, vec!["a", "c", "k", "m", "x"]);
    assert_eq!(dir.find(b"a"), Some(0));
    assert_eq!(dir.find(b"k"), Some(2));
    assert_eq!(dir.find(b"x"), Some(4));
    assert_eq!(dir.find(b"b"), None);
    assert_eq!(dir.find(b""), None);
    assert_eq!(dir.find(b"z"), None);
    for i in 0..dir.len() {
        assert_eq!(dir.child(dir.entry_name(i).as_bytes()), Some(dir.entry_node(i)));
    }
    assert_eq!(dir.child(b"m"), fs.lookup(root, "m").unwrap().node());
    assert_eq!(dir.child(b"q"), None);
    assert!(dir.exist("c"));
    assert!(!dir.exist("C"));
}

#[test]
fn the_tree_reads_and_writes_its_nodes() {
    let mut tree = Tree::new();
    let root = tree.root();
    tree.create_node(root, "f", VfsNodeType::File).unwrap();
    assert_eq!(tree.write_at(1, 2, b"ab"), Ok(2));
    let mut buf = [9u8; 6];
    assert_eq!(tree.read_at(1, 0, &mut buf), Ok(4));
    assert_eq!(buf, [0, 0, b'a', b'b', 9, 9]);
    assert_eq!(tree.truncate(1, 3), Ok(()));
    assert_eq!(tree.get_attr(1).unwrap().size(), 3);
    assert_eq!(tree.fsync(1), Ok(()));
    assert_eq!(tree.fsync(root).err(), Some(VfsError::InvalidInput));
    assert_eq!(tree.fsync(8).err(), Some(VfsError::NotFound));
    assert_eq!(tree.read_at(root, 0, &mut buf).err(), Some(VfsError::InvalidInput));
    assert_eq!(tree.read_at(8, 0, &mut buf).err(), Some(VfsError::NotFound));
    let mut page: Vec<VfsDirEntry> = (0..4).map(|_| VfsDirEntry::default()).collect();
    assert_eq!(tree.read_dir(root, 0, &mut page), Ok(3));
    assert_eq!(page[2].name_as_bytes(), b"f");
    assert_eq!(page[2].entry_type(), VfsNodeType::File);
    assert_eq!(page[3].name_as_bytes(), b"");
}

#[test]
fn the_outcome_of_a_path_operation_tells_where_it_ended() {
    let mut fs = RamFileSystem::new();
    let root = fs.root_dir();
    let here = fs.create(root, "x", VfsNodeType::File).unwrap();
    assert!(matches!(here, Done::Here));
    let found = fs.lookup(root, "x").unwrap();
    assert_eq!(found.node(), Some(1));
    let null = Device::Null(NullDev);
    assert_eq!(null.get_attr().unwrap().file_type(), VfsNodeType::CharDevice);
    assert_eq!(null.write_at(3, b"abc"), Ok(3));
    assert_eq!(null.truncate(3), Ok(()));
}
