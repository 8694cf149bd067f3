//! What a directory tree holds, and what its operations come to, as
//! mathematics: the functions over which the operations are specified.

use vstd::prelude::*;
use crate::device::DeviceView;
use crate::dir::{DirView, EntryView, NodeId};
use crate::error::VfsError;
use crate::file::{file_attr, read_bytes, resized, written};
use crate::null::device_attr;
use crate::path::{is_dot, is_dotdot, is_plain_name, lemma_split, split_head, split_rest};
use crate::structs::{AttrView, VfsNodeType};

verus! {

/// What a node holds.
pub enum NodeView {
    /// A directory: its parent and its entries.
    Dir(DirView),
    /// A file: its bytes.
    File(Seq<u8>),
    /// A device.
    Device(DeviceView),
}

/// Where a step from a directory leads: to a node of the filesystem, or out
/// of it, to the directory that holds the mount point.
#[derive(Debug, Clone, Copy, PartialEq, Eq, Structural)]
pub enum NodeRef {
    /// A node of the filesystem.
    Inside(NodeId),
    /// The directory outside the filesystem that holds its mount point.
    Outside,
}

/// What a path resolves to, over bytes.
pub enum FoundView {
    /// A node of the filesystem.
    Node(NodeId),
    /// The walk left the filesystem through the parent of its root; what is
    /// left of the path, if anything, is to be resolved there.
    Outside(Option<Seq<u8>>),
}

/// Where the last component of a path is to be acted on, over bytes.
pub enum PlaceView {
    /// In this directory, under this last component.
    At(NodeId, Seq<u8>),
    /// Outside the filesystem: the walk left through the parent of its
    /// root, and this much of the path is still to be walked there.
    Outside(Seq<u8>),
}

/// The entry that stands for a position of a directory's listing.
pub struct Listed {
    /// The name.
    pub name: Seq<u8>,
    /// The kind of the node.
    pub ty: VfsNodeType,
}

/// The size that a directory reports.
pub const DIR_SIZE: u64 = 4096;

/// The attributes of a directory.
pub open spec fn dir_attr() -> AttrView {
    AttrView { perm: 0o755, ty: VfsNodeType::Dir, size: DIR_SIZE, blocks: 0 }
}

/// What a tree holds.
pub struct TreeView {
    /// The nodes by id; `None` where a node was removed.
    pub nodes: Seq<Option<NodeView>>,
    /// The root directory.
    pub root: NodeId,
    /// Whether the filesystem was mounted.
    pub mounted: bool,
    /// Whether the root has a parent outside the filesystem.
    pub outside: bool,
}

/// How an operation on a path ended, over bytes.
pub enum DoneView {
    /// It was carried out in this filesystem.
    Here,
    /// The path left the filesystem through the parent of its root; the
    /// operation is to be carried out there, on this much of the path.
    Outside(Seq<u8>),
}

/// Whether `name` is a last component that stands for a directory that is
/// there already: an empty one, `.` or `..`.
pub open spec fn is_pseudo(name: Seq<u8>) -> bool {
    name.len() == 0 || is_dot(name) || is_dotdot(name)
}

impl TreeView {
    /// Whether `id` names a node.
    pub open spec fn live(self, id: NodeId) -> bool {
        id < self.nodes.len() && self.nodes[id as int] is Some
    }

    /// The node that `id` names.
    pub open spec fn node(self, id: NodeId) -> NodeView {
        self.nodes[id as int]->0
    }

    /// Whether `id` names a directory.
    pub open spec fn is_dir(self, id: NodeId) -> bool {
        self.live(id) && self.node(id) is Dir
    }

    /// The directory that `id` names.
    pub open spec fn dir(self, id: NodeId) -> DirView {
        self.node(id)->Dir_0
    }

    /// Entry `i` of the directory `d`.
    pub open spec fn entry(self, d: NodeId, i: int) -> EntryView {
        self.dir(d).entries[i]
    }

    /// The kind of the node `id`.
    pub open spec fn kind(self, id: NodeId) -> VfsNodeType {
        match self.node(id) {
            NodeView::Dir(_) => VfsNodeType::Dir,
            NodeView::File(_) => VfsNodeType::File,
            NodeView::Device(_) => VfsNodeType::CharDevice,
        }
    }

    /// The attributes of the node `id`.
    pub open spec fn attr(self, id: NodeId) -> AttrView {
        match self.node(id) {
            NodeView::Dir(_) => dir_attr(),
            NodeView::File(content) => file_attr(content.len() as int),
            NodeView::Device(_) => device_attr(),
        }
    }

    /// The parent of the node `id`: that of a directory in the tree, the
    /// directory outside for a root that has one, and none for any other
    /// node.
    pub open spec fn parent_of(self, id: NodeId) -> Option<NodeRef> {
        if !self.is_dir(id) {
            None
        } else {
            match self.dir(id).parent {
                Some(p) => Some(NodeRef::Inside(p)),
                None => if id == self.root && self.outside {
                    Some(NodeRef::Outside)
                } else {
                    None
                },
            }
        }
    }

    /// Whether entry `i` of the directory `d` names a node, and a directory
    /// only if that one has `d` as its parent.
    pub open spec fn entry_ok(self, d: NodeId, i: int) -> bool {
        let c = self.entry(d, i).node;
        &&& self.live(c)
        &&& (self.is_dir(c) ==> self.dir(c).parent == Some(d))
    }

    /// Whether the directory `d` is in order: its table is, its entries
    /// name nodes, and its parent, if it has one, is a directory that holds
    /// it and is another directory.
    pub open spec fn dir_ok(self, d: NodeId) -> bool {
        &&& self.dir(d).wf()
        &&& forall|i: int| 0 <= i < self.dir(d).entries.len() ==> #[trigger] self.entry_ok(d, i)
        &&& match self.dir(d).parent {
            Some(p) => p != d && self.is_dir(p) && self.dir(p).holds(d),
            None => true,
        }
    }

    /// Whether no node is named by two entries.
    pub open spec fn single_owner(self) -> bool {
        forall|d1: NodeId, i1: int, d2: NodeId, i2: int|
            #![trigger self.entry(d1, i1), self.entry(d2, i2)]
            self.is_dir(d1) && self.is_dir(d2) && 0 <= i1 < self.dir(d1).entries.len() && 0 <= i2
                < self.dir(d2).entries.len() && self.entry(d1, i1).node == self.entry(d2, i2).node
                ==> d1 == d2 && i1 == i2
    }

    /// Whether the tree is consistent: the root is a directory without a
    /// parent in the tree, every directory is in order, and no node is
    /// named twice.
    pub open spec fn wf(self) -> bool {
        &&& self.nodes.len() <= usize::MAX
        &&& self.is_dir(self.root)
        &&& self.dir(self.root).parent is None
        &&& (self.outside ==> self.mounted)
        &&& forall|d: NodeId| #[trigger] self.is_dir(d) ==> self.dir_ok(d)
        &&& self.single_owner()
    }

    /// Why a directory operation cannot start at `id`, if it cannot.
    pub open spec fn check_dir(self, id: NodeId) -> Result<(), VfsError> {
        if !self.live(id) {
            Err(VfsError::NotFound)
        } else if !self.is_dir(id) {
            Err(VfsError::NotADirectory)
        } else {
            Ok(())
        }
    }

    /// Where one component leads from the directory `d`: an empty one and
    /// `.` to `d` itself, `..` to its parent, a name to the child of that
    /// name.
    pub open spec fn step(self, d: NodeId, head: Seq<u8>) -> Result<NodeRef, VfsError> {
        if head.len() == 0 || is_dot(head) {
            Ok(NodeRef::Inside(d))
        } else if is_dotdot(head) {
            match self.parent_of(d) {
                Some(p) => Ok(p),
                None => Err(VfsError::NotFound),
            }
        } else {
            match self.dir(d).child(head) {
                Some(c) => Ok(NodeRef::Inside(c)),
                None => Err(VfsError::NotFound),
            }
        }
    }

    /// What `path` resolves to from the node `d`.
    ///
    /// The walk starts at a directory.  It takes the first component of
    /// the path; if a rest is left, it goes on from where the component
    /// led, which has to be a directory again.
    pub open spec fn lookup(self, d: NodeId, path: Seq<u8>) -> Result<FoundView, VfsError>
        decreases path.len(),
    {
        if self.check_dir(d) is Err {
            Err(self.check_dir(d)->Err_0)
        } else {
            match self.step(d, split_head(path)) {
                Err(e) => Err(e),
                Ok(NodeRef::Outside) => Ok(FoundView::Outside(split_rest(path))),
                Ok(NodeRef::Inside(n)) => match split_rest(path) {
                    None => Ok(FoundView::Node(n)),
                    Some(rest) => {
                        proof {
                            lemma_split(path);
                        }
                        self.lookup(n, rest)
                    },
                },
            }
        }
    }

    /// Where the last component of `path` is to be acted on, from the
    /// node `d`: the walk of `lookup`, but for the last component, which
    /// is not taken.
    pub open spec fn place(self, d: NodeId, path: Seq<u8>) -> Result<PlaceView, VfsError>
        decreases path.len(),
    {
        if self.check_dir(d) is Err {
            Err(self.check_dir(d)->Err_0)
        } else {
            match split_rest(path) {
                None => Ok(PlaceView::At(d, split_head(path))),
                Some(rest) => match self.step(d, split_head(path)) {
                    Err(e) => Err(e),
                    Ok(NodeRef::Outside) => Ok(PlaceView::Outside(rest)),
                    Ok(NodeRef::Inside(n)) => {
                        proof {
                            lemma_split(path);
                        }
                        self.place(n, rest)
                    },
                },
            }
        }
    }

    /// The number of positions in the listing of the directory `d`: one
    /// for `.`, one for `..`, one for each entry.
    pub open spec fn listing_len(self, d: NodeId) -> int {
        self.dir(d).entries.len() as int + 2
    }

    /// What stands at position `k` of the listing of the directory `d`:
    /// `.` and `..` first, both as directories, then the entries in the
    /// order of their names, each with the kind of its node.
    pub open spec fn listed(self, d: NodeId, k: int) -> Listed {
        if k == 0 {
            Listed { name: seq![0x2eu8], ty: VfsNodeType::Dir }
        } else if k == 1 {
            Listed { name: seq![0x2eu8, 0x2eu8], ty: VfsNodeType::Dir }
        } else {
            Listed { name: self.entry(d, k - 2).name, ty: self.kind(self.entry(d, k - 2).node) }
        }
    }

    /// The number of positions that a read of the listing of `d` fills,
    /// from position `start` on, in a buffer of `room` records.
    pub open spec fn listed_count(self, d: NodeId, start: int, room: int) -> int {
        if start >= self.listing_len(d) {
            0
        } else if self.listing_len(d) - start < room {
            self.listing_len(d) - start
        } else {
            room
        }
    }

    /// The tree with one more node, `node`, named `name` in the directory
    /// `d`.  The new node gets the next id, the number of ids given so far.
    pub open spec fn linked(self, d: NodeId, name: Seq<u8>, node: NodeView) -> TreeView {
        let e = EntryView { name, node: self.nodes.len() as NodeId };
        TreeView {
            nodes: self.nodes.update(d as int, Some(NodeView::Dir(self.dir(d).with_entry(e)))).push(
                Some(node),
            ),
            ..self
        }
    }

    /// The tree without entry `k` of the directory `d` and without the
    /// node that the entry named.
    pub open spec fn unlinked(self, d: NodeId, k: int) -> TreeView {
        TreeView {
            nodes: self.nodes.update(d as int, Some(NodeView::Dir(self.dir(d).without(k)))).update(
                self.entry(d, k).node as int,
                None,
            ),
            ..self
        }
    }

    /// Whether `node` can be linked into the directory `d`: a directory
    /// has to be empty and to have `d` as its parent.
    pub open spec fn fits(d: NodeId, node: NodeView) -> bool {
        node is Dir ==> node->Dir_0 == (DirView { parent: Some(d), entries: Seq::empty() })
    }

    /// Why the directory `d` cannot get a new node of kind `ty` under
    /// `name`, if it cannot.
    pub open spec fn create_node_check(self, d: NodeId, name: Seq<u8>, ty: VfsNodeType) -> Result<
        (),
        VfsError,
    > {
        if self.check_dir(d) is Err {
            self.check_dir(d)
        } else if !is_plain_name(name) {
            Err(VfsError::InvalidInput)
        } else if self.dir(d).has(name) {
            Err(VfsError::AlreadyExists)
        } else if ty != VfsNodeType::File && ty != VfsNodeType::Dir {
            Err(VfsError::Unsupported)
        } else {
            Ok(())
        }
    }

    /// The node that a creation of kind `ty` in the directory `d` makes:
    /// an empty file, or an empty directory with `d` as its parent.
    pub open spec fn fresh(d: NodeId, ty: VfsNodeType) -> NodeView {
        if ty == VfsNodeType::Dir {
            NodeView::Dir(DirView { parent: Some(d), entries: Seq::empty() })
        } else {
            NodeView::File(Seq::empty())
        }
    }

    /// The tree after an attempt to create a node of kind `ty` under
    /// `name` in the directory `d`.
    pub open spec fn create_node(self, d: NodeId, name: Seq<u8>, ty: VfsNodeType) -> TreeView {
        if self.create_node_check(d, name, ty) is Ok {
            self.linked(d, name, Self::fresh(d, ty))
        } else {
            self
        }
    }

    /// Why the entry `name` of the directory `d` cannot be removed, if it
    /// cannot: there is none, or it names a directory that has entries.
    pub open spec fn remove_node_check(self, d: NodeId, name: Seq<u8>) -> Result<(), VfsError> {
        if self.check_dir(d) is Err {
            self.check_dir(d)
        } else if !self.dir(d).has(name) {
            Err(VfsError::NotFound)
        } else {
            let c = self.dir(d).child(name)->0;
            if self.is_dir(c) && self.dir(c).entries.len() > 0 {
                Err(VfsError::DirectoryNotEmpty)
            } else {
                Ok(())
            }
        }
    }

    /// The tree after an attempt to remove the entry `name` of the
    /// directory `d`.
    pub open spec fn remove_node(self, d: NodeId, name: Seq<u8>) -> TreeView {
        if self.remove_node_check(d, name) is Ok {
            self.unlinked(d, self.dir(d).index_of(name))
        } else {
            self
        }
    }

    /// The tree with `node` in the place of the node `id`.
    pub open spec fn with_node(self, id: NodeId, node: NodeView) -> TreeView {
        TreeView { nodes: self.nodes.update(id as int, Some(node)), ..self }
    }

    /// What a read at `offset` into a buffer that holds `buf` returns on
    /// the node `id`: the number of bytes read from a file or a device,
    /// an error for a directory.
    pub open spec fn read_at(self, id: NodeId, offset: u64, buf: Seq<u8>) -> Result<
        usize,
        VfsError,
    > {
        if !self.live(id) {
            Err(VfsError::NotFound)
        } else {
            match self.node(id) {
                NodeView::Dir(_) => Err(VfsError::InvalidInput),
                NodeView::File(content) => Ok(
                    read_bytes(content, offset as int, buf.len() as int).len() as usize,
                ),
                NodeView::Device(d) => Ok(d.read_len(buf.len() as int) as usize),
            }
        }
    }

    /// The buffer after a read at `offset` on the node `id` into a buffer
    /// that holds `buf`.
    pub open spec fn read_at_buf(self, id: NodeId, offset: u64, buf: Seq<u8>) -> Seq<u8> {
        if !self.live(id) {
            buf
        } else {
            match self.node(id) {
                NodeView::Dir(_) => buf,
                NodeView::File(content) => {
                    let got = read_bytes(content, offset as int, buf.len() as int);
                    got + buf.skip(got.len() as int)
                },
                NodeView::Device(d) => d.read_buf(buf),
            }
        }
    }

    /// The tree after a read into a buffer of `len` bytes on the node
    /// `id`: a pseudo-random device has stepped, nothing else has changed.
    pub open spec fn after_read(self, id: NodeId, len: int) -> TreeView {
        if !self.live(id) {
            self
        } else {
            match self.node(id) {
                NodeView::Device(d) => self.with_node(id, NodeView::Device(d.after_read(len))),
                _ => self,
            }
        }
    }

    /// What a write of `data` returns on the node `id`: its length on a
    /// file or a device, an error for a directory.
    pub open spec fn write_at(self, id: NodeId, data: Seq<u8>) -> Result<usize, VfsError> {
        if !self.live(id) {
            Err(VfsError::NotFound)
        } else {
            match self.node(id) {
                NodeView::Dir(_) => Err(VfsError::InvalidInput),
                _ => Ok(data.len() as usize),
            }
        }
    }

    /// The tree after a write of `data` at `offset` on the node `id`: a
    /// file has taken the data, nothing else has changed.
    pub open spec fn after_write(self, id: NodeId, offset: u64, data: Seq<u8>) -> TreeView {
        if !self.live(id) {
            self
        } else {
            match self.node(id) {
                NodeView::File(content) => self.with_node(
                    id,
                    NodeView::File(written(content, offset as int, data)),
                ),
                _ => self,
            }
        }
    }

    /// What a file operation without a result of its own returns on the
    /// node `id`: success on a file or a device, an error for a directory.
    pub open spec fn file_op(self, id: NodeId) -> Result<(), VfsError> {
        if !self.live(id) {
            Err(VfsError::NotFound)
        } else {
            match self.node(id) {
                NodeView::Dir(_) => Err(VfsError::InvalidInput),
                _ => Ok(()),
            }
        }
    }

    /// The tree after the node `id` is truncated to `size`: a file has
    /// that size, nothing else has changed.
    pub open spec fn after_truncate(self, id: NodeId, size: u64) -> TreeView {
        if !self.live(id) {
            self
        } else {
            match self.node(id) {
                NodeView::File(content) => self.with_node(
                    id,
                    NodeView::File(resized(content, size as int)),
                ),
                _ => self,
            }
        }
    }

    /// Whether the node `id` is a file.
    pub open spec fn is_file(self, id: NodeId) -> bool {
        self.live(id) && self.node(id) is File
    }

    /// The tree after a mount at a point that has a parent directory, or
    /// has none: the first mount decides whether the root has a parent
    /// outside, a later one changes nothing.
    pub open spec fn mount(self, has_parent: bool) -> TreeView {
        if self.mounted {
            self
        } else {
            TreeView { mounted: true, outside: has_parent, ..self }
        }
    }

    /// The directory `c` without a parent.
    pub open spec fn detached(self, c: NodeId) -> NodeView {
        NodeView::Dir(DirView { parent: None, entries: self.dir(c).entries })
    }

    /// The tree in which entry `k` of the directory `d` names the new node
    /// `node`.  The node that the entry named stays, cut off: if it is a
    /// directory it has no parent any more.
    pub open spec fn relinked(self, d: NodeId, k: int, node: NodeView) -> TreeView {
        let c = self.entry(d, k).node;
        let e = EntryView { name: self.entry(d, k).name, node: self.nodes.len() as NodeId };
        let renamed = self.nodes.update(
            d as int,
            Some(
                NodeView::Dir(
                    DirView { parent: self.dir(d).parent, entries: self.dir(d).entries.update(k, e) },
                ),
            ),
        );
        let cut = if self.is_dir(c) {
            renamed.update(c as int, Some(self.detached(c)))
        } else {
            renamed
        };
        TreeView { nodes: cut.push(Some(node)), ..self }
    }

    /// The tree after `node` is put into the directory `d` under `name`:
    /// under a new name it is linked, under a name that the directory has
    /// it takes the place of the node of that name.
    pub open spec fn put(self, d: NodeId, name: Seq<u8>, node: NodeView) -> TreeView {
        if self.dir(d).has(name) {
            self.relinked(d, self.dir(d).index_of(name), node)
        } else {
            self.linked(d, name, node)
        }
    }
}

} // verus!
