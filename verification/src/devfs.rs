//! The device filesystem: a tree of directories and device nodes that is
//! put together once and then only read.

use vstd::prelude::*;
use vstd::string::StringSliceAdditionalSpecFns;
use crate::device::{Device, DeviceView};
use crate::dir::{DirNode, DirView, NodeId};
use crate::error::{VfsError, VfsResult};
use crate::ops::{VfsNodeOps, VfsOps};
use crate::path::is_plain_name;
use crate::structs::{VfsDirEntry, VfsNodeAttr, VfsNodeType};
use crate::model::{DoneView, NodeRef, NodeView, PlaceView, TreeView};
use crate::tree::{done_view, found_view, Done, Found, Node, Place, Tree};

verus! {

/// How a creation at `path` from the node `dir` ends in a device
/// filesystem: where the walk reaches the last component, it is denied,
/// whatever the component is.
pub open spec fn create_denied(t: TreeView, dir: NodeId, path: Seq<u8>) -> Result<
    DoneView,
    VfsError,
> {
    match t.place(dir, path) {
        Err(e) => Err(e),
        Ok(PlaceView::Outside(rest)) => Ok(DoneView::Outside(rest)),
        Ok(PlaceView::At(_, _)) => Err(VfsError::PermissionDenied),
    }
}

/// How a removal at `path` from the node `dir` ends in a device
/// filesystem: where the walk reaches the last component, it is denied.
pub open spec fn remove_denied(t: TreeView, dir: NodeId, path: Seq<u8>) -> Result<
    DoneView,
    VfsError,
> {
    match t.place(dir, path) {
        Err(e) => Err(e),
        Ok(PlaceView::Outside(rest)) => Ok(DoneView::Outside(rest)),
        Ok(PlaceView::At(_, _)) => Err(VfsError::PermissionDenied),
    }
}

/// An empty directory in the directory `dir`.
pub open spec fn empty_dir_in(dir: NodeId) -> NodeView {
    NodeView::Dir(DirView { parent: Some(dir), entries: Seq::empty() })
}

/// Whether the tree holds no file.
pub open spec fn no_files(t: TreeView) -> bool {
    forall|id: NodeId| !#[trigger] t.is_file(id)
}

/// A change that the device filesystem makes to its tree.
pub enum DeviceChange {
    /// A mount at a point that has a parent, or has none.
    Mount(bool),
    /// A new directory under a name in a directory.
    Mkdir(NodeId, Seq<u8>),
    /// A device under a name in a directory.
    Add(NodeId, Seq<u8>, DeviceView),
    /// A read from a node into a buffer of a length.
    Read(NodeId, int),
}

/// Whether a change can be made to the tree: a node is put into a
/// directory.
pub open spec fn device_change_fits(t: TreeView, c: DeviceChange) -> bool {
    match c {
        DeviceChange::Mkdir(d, _) => t.is_dir(d),
        DeviceChange::Add(d, _, _) => t.is_dir(d),
        _ => true,
    }
}

/// The tree after a change.
pub open spec fn device_tree_changed(t: TreeView, c: DeviceChange) -> TreeView {
    match c {
        DeviceChange::Mount(has_parent) => t.mount(has_parent),
        DeviceChange::Mkdir(d, name) => t.put(d, name, empty_dir_in(d)),
        DeviceChange::Add(d, name, device) => t.put(d, name, NodeView::Device(device)),
        DeviceChange::Read(id, len) => t.after_read(id, len),
    }
}

/// A node that is put into a tree leaves every node that was there a node
/// of its kind; the one node more is the node that was put.
proof fn lemma_put_keeps_others(t: TreeView, d: NodeId, name: Seq<u8>, node: NodeView, id: NodeId)
    requires
        t.wf(),
        t.is_dir(d),
    ensures
        t.put(d, name, node).live(id) ==> if id < t.nodes.len() {
            t.live(id) && (t.put(d, name, node).node(id) is File <==> t.node(id) is File)
        } else {
            t.put(d, name, node).node(id) == node
        },
{
    let k = t.dir(d).index_of(name);
    if t.dir(d).has(name) {
        assert(t.dir_ok(d));
        assert(t.entry_ok(d, k));
        assert(t.put(d, name, node) == t.relinked(d, k, node));
    } else {
        assert(t.put(d, name, node) == t.linked(d, name, node));
    }
}

/// No change that the device filesystem makes brings a file into a tree
/// that holds none.
pub proof fn lemma_device_tree_holds_no_file(t: TreeView, c: DeviceChange)
    requires
        t.wf(),
        no_files(t),
        device_change_fits(t, c),
    ensures
        no_files(device_tree_changed(t, c)),
{
    let t2 = device_tree_changed(t, c);
    assert forall|id: NodeId| !#[trigger] t2.is_file(id) by {
        assert(!t.is_file(id));
        match c {
            DeviceChange::Mkdir(d, name) => {
                lemma_put_keeps_others(t, d, name, empty_dir_in(d), id);
            },
            DeviceChange::Add(d, name, device) => {
                lemma_put_keeps_others(t, d, name, NodeView::Device(device), id);
            },
            _ => {},
        }
    }
}

/// A filesystem of device nodes.
pub struct DeviceFileSystem {
    tree: Tree,
}

impl View for DeviceFileSystem {
    type V = TreeView;

    /// The tree of the filesystem.
    closed spec fn view(&self) -> TreeView {
        self.tree@
    }
}

impl DeviceFileSystem {
    /// Whether the filesystem is consistent and holds directories and
    /// devices only.
    pub open spec fn wf(&self) -> bool {
        self@.wf() && no_files(self@)
    }

    /// A filesystem of one empty root directory, not yet mounted.
    pub fn new() -> (r: Self)
        ensures
            r.wf(),
            r@ == Tree::new_view(),
    {
        let r = Self { tree: Tree::new() };
        assert forall|id: NodeId| !#[trigger] r@.is_file(id) by {}
        r
    }

    /// Makes a directory under `name` in the root directory and returns
    /// its id.  Under a name that the root has, the new directory takes the
    /// place of the node of that name.
    pub fn mkdir(&mut self, name: &str) -> (r: NodeId)
        requires
            old(self).wf(),
            is_plain_name(name.spec_bytes()),
        ensures
            final(self).wf(),
            final(self)@ == old(self)@.put(
                old(self)@.root,
                name.spec_bytes(),
                empty_dir_in(old(self)@.root),
            ),
            r == old(self)@.nodes.len(),
    {
        let root = self.tree.root();
        self.mkdir_at(root, name)
    }

    /// Adds the device `node` under `name` to the root directory.  Under a
    /// name that the root has, the device takes the place of the node of
    /// that name.
    pub fn add(&mut self, name: &str, node: Device)
        requires
            old(self).wf(),
            is_plain_name(name.spec_bytes()),
        ensures
            final(self).wf(),
            final(self)@ == old(self)@.put(
                old(self)@.root,
                name.spec_bytes(),
                NodeView::Device(node@),
            ),
    {
        let root = self.tree.root();
        self.add_at(root, name, node)
    }

    /// Makes a directory under `name` in the directory `dir` and returns
    /// its id.  Under a name that the directory has, the new directory
    /// takes the place of the node of that name.
    pub fn mkdir_at(&mut self, dir: NodeId, name: &str) -> (r: NodeId)
        requires
            old(self).wf(),
            old(self)@.is_dir(dir),
            is_plain_name(name.spec_bytes()),
        ensures
            final(self).wf(),
            final(self)@ == old(self)@.put(dir, name.spec_bytes(), empty_dir_in(dir)),
            r == old(self)@.nodes.len(),
    {
        let r = self.tree.put(dir, name, Node::Dir(DirNode::new(Some(dir))));
        proof {
            lemma_device_tree_holds_no_file(old(self)@, DeviceChange::Mkdir(dir, name.spec_bytes()));
        }
        r
    }

    /// Adds the device `node` under `name` to the directory `dir`.  Under
    /// a name that the directory has, the device takes the place of the
    /// node of that name.
    pub fn add_at(&mut self, dir: NodeId, name: &str, node: Device)
        requires
            old(self).wf(),
            old(self)@.is_dir(dir),
            is_plain_name(name.spec_bytes()),
        ensures
            final(self).wf(),
            final(self)@ == old(self)@.put(dir, name.spec_bytes(), NodeView::Device(node@)),
    {
        let ghost node_view = node@;
        let _ = self.tree.put(dir, name, Node::Device(node));
        proof {
            lemma_device_tree_holds_no_file(
                old(self)@,
                DeviceChange::Add(dir, name.spec_bytes(), node_view),
            );
        }
    }

    /// The root directory.
    pub fn root_dir(&self) -> (r: NodeId)
        ensures
            r == self@.root,
    {
        self.tree.root()
    }

    /// The node `id` as a directory node, if it is a directory.
    pub fn dir_node(&self, id: NodeId) -> (r: Option<&DirNode>)
        requires
            self.wf(),
        ensures
            r is Some <==> self@.is_dir(id),
            r is Some ==> r->0@ == self@.dir(id) && r->0@.wf(),
    {
        match self.tree.dir_node(id) {
            Ok(d) => {
                assert(self@.dir_ok(id));
                Some(d)
            },
            Err(_) => None,
        }
    }

    /// Mounts the filesystem at a point of which `mount_point_has_parent`
    /// tells whether it has a parent directory.  The first mount decides
    /// whether the root has a parent outside the filesystem; a later one
    /// changes nothing.  The path plays no part.
    pub fn mount(&mut self, _path: &str, mount_point_has_parent: bool) -> (r: VfsResult<()>)
        requires
            old(self).wf(),
        ensures
            final(self).wf(),
            r == Ok::<(), VfsError>(()),
            final(self)@ == old(self)@.mount(mount_point_has_parent),
    {
        self.tree.mount(mount_point_has_parent);
        proof {
            lemma_device_tree_holds_no_file(
                old(self)@,
                DeviceChange::Mount(mount_point_has_parent),
            );
        }
        Ok(())
    }

    /// The attributes of the node `id`: a directory reports 4096 bytes, a
    /// device is a character device of size zero.
    pub fn get_attr(&self, id: NodeId) -> (r: VfsResult<VfsNodeAttr>)
        ensures
            match r {
                Ok(a) => self@.live(id) && a@ == self@.attr(id),
                Err(e) => !self@.live(id) && e == VfsError::NotFound,
            },
    {
        self.tree.get_attr(id)
    }

    /// The parent of the node `id`: that of a directory, none for a device
    /// and for a root without a parent outside.
    pub fn parent(&self, id: NodeId) -> (r: Option<NodeRef>)
        ensures
            r == self@.parent_of(id),
    {
        self.tree.parent(id)
    }

    /// Resolves `path` from the node `dir`.
    ///
    /// Fails with `NotFound` where a component names nothing or `..` has
    /// no parent to lead to, and with `NotADirectory` where the walk is to
    /// go on from a node that is no directory.
    pub fn lookup<'a>(&self, dir: NodeId, path: &'a str) -> (r: VfsResult<Found<'a>>)
        requires
            self.wf(),
        ensures
            found_view(r) == self@.lookup(dir, path.spec_bytes()),
    {
        self.tree.lookup(dir, path)
    }

    /// Refuses to create a node of any kind: the filesystem does not change.
    ///
    /// The path is walked up to its last component, so a component on the
    /// way that names nothing fails with `NotFound`.  Where the walk
    /// reaches the last component it fails with `PermissionDenied`, also
    /// for a last component that is empty, `.` or `..`.
    pub fn create<'a>(&self, dir: NodeId, path: &'a str, _ty: VfsNodeType) -> (r: VfsResult<
        Done<'a>,
    >)
        requires
            self.wf(),
        ensures
            done_view(r) == create_denied(self@, dir, path.spec_bytes()),
    {
        match self.tree.locate(dir, path) {
            Err(e) => Err(e),
            Ok(Place::Outside(rest)) => Ok(Done::Outside(rest)),
            Ok(Place::At(_, _)) => Err(VfsError::PermissionDenied),
        }
    }

    /// Refuses to remove a node: the filesystem does not change.
    ///
    /// The path is walked up to its last component, so a component on the
    /// way that names nothing fails with `NotFound`.  Where the walk
    /// reaches the last component it fails with `PermissionDenied`.
    pub fn remove<'a>(&self, dir: NodeId, path: &'a str) -> (r: VfsResult<Done<'a>>)
        requires
            self.wf(),
        ensures
            done_view(r) == remove_denied(self@, dir, path.spec_bytes()),
    {
        match self.tree.locate(dir, path) {
            Err(e) => Err(e),
            Ok(Place::Outside(rest)) => Ok(Done::Outside(rest)),
            Ok(Place::At(_, _)) => Err(VfsError::PermissionDenied),
        }
    }

    /// Fills `dirents` with the listing of the directory `dir` from
    /// position `start_idx` on and returns the number of records filled.
    ///
    /// Positions 0 and 1 are `.` and `..`; the entries follow in the order
    /// of their names.  Fewer records than `dirents` has room for mean
    /// that the listing has ended.
    pub fn read_dir(&self, dir: NodeId, start_idx: usize, dirents: &mut [VfsDirEntry]) -> (r:
        VfsResult<usize>)
        requires
            self.wf(),
        ensures
            final(dirents)@.len() == old(dirents)@.len(),
            match r {
                Err(e) => self@.check_dir(dir) == Err::<(), VfsError>(e) && final(dirents)@ == old(
                    dirents,
                )@,
                Ok(n) => {
                    &&& self@.is_dir(dir)
                    &&& n == self@.listed_count(dir, start_idx as int, old(dirents)@.len() as int)
                    &&& forall|i: int|
                        0 <= i < n ==> (#[trigger] final(dirents)@[i]).records(
                            self@.listed(dir, start_idx + i).name,
                            self@.listed(dir, start_idx + i).ty,
                        )
                    &&& forall|i: int|
                        n <= i < old(dirents)@.len() ==> final(dirents)@[i] == old(dirents)@[i]
                },
            },
    {
        self.tree.read_dir(dir, start_idx, dirents)
    }

    /// Reads from the device `id` into `buf` and returns the number of
    /// bytes read; the offset plays no part.  Fails with `InvalidInput` on
    /// a directory.
    pub fn read_at(&mut self, id: NodeId, offset: u64, buf: &mut [u8]) -> (r: VfsResult<usize>)
        requires
            old(self).wf(),
        ensures
            final(self).wf(),
            r == old(self)@.read_at(id, offset, old(buf)@),
            final(buf)@ == old(self)@.read_at_buf(id, offset, old(buf)@),
            final(self)@ == old(self)@.after_read(id, old(buf)@.len() as int),
    {
        let r = self.tree.read_at(id, offset, buf);
        proof {
            lemma_device_tree_holds_no_file(
                old(self)@,
                DeviceChange::Read(id, old(buf)@.len() as int),
            );
        }
        r
    }

    /// Discards `buf` and returns its length, for any offset.  Fails with
    /// `InvalidInput` on a directory.
    pub fn write_at(&self, id: NodeId, _offset: u64, buf: &[u8]) -> (r: VfsResult<usize>)
        ensures
            r == self@.write_at(id, buf@),
    {
        match self.tree.get(id) {
            None => Err(VfsError::NotFound),
            Some(Node::Dir(_)) => Err(VfsError::InvalidInput),
            Some(_) => Ok(buf.len()),
        }
    }

    /// Does nothing to the device `id`, for any size.  Fails with
    /// `InvalidInput` on a directory.
    pub fn truncate(&self, id: NodeId, _size: u64) -> (r: VfsResult<()>)
        ensures
            r == self@.file_op(id),
    {
        self.tree.fsync(id)
    }

    /// Flushes the device `id`: nothing to do.  Fails with `InvalidInput`
    /// on a directory.
    pub fn fsync(&self, id: NodeId) -> (r: VfsResult<()>)
        ensures
            r == self@.file_op(id),
    {
        self.tree.fsync(id)
    }
}

impl VfsOps for DeviceFileSystem {
    open spec fn mountable(&self) -> bool {
        self.wf()
    }

    fn mount(&mut self, path: &str, mount_point_has_parent: bool) -> (r: VfsResult<()>)
        ensures
            r == Ok::<(), VfsError>(()),
            final(self)@ == old(self)@.mount(mount_point_has_parent),
    {
        DeviceFileSystem::mount(self, path, mount_point_has_parent)
    }

    fn root_dir(&self) -> (r: NodeId)
        ensures
            r == self@.root,
    {
        DeviceFileSystem::root_dir(self)
    }
}

impl VfsNodeOps for DeviceFileSystem {
    open spec fn valid(&self) -> bool {
        self.wf()
    }

    fn get_attr(&self, node: NodeId) -> (r: VfsResult<VfsNodeAttr>)
        ensures
            match r {
                Ok(a) => self@.live(node) && a@ == self@.attr(node),
                Err(e) => !self@.live(node) && e == VfsError::NotFound,
            },
    {
        DeviceFileSystem::get_attr(self, node)
    }

    fn read_at(&mut self, node: NodeId, offset: u64, buf: &mut [u8]) -> (r: VfsResult<usize>)
        ensures
            r == old(self)@.read_at(node, offset, old(buf)@),
            final(buf)@ == old(self)@.read_at_buf(node, offset, old(buf)@),
            final(self)@ == old(self)@.after_read(node, old(buf)@.len() as int),
    {
        DeviceFileSystem::read_at(self, node, offset, buf)
    }

    fn write_at(&mut self, node: NodeId, offset: u64, buf: &[u8]) -> (r: VfsResult<usize>)
        ensures
            r == old(self)@.write_at(node, buf@),
            final(self)@ == old(self)@,
    {
        DeviceFileSystem::write_at(self, node, offset, buf)
    }

    fn fsync(&mut self, node: NodeId) -> (r: VfsResult<()>)
        ensures
            r == old(self)@.file_op(node),
            final(self)@ == old(self)@,
    {
        DeviceFileSystem::fsync(self, node)
    }

    fn truncate(&mut self, node: NodeId, size: u64) -> (r: VfsResult<()>)
        ensures
            r == old(self)@.file_op(node),
            final(self)@ == old(self)@,
    {
        DeviceFileSystem::truncate(self, node, size)
    }

    fn parent(&self, node: NodeId) -> (r: Option<NodeRef>)
        ensures
            r == self@.parent_of(node),
    {
        DeviceFileSystem::parent(self, node)
    }

    fn lookup<'a>(&self, node: NodeId, path: &'a str) -> (r: VfsResult<Found<'a>>)
        ensures
            found_view(r) == self@.lookup(node, path.spec_bytes()),
    {
        DeviceFileSystem::lookup(self, node, path)
    }

    fn create<'a>(&mut self, node: NodeId, path: &'a str, ty: VfsNodeType) -> (r: VfsResult<
        Done<'a>,
    >)
        ensures
            done_view(r) == create_denied(old(self)@, node, path.spec_bytes()),
            final(self)@ == old(self)@,
    {
        DeviceFileSystem::create(self, node, path, ty)
    }

    fn remove<'a>(&mut self, node: NodeId, path: &'a str) -> (r: VfsResult<Done<'a>>)
        ensures
            done_view(r) == remove_denied(old(self)@, node, path.spec_bytes()),
            final(self)@ == old(self)@,
    {
        DeviceFileSystem::remove(self, node, path)
    }

    fn read_dir(&self, node: NodeId, start_idx: usize, dirents: &mut [VfsDirEntry]) -> (r:
        VfsResult<usize>)
        ensures
            final(dirents)@.len() == old(dirents)@.len(),
            match r {
                Err(e) => self@.check_dir(node) == Err::<(), VfsError>(e) && final(dirents)@ == old(
                    dirents,
                )@,
                Ok(n) => {
                    &&& self@.is_dir(node)
                    &&& n == self@.listed_count(node, start_idx as int, old(dirents)@.len() as int)
                    &&& forall|i: int|
                        0 <= i < n ==> (#[trigger] final(dirents)@[i]).records(
                            self@.listed(node, start_idx + i).name,
                            self@.listed(node, start_idx + i).ty,
                        )
                    &&& forall|i: int|
                        n <= i < old(dirents)@.len() ==> final(dirents)@[i] == old(dirents)@[i]
                },
            },
    {
        DeviceFileSystem::read_dir(self, node, start_idx, dirents)
    }
}

impl Default for DeviceFileSystem {
    /// A filesystem of one empty root directory, not yet mounted.
    fn default() -> (r: Self)
        ensures
            r.wf(),
            r@ == Tree::new_view(),
    {
        Self::new()
    }
}

} // verus!
