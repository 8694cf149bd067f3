//! The in-memory filesystem: a tree of directories and files that callers
//! create, write and remove.

use vstd::prelude::*;
use vstd::string::StringSliceAdditionalSpecFns;
use crate::consistency::lemma_unlinked_wf;
use crate::dir::{DirNode, NodeId};
use crate::error::{VfsError, VfsResult};
use crate::ops::{VfsNodeOps, VfsOps};
use crate::structs::{VfsDirEntry, VfsNodeAttr, VfsNodeType};
use crate::model::{is_pseudo, DoneView, NodeRef, PlaceView, TreeView};
use crate::tree::{done_view, found_view, name_is_pseudo, Done, Found, Node, Place, Tree};

verus! {

/// How a creation at `path` from the node `dir` ends.
///
/// The walk stops before the last component.  An empty last component,
/// `.` and `..` stand for a directory that is there: nothing is created.
/// Any other is the name of the new node in the directory that the walk
/// reached.
pub open spec fn create_result(t: TreeView, dir: NodeId, path: Seq<u8>, ty: VfsNodeType) -> Result<
    DoneView,
    VfsError,
> {
    match t.place(dir, path) {
        Err(e) => Err(e),
        Ok(PlaceView::Outside(rest)) => Ok(DoneView::Outside(rest)),
        Ok(PlaceView::At(d, name)) => if is_pseudo(name) {
            Ok(DoneView::Here)
        } else {
            match t.create_node_check(d, name, ty) {
                Ok(_) => Ok(DoneView::Here),
                Err(e) => Err(e),
            }
        },
    }
}

/// The tree after a creation at `path` from the node `dir`.
pub open spec fn after_create(t: TreeView, dir: NodeId, path: Seq<u8>, ty: VfsNodeType) -> TreeView {
    match t.place(dir, path) {
        Ok(PlaceView::At(d, name)) => if is_pseudo(name) {
            t
        } else {
            t.create_node(d, name, ty)
        },
        _ => t,
    }
}

/// How a removal at `path` from the node `dir` ends.
///
/// The walk stops before the last component.  An empty last component,
/// `.` and `..` cannot be removed.  Any other is the name of the entry to
/// remove in the directory that the walk reached.
pub open spec fn remove_result(t: TreeView, dir: NodeId, path: Seq<u8>) -> Result<
    DoneView,
    VfsError,
> {
    match t.place(dir, path) {
        Err(e) => Err(e),
        Ok(PlaceView::Outside(rest)) => Ok(DoneView::Outside(rest)),
        Ok(PlaceView::At(d, name)) => if is_pseudo(name) {
            Err(VfsError::InvalidInput)
        } else {
            match t.remove_node_check(d, name) {
                Ok(_) => Ok(DoneView::Here),
                Err(e) => Err(e),
            }
        },
    }
}

/// The tree after a removal at `path` from the node `dir`.
pub open spec fn after_remove(t: TreeView, dir: NodeId, path: Seq<u8>) -> TreeView {
    match t.place(dir, path) {
        Ok(PlaceView::At(d, name)) => if is_pseudo(name) {
            t
        } else {
            t.remove_node(d, name)
        },
        _ => t,
    }
}

/// Whether the tree holds no device.
pub open spec fn no_devices(t: TreeView) -> bool {
    forall|id: NodeId| t.live(id) ==> !(#[trigger] t.node(id) is Device)
}

/// A change that the in-memory filesystem makes to its tree.
pub enum RamChange {
    /// A mount at a point that has a parent, or has none.
    Mount(bool),
    /// The creation of a node of a kind under a name in a directory.
    CreateNode(NodeId, Seq<u8>, VfsNodeType),
    /// The removal of a name from a directory.
    RemoveNode(NodeId, Seq<u8>),
    /// A write of data to a node at an offset.
    Write(NodeId, u64, Seq<u8>),
    /// The truncation of a node to a size.
    Truncate(NodeId, u64),
}

/// The tree after a change.
pub open spec fn ram_changed(t: TreeView, c: RamChange) -> TreeView {
    match c {
        RamChange::Mount(has_parent) => t.mount(has_parent),
        RamChange::CreateNode(d, name, ty) => t.create_node(d, name, ty),
        RamChange::RemoveNode(d, name) => t.remove_node(d, name),
        RamChange::Write(id, offset, data) => t.after_write(id, offset, data),
        RamChange::Truncate(id, size) => t.after_truncate(id, size),
    }
}

/// No change that the in-memory filesystem makes brings a device into a
/// consistent tree that holds none.
pub proof fn lemma_ram_holds_no_device(t: TreeView, c: RamChange)
    requires
        t.wf(),
        no_devices(t),
    ensures
        no_devices(ram_changed(t, c)),
{
    let t2 = ram_changed(t, c);
    assert forall|id: NodeId| t2.live(id) implies !(#[trigger] t2.node(id) is Device) by {
        match c {
            RamChange::CreateNode(d, name, ty) => {
                if id < t.nodes.len() {
                    assert(t.live(id) && !(t.node(id) is Device));
                }
            },
            RamChange::RemoveNode(d, name) => {
                if t.remove_node_check(d, name) is Ok {
                    let k = t.dir(d).index_of(name);
                    assert(t.dir_ok(d));
                    assert(t.entry_ok(d, k));
                    lemma_unlinked_wf(t, d, k);
                    if id != d {
                        assert(t2.node(id) == t.node(id));
                    }
                }
                assert(t.live(id) && !(t.node(id) is Device));
            },
            _ => {
                assert(t.live(id) && !(t.node(id) is Device));
            },
        }
    }
}

/// A filesystem held in memory.
pub struct RamFileSystem {
    tree: Tree,
}

impl View for RamFileSystem {
    type V = TreeView;

    /// The tree of the filesystem.
    closed spec fn view(&self) -> TreeView {
        self.tree@
    }
}

impl RamFileSystem {
    /// Whether the filesystem is consistent and holds directories and
    /// files only.
    pub open spec fn wf(&self) -> bool {
        self@.wf() && no_devices(self@)
    }

    /// A filesystem of one empty root directory, not yet mounted.
    pub fn new() -> (r: Self)
        ensures
            r.wf(),
            r@ == Tree::new_view(),
    {
        let r = Self { tree: Tree::new() };
        assert forall|id: NodeId| r@.live(id) implies !(#[trigger] r@.node(id) is Device) by {
            assert(id == 0);
        }
        r
    }

    /// The root directory.
    pub fn root_dir(&self) -> (r: NodeId)
        ensures
            r == self@.root,
    {
        self.tree.root()
    }

    /// The root directory, as a directory node.
    pub fn root_dir_node(&self) -> (r: &DirNode)
        requires
            self.wf(),
        ensures
            r@ == self@.dir(self@.root),
            r@.wf(),
    {
        let r = self.tree.dir_node(self.tree.root());
        assert(self@.dir_ok(self@.root));
        match r {
            Ok(d) => d,
            Err(_) => unreached(),
        }
    }

    /// The node `id` as a directory node, if it is a directory.
    pub fn dir_node(&self, id: NodeId) -> (r: Option<&DirNode>)
        requires
            self.wf(),
        ensures
            r is Some <==> self@.is_dir(id),
            r is Some ==> r->0@ == self@.dir(id) && r->0@.wf(),
    {
        match self.tree.dir_node(id) {
            Ok(d) => {
                assert(self@.dir_ok(id));
                Some(d)
            },
            Err(_) => None,
        }
    }

    /// Mounts the filesystem at a point of which `mount_point_has_parent`
    /// tells whether it has a parent directory.  The first mount decides
    /// whether the root has a parent outside the filesystem; a later one
    /// changes nothing.  The path plays no part.
    pub fn mount(&mut self, _path: &str, mount_point_has_parent: bool) -> (r: VfsResult<()>)
        requires
            old(self).wf(),
        ensures
            final(self).wf(),
            r == Ok::<(), VfsError>(()),
            final(self)@ == old(self)@.mount(mount_point_has_parent),
    {
        self.tree.mount(mount_point_has_parent);
        proof {
            lemma_ram_holds_no_device(old(self)@, RamChange::Mount(mount_point_has_parent));
        }
        Ok(())
    }

    /// The attributes of the node `id`: a directory reports 4096 bytes,
    /// a file the number of its bytes.
    pub fn get_attr(&self, id: NodeId) -> (r: VfsResult<VfsNodeAttr>)
        ensures
            match r {
                Ok(a) => self@.live(id) && a@ == self@.attr(id),
                Err(e) => !self@.live(id) && e == VfsError::NotFound,
            },
    {
        self.tree.get_attr(id)
    }

    /// The parent of the node `id`: that of a directory, none for a file
    /// and for a root without a parent outside.
    pub fn parent(&self, id: NodeId) -> (r: Option<NodeRef>)
        ensures
            r == self@.parent_of(id),
    {
        self.tree.parent(id)
    }

    /// Resolves `path` from the node `dir`.
    ///
    /// Fails with `NotFound` where a component names nothing or `..` has
    /// no parent to lead to, and with `NotADirectory` where the walk is to
    /// go on from a node that is no directory.
    pub fn lookup<'a>(&self, dir: NodeId, path: &'a str) -> (r: VfsResult<Found<'a>>)
        requires
            self.wf(),
        ensures
            found_view(r) == self@.lookup(dir, path.spec_bytes()),
    {
        self.tree.lookup(dir, path)
    }

    /// Creates an empty file or directory at `path` from the node `dir`.
    ///
    /// Directories on the way are not created: a component that names
    /// nothing fails with `NotFound`.  Fails with `AlreadyExists` if the
    /// last component names an entry, and with `Unsupported` for a kind
    /// other than file and directory.
    pub fn create<'a>(&mut self, dir: NodeId, path: &'a str, ty: VfsNodeType) -> (r: VfsResult<
        Done<'a>,
    >)
        requires
            old(self).wf(),
        ensures
            final(self).wf(),
            done_view(r) == create_result(old(self)@, dir, path.spec_bytes(), ty),
            final(self)@ == after_create(old(self)@, dir, path.spec_bytes(), ty),
    {
        match self.tree.locate(dir, path) {
            Err(e) => Err(e),
            Ok(Place::Outside(rest)) => Ok(Done::Outside(rest)),
            Ok(Place::At(d, name)) => {
                if name_is_pseudo(name.as_bytes()) {
                    Ok(Done::Here)
                } else {
                    match self.create_node(d, name, ty) {
                        Ok(_) => Ok(Done::Here),
                        Err(e) => Err(e),
                    }
                }
            },
        }
    }

    /// Removes the file or the empty directory at `path` from the node
    /// `dir`.
    ///
    /// Fails with `InvalidInput` if the last component is empty, `.` or
    /// `..`, with `NotFound` if a component names nothing, and with
    /// `DirectoryNotEmpty` for a directory that has entries.
    pub fn remove<'a>(&mut self, dir: NodeId, path: &'a str) -> (r: VfsResult<Done<'a>>)
        requires
            old(self).wf(),
        ensures
            final(self).wf(),
            done_view(r) == remove_result(old(self)@, dir, path.spec_bytes()),
            final(self)@ == after_remove(old(self)@, dir, path.spec_bytes()),
    {
        match self.tree.locate(dir, path) {
            Err(e) => Err(e),
            Ok(Place::Outside(rest)) => Ok(Done::Outside(rest)),
            Ok(Place::At(d, name)) => {
                if name_is_pseudo(name.as_bytes()) {
                    Err(VfsError::InvalidInput)
                } else {
                    match self.remove_node(d, name) {
                        Ok(_) => Ok(Done::Here),
                        Err(e) => Err(e),
                    }
                }
            },
        }
    }

    /// Creates an empty file or directory under `name` in the directory
    /// `dir`.
    ///
    /// Fails with `InvalidInput` if `name` cannot name an entry, with
    /// `AlreadyExists` if the directory has the name, and with
    /// `Unsupported` for a kind other than file and directory.
    pub fn create_node(&mut self, dir: NodeId, name: &str, ty: VfsNodeType) -> (r: VfsResult<()>)
        requires
            old(self).wf(),
        ensures
            final(self).wf(),
            r == old(self)@.create_node_check(dir, name.spec_bytes(), ty),
            final(self)@ == old(self)@.create_node(dir, name.spec_bytes(), ty),
    {
        let r = self.tree.create_node(dir, name, ty);
        proof {
            lemma_ram_holds_no_device(
                old(self)@,
                RamChange::CreateNode(dir, name.spec_bytes(), ty),
            );
        }
        r
    }

    /// Removes the entry `name` of the directory `dir` and the node that
    /// it names.
    ///
    /// Fails with `NotFound` if the directory has no such entry, and with
    /// `DirectoryNotEmpty` if the entry names a directory that has entries.
    pub fn remove_node(&mut self, dir: NodeId, name: &str) -> (r: VfsResult<()>)
        requires
            old(self).wf(),
        ensures
            final(self).wf(),
            r == old(self)@.remove_node_check(dir, name.spec_bytes()),
            final(self)@ == old(self)@.remove_node(dir, name.spec_bytes()),
    {
        let r = self.tree.remove_node(dir, name);
        proof {
            lemma_ram_holds_no_device(old(self)@, RamChange::RemoveNode(dir, name.spec_bytes()));
        }
        r
    }

    /// Fills `dirents` with the listing of the directory `dir` from
    /// position `start_idx` on and returns the number of records filled.
    ///
    /// Positions 0 and 1 are `.` and `..`; the entries follow in the order
    /// of their names.  Fewer records than `dirents` has room for mean
    /// that the listing has ended.
    pub fn read_dir(&self, dir: NodeId, start_idx: usize, dirents: &mut [VfsDirEntry]) -> (r:
        VfsResult<usize>)
        requires
            self.wf(),
        ensures
            final(dirents)@.len() == old(dirents)@.len(),
            match r {
                Err(e) => self@.check_dir(dir) == Err::<(), VfsError>(e) && final(dirents)@ == old(
                    dirents,
                )@,
                Ok(n) => {
                    &&& self@.is_dir(dir)
                    &&& n == self@.listed_count(dir, start_idx as int, old(dirents)@.len() as int)
                    &&& forall|i: int|
                        0 <= i < n ==> (#[trigger] final(dirents)@[i]).records(
                            self@.listed(dir, start_idx + i).name,
                            self@.listed(dir, start_idx + i).ty,
                        )
                    &&& forall|i: int|
                        n <= i < old(dirents)@.len() ==> final(dirents)@[i] == old(dirents)@[i]
                },
            },
    {
        self.tree.read_dir(dir, start_idx, dirents)
    }

    /// Reads from the file `id` at `offset` into the front of `buf` and
    /// returns the number of bytes read: as many as the file has from
    /// `offset` on and `buf` can take.  The rest of `buf` stays as it was.
    /// Fails with `InvalidInput` on a directory.
    pub fn read_at(&self, id: NodeId, offset: u64, buf: &mut [u8]) -> (r: VfsResult<usize>)
        requires
            self.wf(),
        ensures
            r == self@.read_at(id, offset, old(buf)@),
            final(buf)@ == self@.read_at_buf(id, offset, old(buf)@),
    {
        match self.tree.get(id) {
            None => Err(VfsError::NotFound),
            Some(Node::Dir(_)) => Err(VfsError::InvalidInput),
            Some(Node::File(f)) => f.read_at(offset, buf),
            Some(Node::Device(_)) => {
                assert(self@.node(id) is Device);
                unreached()
            },
        }
    }

    /// Writes `buf` to the file `id` at `offset` and returns its length.
    /// Fails with `InvalidInput` on a directory.
    pub fn write_at(&mut self, id: NodeId, offset: u64, buf: &[u8]) -> (r: VfsResult<usize>)
        requires
            old(self).wf(),
            old(self)@.is_file(id) ==> offset + buf@.len() <= usize::MAX,
        ensures
            final(self).wf(),
            r == old(self)@.write_at(id, buf@),
            final(self)@ == old(self)@.after_write(id, offset, buf@),
    {
        let r = self.tree.write_at(id, offset, buf);
        proof {
            lemma_ram_holds_no_device(old(self)@, RamChange::Write(id, offset, buf@));
        }
        r
    }

    /// Cuts the file `id` to `size` bytes, or grows it to `size` bytes
    /// with zeros.  Fails with `InvalidInput` on a directory.
    pub fn truncate(&mut self, id: NodeId, size: u64) -> (r: VfsResult<()>)
        requires
            old(self).wf(),
            old(self)@.is_file(id) ==> size <= usize::MAX,
        ensures
            final(self).wf(),
            r == old(self)@.file_op(id),
            final(self)@ == old(self)@.after_truncate(id, size),
    {
        let r = self.tree.truncate(id, size);
        proof {
            lemma_ram_holds_no_device(old(self)@, RamChange::Truncate(id, size));
        }
        r
    }

    /// Flushes the file `id`: nothing to do.  Fails with `InvalidInput` on
    /// a directory.
    pub fn fsync(&self, id: NodeId) -> (r: VfsResult<()>)
        ensures
            r == self@.file_op(id),
    {
        self.tree.fsync(id)
    }
}

impl VfsOps for RamFileSystem {
    open spec fn mountable(&self) -> bool {
        self.wf()
    }

    fn mount(&mut self, path: &str, mount_point_has_parent: bool) -> (r: VfsResult<()>)
        ensures
            r == Ok::<(), VfsError>(()),
            final(self)@ == old(self)@.mount(mount_point_has_parent),
    {
        RamFileSystem::mount(self, path, mount_point_has_parent)
    }

    fn root_dir(&self) -> (r: NodeId)
        ensures
            r == self@.root,
    {
        RamFileSystem::root_dir(self)
    }
}

impl VfsNodeOps for RamFileSystem {
    open spec fn valid(&self) -> bool {
        self.wf()
    }

    /// A file holds what the machine can address.
    open spec fn write_fits(&self, node: NodeId, offset: u64, len: nat) -> bool {
        self@.is_file(node) ==> offset + len <= usize::MAX
    }

    /// A file holds what the machine can address.
    open spec fn size_fits(&self, node: NodeId, size: u64) -> bool {
        self@.is_file(node) ==> size <= usize::MAX
    }

    fn get_attr(&self, node: NodeId) -> (r: VfsResult<VfsNodeAttr>)
        ensures
            match r {
                Ok(a) => self@.live(node) && a@ == self@.attr(node),
                Err(e) => !self@.live(node) && e == VfsError::NotFound,
            },
    {
        RamFileSystem::get_attr(self, node)
    }

    fn read_at(&mut self, node: NodeId, offset: u64, buf: &mut [u8]) -> (r: VfsResult<usize>)
        ensures
            r == old(self)@.read_at(node, offset, old(buf)@),
            final(buf)@ == old(self)@.read_at_buf(node, offset, old(buf)@),
            final(self)@ == old(self)@,
    {
        RamFileSystem::read_at(self, node, offset, buf)
    }

    fn write_at(&mut self, node: NodeId, offset: u64, buf: &[u8]) -> (r: VfsResult<usize>)
        ensures
            r == old(self)@.write_at(node, buf@),
            final(self)@ == old(self)@.after_write(node, offset, buf@),
    {
        RamFileSystem::write_at(self, node, offset, buf)
    }

    fn fsync(&mut self, node: NodeId) -> (r: VfsResult<()>)
        ensures
            r == old(self)@.file_op(node),
            final(self)@ == old(self)@,
    {
        RamFileSystem::fsync(self, node)
    }

    fn truncate(&mut self, node: NodeId, size: u64) -> (r: VfsResult<()>)
        ensures
            r == old(self)@.file_op(node),
            final(self)@ == old(self)@.after_truncate(node, size),
    {
        RamFileSystem::truncate(self, node, size)
    }

    fn parent(&self, node: NodeId) -> (r: Option<NodeRef>)
        ensures
            r == self@.parent_of(node),
    {
        RamFileSystem::parent(self, node)
    }

    fn lookup<'a>(&self, node: NodeId, path: &'a str) -> (r: VfsResult<Found<'a>>)
        ensures
            found_view(r) == self@.lookup(node, path.spec_bytes()),
    {
        RamFileSystem::lookup(self, node, path)
    }

    fn create<'a>(&mut self, node: NodeId, path: &'a str, ty: VfsNodeType) -> (r: VfsResult<
        Done<'a>,
    >)
        ensures
            done_view(r) == create_result(old(self)@, node, path.spec_bytes(), ty),
            final(self)@ == after_create(old(self)@, node, path.spec_bytes(), ty),
    {
        RamFileSystem::create(self, node, path, ty)
    }

    fn remove<'a>(&mut self, node: NodeId, path: &'a str) -> (r: VfsResult<Done<'a>>)
        ensures
            done_view(r) == remove_result(old(self)@, node, path.spec_bytes()),
            final(self)@ == after_remove(old(self)@, node, path.spec_bytes()),
    {
        RamFileSystem::remove(self, node, path)
    }

    fn read_dir(&self, node: NodeId, start_idx: usize, dirents: &mut [VfsDirEntry]) -> (r:
        VfsResult<usize>)
        ensures
            final(dirents)@.len() == old(dirents)@.len(),
            match r {
                Err(e) => self@.check_dir(node) == Err::<(), VfsError>(e) && final(dirents)@ == old(
                    dirents,
                )@,
                Ok(n) => {
                    &&& self@.is_dir(node)
                    &&& n == self@.listed_count(node, start_idx as int, old(dirents)@.len() as int)
                    &&& forall|i: int|
                        0 <= i < n ==> (#[trigger] final(dirents)@[i]).records(
                            self@.listed(node, start_idx + i).name,
                            self@.listed(node, start_idx + i).ty,
                        )
                    &&& forall|i: int|
                        n <= i < old(dirents)@.len() ==> final(dirents)@[i] == old(dirents)@[i]
                },
            },
    {
        RamFileSystem::read_dir(self, node, start_idx, dirents)
    }
}

impl Default for RamFileSystem {
    /// A filesystem of one empty root directory, not yet mounted.
    fn default() -> (r: Self)
        ensures
            r.wf(),
            r@ == Tree::new_view(),
    {
        Self::new()
    }
}

} // verus!
