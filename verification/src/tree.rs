//! The directory tree: nodes in an arena, path resolution, enumeration and
//! the linking and unlinking of entries.
//!
//! A directory owns its children through its entry table; a child directory
//! knows its parent by id.  Both filesystems of this crate are built on the
//! tree and differ in what they let a caller change.

use vstd::prelude::*;
use vstd::string::StringSliceAdditionalSpecFns;
use crate::consistency::{lemma_linked_wf, lemma_relinked_wf, lemma_unlinked_wf, lemma_with_node_wf};
use crate::device::Device;
use crate::dir::{DirNode, DirView, NodeId};
use crate::error::{VfsError, VfsResult};
use crate::file::{resized, written, FileNode};
use crate::model::{
    is_pseudo, DoneView, FoundView, NodeRef, NodeView, PlaceView, TreeView, DIR_SIZE,
};
use crate::path::{
    is_plain_name, lemma_split, name_is_dot, name_is_dotdot, name_is_plain, split_path,
};
use crate::structs::{VfsDirEntry, VfsNodeAttr, VfsNodeType};

verus! {

/// A node of a filesystem.
pub enum Node {
    /// A directory.
    Dir(DirNode),
    /// A file held in memory.
    File(FileNode),
    /// A device.
    Device(Device),
}

impl View for Node {
    type V = NodeView;

    open spec fn view(&self) -> NodeView {
        match self {
            Node::Dir(d) => NodeView::Dir(d@),
            Node::File(f) => NodeView::File(f@),
            Node::Device(d) => NodeView::Device(d@),
        }
    }
}

/// What a path resolves to.
#[derive(Debug, Clone, Copy)]
pub enum Found<'a> {
    /// A node of the filesystem.
    Node(NodeId),
    /// The walk left the filesystem through the parent of its root; what is
    /// left of the path, if anything, is to be resolved there.
    Outside(Option<&'a str>),
}

impl<'a> View for Found<'a> {
    type V = FoundView;

    open spec fn view(&self) -> FoundView {
        match self {
            Found::Node(n) => FoundView::Node(*n),
            Found::Outside(Some(rest)) => FoundView::Outside(Some(rest.spec_bytes())),
            Found::Outside(None) => FoundView::Outside(None),
        }
    }
}

impl<'a> Found<'a> {
    /// The node, if the path resolved to one of the filesystem.
    pub fn node(&self) -> (r: Option<NodeId>)
        ensures
            r == match self@ {
                FoundView::Node(n) => Some(n),
                FoundView::Outside(_) => None::<NodeId>,
            },
    {
        match self {
            Found::Node(n) => Some(*n),
            Found::Outside(_) => None,
        }
    }
}

/// The view of the result of a lookup.
pub open spec fn found_view(r: VfsResult<Found<'_>>) -> Result<FoundView, VfsError> {
    match r {
        Ok(f) => Ok(f@),
        Err(e) => Err(e),
    }
}

/// Where the last component of a path is to be acted on.
#[derive(Debug, Clone, Copy)]
pub enum Place<'a> {
    /// In this directory, under this last component.
    At(NodeId, &'a str),
    /// Outside the filesystem: the walk left through the parent of its
    /// root, and this much of the path is still to be walked there.
    Outside(&'a str),
}

impl<'a> View for Place<'a> {
    type V = PlaceView;

    open spec fn view(&self) -> PlaceView {
        match self {
            Place::At(d, name) => PlaceView::At(*d, name.spec_bytes()),
            Place::Outside(rest) => PlaceView::Outside(rest.spec_bytes()),
        }
    }
}

/// The view of the result of locating a path.
pub open spec fn place_view(r: VfsResult<Place<'_>>) -> Result<PlaceView, VfsError> {
    match r {
        Ok(p) => Ok(p@),
        Err(e) => Err(e),
    }
}

/// How an operation on a path ended.
#[derive(Debug, Clone, Copy)]
pub enum Done<'a> {
    /// It was carried out in this filesystem.
    Here,
    /// The path left the filesystem through the parent of its root; the
    /// operation is to be carried out there, on this much of the path.
    Outside(&'a str),
}

impl<'a> View for Done<'a> {
    type V = DoneView;

    open spec fn view(&self) -> DoneView {
        match self {
            Done::Here => DoneView::Here,
            Done::Outside(rest) => DoneView::Outside(rest.spec_bytes()),
        }
    }
}

/// The view of the result of an operation on a path.
pub open spec fn done_view(r: VfsResult<Done<'_>>) -> Result<DoneView, VfsError> {
    match r {
        Ok(d) => Ok(d@),
        Err(e) => Err(e),
    }
}

/// Whether `name` is an empty component, `.` or `..`.
pub fn name_is_pseudo(name: &[u8]) -> (r: bool)
    ensures
        r == is_pseudo(name@),
{
    name.len() == 0 || name_is_dot(name) || name_is_dotdot(name)
}

/// A directory tree.
pub struct Tree {
    slots: Vec<Option<Node>>,
    root: NodeId,
    mounted: bool,
    outside: bool,
}

impl View for Tree {
    type V = TreeView;

    closed spec fn view(&self) -> TreeView {
        TreeView {
            nodes: Seq::new(
                self.slots@.len(),
                |i: int|
                    match self.slots@[i] {
                        Some(n) => Some(n@),
                        None => None,
                    },
            ),
            root: self.root,
            mounted: self.mounted,
            outside: self.outside,
        }
    }
}

impl Tree {
    /// Whether the tree is consistent.
    pub open spec fn wf(&self) -> bool {
        self@.wf()
    }

    /// What a new tree holds: one empty directory, its root, not yet
    /// mounted.
    pub open spec fn new_view() -> TreeView {
        TreeView {
            nodes: seq![Some(NodeView::Dir(DirView { parent: None, entries: Seq::empty() }))],
            root: 0,
            mounted: false,
            outside: false,
        }
    }

    /// A tree of one empty directory, its root, not yet mounted.
    pub fn new() -> (r: Self)
        ensures
            r.wf(),
            r@ == Self::new_view(),
    {
        let mut slots: Vec<Option<Node>> = Vec::new();
        slots.push(Some(Node::Dir(DirNode::new(None))));
        let r = Tree { slots, root: 0, mounted: false, outside: false };
        assert(r@.nodes =~= seq![
            Some(NodeView::Dir(DirView { parent: None, entries: Seq::empty() })),
        ]);
        assert(r@.is_dir(0));
        assert forall|d: NodeId| #[trigger] r@.is_dir(d) implies r@.dir_ok(d) by {
            assert(d == 0);
        }
        r
    }

    /// The root directory.
    pub fn root(&self) -> (r: NodeId)
        ensures
            r == self@.root,
    {
        self.root
    }

    /// The node that `id` names.
    pub fn get(&self, id: NodeId) -> (r: Option<&Node>)
        ensures
            r is Some <==> self@.live(id),
            r is Some ==> r->0@ == self@.node(id),
    {
        if id >= self.slots.len() {
            return None;
        }
        match &self.slots[id] {
            Some(n) => Some(n),
            None => None,
        }
    }

    /// The directory that `id` names; the error with which a directory
    /// operation on `id` fails if it names none.
    pub fn dir_node(&self, id: NodeId) -> (r: VfsResult<&DirNode>)
        ensures
            r is Ok <==> self@.is_dir(id),
            r is Ok ==> r->Ok_0@ == self@.dir(id),
            r is Err ==> self@.check_dir(id) == Err::<(), VfsError>(r->Err_0),
    {
        match self.get(id) {
            None => Err(VfsError::NotFound),
            Some(Node::Dir(d)) => Ok(d),
            Some(_) => Err(VfsError::NotADirectory),
        }
    }

    /// The kind of the node `id`.
    pub fn kind(&self, id: NodeId) -> (r: Option<VfsNodeType>)
        ensures
            r is Some <==> self@.live(id),
            r is Some ==> r->0 == self@.kind(id),
    {
        match self.get(id) {
            None => None,
            Some(Node::Dir(_)) => Some(VfsNodeType::Dir),
            Some(Node::File(_)) => Some(VfsNodeType::File),
            Some(Node::Device(_)) => Some(VfsNodeType::CharDevice),
        }
    }

    /// The attributes of the node `id`.
    pub fn get_attr(&self, id: NodeId) -> (r: VfsResult<VfsNodeAttr>)
        ensures
            match r {
                Ok(a) => self@.live(id) && a@ == self@.attr(id),
                Err(e) => !self@.live(id) && e == VfsError::NotFound,
            },
    {
        match self.get(id) {
            None => Err(VfsError::NotFound),
            Some(Node::Dir(_)) => Ok(VfsNodeAttr::new_dir(DIR_SIZE, 0)),
            Some(Node::File(f)) => f.get_attr(),
            Some(Node::Device(d)) => d.get_attr(),
        }
    }

    /// The parent of the node `id`.
    pub fn parent(&self, id: NodeId) -> (r: Option<NodeRef>)
        ensures
            r == self@.parent_of(id),
    {
        match self.get(id) {
            Some(Node::Dir(d)) => match d.parent() {
                Some(p) => Some(NodeRef::Inside(p)),
                None => if id == self.root && self.outside {
                    Some(NodeRef::Outside)
                } else {
                    None
                },
            },
            _ => None,
        }
    }

    /// Where one component leads from the directory `d`.
    fn step(&self, d: NodeId, dir: &DirNode, head: &[u8]) -> (r: Result<NodeRef, VfsError>)
        requires
            self.wf(),
            self@.is_dir(d),
            dir@ == self@.dir(d),
        ensures
            r == self@.step(d, head@),
    {
        assert(self@.dir_ok(d));
        if head.len() == 0 || name_is_dot(head) {
            Ok(NodeRef::Inside(d))
        } else if name_is_dotdot(head) {
            match self.parent(d) {
                Some(p) => Ok(p),
                None => Err(VfsError::NotFound),
            }
        } else {
            match dir.child(head) {
                Some(c) => Ok(NodeRef::Inside(c)),
                None => Err(VfsError::NotFound),
            }
        }
    }

    /// Resolves `path` from the node `dir`.
    pub fn lookup<'a>(&self, dir: NodeId, path: &'a str) -> (r: VfsResult<Found<'a>>)
        requires
            self.wf(),
        ensures
            found_view(r) == self@.lookup(dir, path.spec_bytes()),
    {
        let mut cur = dir;
        let mut p: &'a str = path;
        loop
            invariant
                self.wf(),
                self@.lookup(cur, p.spec_bytes()) == self@.lookup(dir, path.spec_bytes()),
            decreases p.spec_bytes().len(),
        {
            let d = match self.dir_node(cur) {
                Ok(d) => d,
                Err(e) => {
                    return Err(e);
                },
            };
            let (head, rest) = split_path(p);
            proof {
                lemma_split(p.spec_bytes());
            }
            match self.step(cur, d, head.as_bytes()) {
                Err(e) => {
                    return Err(e);
                },
                Ok(NodeRef::Outside) => {
                    return Ok(Found::Outside(rest));
                },
                Ok(NodeRef::Inside(n)) => match rest {
                    None => {
                        return Ok(Found::Node(n));
                    },
                    Some(r) => {
                        cur = n;
                        p = r;
                    },
                },
            }
        }
    }

    /// Fills `dirents` with the listing of the directory `dir` from
    /// position `start_idx` on, as far as the listing and the buffer go,
    /// and returns the number of records filled.
    pub fn read_dir(&self, dir: NodeId, start_idx: usize, dirents: &mut [VfsDirEntry]) -> (r:
        VfsResult<usize>)
        requires
            self.wf(),
        ensures
            final(dirents)@.len() == old(dirents)@.len(),
            match r {
                Err(e) => self@.check_dir(dir) == Err::<(), VfsError>(e) && final(dirents)@ == old(
                    dirents,
                )@,
                Ok(n) => {
                    &&& self@.is_dir(dir)
                    &&& n == self@.listed_count(dir, start_idx as int, old(dirents)@.len() as int)
                    &&& forall|i: int|
                        0 <= i < n ==> (#[trigger] final(dirents)@[i]).records(
                            self@.listed(dir, start_idx + i).name,
                            self@.listed(dir, start_idx + i).ty,
                        )
                    &&& forall|i: int|
                        n <= i < old(dirents)@.len() ==> final(dirents)@[i] == old(dirents)@[i]
                },
            },
    {
        let d = match self.dir_node(dir) {
            Ok(d) => d,
            Err(e) => {
                return Err(e);
            },
        };
        assert(self@.dir_ok(dir));
        let total = d.len();
        let room = dirents.len();
        let synth: usize = if start_idx < 2 {
            2 - start_idx
        } else {
            0
        };
        let skip: usize = if start_idx >= 2 {
            start_idx - 2
        } else {
            0
        };
        let left: usize = if skip >= total {
            0
        } else {
            total - skip
        };
        let count: usize = if room <= synth {
            room
        } else if room - synth < left {
            room
        } else {
            synth + left
        };
        assert(count == self@.listed_count(dir, start_idx as int, room as int));
        let mut i: usize = 0;
        while i < count
            invariant
                self.wf(),
                self@.is_dir(dir),
                d@ == self@.dir(dir),
                total == d@.entries.len(),
                room == dirents@.len(),
                room == old(dirents)@.len(),
                i <= count <= room,
                start_idx < 2 ==> synth == 2 - start_idx && skip == 0,
                start_idx >= 2 ==> synth == 0 && skip == start_idx - 2,
                count <= synth + left,
                left + skip <= total || left == 0,
                forall|k: int|
                    0 <= k < i ==> (#[trigger] dirents@[k]).records(
                        self@.listed(dir, start_idx + k).name,
                        self@.listed(dir, start_idx + k).ty,
                    ),
                forall|k: int| i <= k < room ==> dirents@[k] == old(dirents)@[k],
            decreases count - i,
        {
            let ent = if i < synth {
                if start_idx + i == 0 {
                    proof {
                        reveal_strlit(".");
                        vstd::utf8::is_ascii_chars_encode_utf8("."@);
                        assert(".".spec_bytes() =~= seq![0x2eu8]);
                    }
                    VfsDirEntry::new(".", VfsNodeType::Dir)
                } else {
                    proof {
                        reveal_strlit("..");
                        vstd::utf8::is_ascii_chars_encode_utf8(".."@);
                        assert("..".spec_bytes() =~= seq![0x2eu8, 0x2eu8]);
                    }
                    VfsDirEntry::new("..", VfsNodeType::Dir)
                }
            } else {
                let k = skip + (i - synth);
                assert(k == start_idx + i - 2);
                assert(self@.entry_ok(dir, k as int));
                let ty = match self.kind(d.entry_node(k)) {
                    Some(ty) => ty,
                    None => VfsNodeType::File,
                };
                VfsDirEntry::new(d.entry_name(k), ty)
            };
            dirents[i] = ent;
            i += 1;
        }
        Ok(i)
    }

    /// Walks `path` from the node `dir` up to its last component.
    pub fn locate<'a>(&self, dir: NodeId, path: &'a str) -> (r: VfsResult<Place<'a>>)
        requires
            self.wf(),
        ensures
            place_view(r) == self@.place(dir, path.spec_bytes()),
    {
        let mut cur = dir;
        let mut p: &'a str = path;
        loop
            invariant
                self.wf(),
                self@.place(cur, p.spec_bytes()) == self@.place(dir, path.spec_bytes()),
            decreases p.spec_bytes().len(),
        {
            let d = match self.dir_node(cur) {
                Ok(d) => d,
                Err(e) => {
                    return Err(e);
                },
            };
            let (head, rest) = split_path(p);
            proof {
                lemma_split(p.spec_bytes());
            }
            match rest {
                None => {
                    return Ok(Place::At(cur, head));
                },
                Some(r) => match self.step(cur, d, head.as_bytes()) {
                    Err(e) => {
                        return Err(e);
                    },
                    Ok(NodeRef::Outside) => {
                        return Ok(Place::Outside(r));
                    },
                    Ok(NodeRef::Inside(n)) => {
                        cur = n;
                        p = r;
                    },
                },
            }
        }
    }

    /// Links `node` into the directory `dir` under the new name `name` and
    /// returns its id.
    pub(crate) fn link(&mut self, dir: NodeId, name: &str, node: Node) -> (id: NodeId)
        requires
            old(self).wf(),
            old(self)@.is_dir(dir),
            is_plain_name(name.spec_bytes()),
            !old(self)@.dir(dir).has(name.spec_bytes()),
            TreeView::fits(dir, node@),
        ensures
            final(self).wf(),
            final(self)@ == old(self)@.linked(dir, name.spec_bytes(), node@),
            id == old(self)@.nodes.len(),
    {
        let id = self.slots.len();
        assert(old(self)@.dir_ok(dir));
        match &mut self.slots[dir] {
            Some(Node::Dir(d)) => {
                d.insert(name, id);
            },
            _ => {},
        }
        self.slots.push(Some(node));
        let after = self.slots.len();
        proof {
            assert(self@.nodes =~= old(self)@.linked(dir, name.spec_bytes(), node@).nodes);
            lemma_linked_wf(old(self)@, dir, name.spec_bytes(), node@);
        }
        id
    }

    /// Creates an empty file or directory under `name` in the directory
    /// `dir`.
    ///
    /// Fails with `InvalidInput` if `name` cannot name an entry, with
    /// `AlreadyExists` if the directory has the name, and with
    /// `Unsupported` for any other kind of node.
    pub fn create_node(&mut self, dir: NodeId, name: &str, ty: VfsNodeType) -> (r: VfsResult<()>)
        requires
            old(self).wf(),
        ensures
            final(self).wf(),
            r == old(self)@.create_node_check(dir, name.spec_bytes(), ty),
            final(self)@ == old(self)@.create_node(dir, name.spec_bytes(), ty),
    {
        let d = match self.dir_node(dir) {
            Ok(d) => d,
            Err(e) => {
                return Err(e);
            },
        };
        assert(self@.dir_ok(dir));
        if !name_is_plain(name.as_bytes()) {
            return Err(VfsError::InvalidInput);
        }
        if d.exist(name) {
            return Err(VfsError::AlreadyExists);
        }
        let node = match ty {
            VfsNodeType::File => Node::File(FileNode::new()),
            VfsNodeType::Dir => Node::Dir(DirNode::new(Some(dir))),
            _ => {
                return Err(VfsError::Unsupported);
            },
        };
        assert(node@ == TreeView::fresh(dir, ty));
        let _ = self.link(dir, name, node);
        Ok(())
    }

    /// Removes the entry `name` of the directory `dir` and the node that
    /// it names.
    ///
    /// Fails with `NotFound` if the directory has no such entry, and with
    /// `DirectoryNotEmpty` if the entry names a directory that has entries.
    pub fn remove_node(&mut self, dir: NodeId, name: &str) -> (r: VfsResult<()>)
        requires
            old(self).wf(),
        ensures
            final(self).wf(),
            r == old(self)@.remove_node_check(dir, name.spec_bytes()),
            final(self)@ == old(self)@.remove_node(dir, name.spec_bytes()),
    {
        let d = match self.dir_node(dir) {
            Ok(d) => d,
            Err(e) => {
                return Err(e);
            },
        };
        assert(self@.dir_ok(dir));
        let k = match d.find(name.as_bytes()) {
            Some(k) => k,
            None => {
                return Err(VfsError::NotFound);
            },
        };
        let c = d.entry_node(k);
        assert(self@.entry_ok(dir, k as int));
        match self.dir_node(c) {
            Ok(cd) => {
                if cd.len() > 0 {
                    return Err(VfsError::DirectoryNotEmpty);
                }
            },
            Err(_) => {},
        }
        proof {
            lemma_unlinked_wf(self@, dir, k as int);
        }
        match &mut self.slots[dir] {
            Some(Node::Dir(d)) => {
                d.remove_at(k);
            },
            _ => {},
        }
        self.slots[c] = None;
        assert(self@.nodes =~= old(self)@.unlinked(dir, k as int).nodes);
        Ok(())
    }

    /// Puts `node` into the directory `dir` under `name` and returns its
    /// id.  Under a name that the directory has, the node takes the place
    /// of the one that had the name.
    pub(crate) fn put(&mut self, dir: NodeId, name: &str, node: Node) -> (id: NodeId)
        requires
            old(self).wf(),
            old(self)@.is_dir(dir),
            is_plain_name(name.spec_bytes()),
            TreeView::fits(dir, node@),
        ensures
            final(self).wf(),
            final(self)@ == old(self)@.put(dir, name.spec_bytes(), node@),
            id == old(self)@.nodes.len(),
    {
        assert(self@.dir_ok(dir));
        let found = match self.dir_node(dir) {
            Ok(d) => match d.find(name.as_bytes()) {
                Some(k) => Some((k, d.entry_node(k))),
                None => None,
            },
            Err(_) => None,
        };
        match found {
            None => self.link(dir, name, node),
            Some((k, c)) => {
                let id = self.slots.len();
                assert(self@.entry_ok(dir, k as int));
                match &mut self.slots[dir] {
                    Some(Node::Dir(d)) => {
                        d.set_node(k, id);
                    },
                    _ => {},
                }
                match &mut self.slots[c] {
                    Some(Node::Dir(cd)) => {
                        cd.set_parent(None);
                    },
                    _ => {},
                }
                self.slots.push(Some(node));
                let after = self.slots.len();
                proof {
                    let t = old(self)@;
                    assert(t.is_dir(c) ==> c != dir) by {
                        if t.is_dir(c) {
                            assert(t.dir_ok(c));
                        }
                    }
                    assert(self@.nodes =~= t.relinked(dir, k as int, node@).nodes);
                    lemma_relinked_wf(t, dir, k as int, node@);
                }
                id
            },
        }
    }

    /// Reads from the node `id` at `offset` into `buf` and returns the
    /// number of bytes read.  Fails with `InvalidInput` on a directory.
    pub fn read_at(&mut self, id: NodeId, offset: u64, buf: &mut [u8]) -> (r: VfsResult<usize>)
        requires
            old(self).wf(),
        ensures
            final(self).wf(),
            r == old(self)@.read_at(id, offset, old(buf)@),
            final(buf)@ == old(self)@.read_at_buf(id, offset, old(buf)@),
            final(self)@ == old(self)@.after_read(id, old(buf)@.len() as int),
    {
        if id >= self.slots.len() {
            return Err(VfsError::NotFound);
        }
        let r = match &mut self.slots[id] {
            None => Err(VfsError::NotFound),
            Some(Node::Dir(_)) => Err(VfsError::InvalidInput),
            Some(Node::File(f)) => f.read_at(offset, buf),
            Some(Node::Device(d)) => d.read_at(offset, buf),
        };
        proof {
            let t = old(self)@;
            assert(self@.nodes =~= t.after_read(id, old(buf)@.len() as int).nodes);
            if t.live(id) && t.node(id) is Device {
                lemma_with_node_wf(
                    t,
                    id,
                    NodeView::Device(t.node(id)->Device_0.after_read(old(buf)@.len() as int)),
                );
            }
        }
        r
    }

    /// Writes `buf` to the node `id` at `offset` and returns the number of
    /// bytes written.  Fails with `InvalidInput` on a directory.
    pub fn write_at(&mut self, id: NodeId, offset: u64, buf: &[u8]) -> (r: VfsResult<usize>)
        requires
            old(self).wf(),
            old(self)@.is_file(id) ==> offset + buf@.len() <= usize::MAX,
        ensures
            final(self).wf(),
            r == old(self)@.write_at(id, buf@),
            final(self)@ == old(self)@.after_write(id, offset, buf@),
    {
        if id >= self.slots.len() {
            return Err(VfsError::NotFound);
        }
        let r = match &mut self.slots[id] {
            None => Err(VfsError::NotFound),
            Some(Node::Dir(_)) => Err(VfsError::InvalidInput),
            Some(Node::File(f)) => f.write_at(offset, buf),
            Some(Node::Device(d)) => d.write_at(offset, buf),
        };
        proof {
            let t = old(self)@;
            assert(self@.nodes =~= t.after_write(id, offset, buf@).nodes);
            if t.is_file(id) {
                lemma_with_node_wf(
                    t,
                    id,
                    NodeView::File(written(t.node(id)->File_0, offset as int, buf@)),
                );
            }
        }
        r
    }

    /// Cuts or grows the node `id` to `size` bytes.  Fails with
    /// `InvalidInput` on a directory; a device stays as it is.
    pub fn truncate(&mut self, id: NodeId, size: u64) -> (r: VfsResult<()>)
        requires
            old(self).wf(),
            old(self)@.is_file(id) ==> size <= usize::MAX,
        ensures
            final(self).wf(),
            r == old(self)@.file_op(id),
            final(self)@ == old(self)@.after_truncate(id, size),
    {
        if id >= self.slots.len() {
            return Err(VfsError::NotFound);
        }
        let r = match &mut self.slots[id] {
            None => Err(VfsError::NotFound),
            Some(Node::Dir(_)) => Err(VfsError::InvalidInput),
            Some(Node::File(f)) => f.truncate(size),
            Some(Node::Device(d)) => d.truncate(size),
        };
        proof {
            let t = old(self)@;
            assert(self@.nodes =~= t.after_truncate(id, size).nodes);
            if t.is_file(id) {
                lemma_with_node_wf(t, id, NodeView::File(resized(t.node(id)->File_0, size as int)));
            }
        }
        r
    }

    /// Flushes the node `id`: nothing to do for a file or a device.  Fails
    /// with `InvalidInput` on a directory.
    pub fn fsync(&self, id: NodeId) -> (r: VfsResult<()>)
        ensures
            r == self@.file_op(id),
    {
        match self.get(id) {
            None => Err(VfsError::NotFound),
            Some(Node::Dir(_)) => Err(VfsError::InvalidInput),
            Some(_) => Ok(()),
        }
    }

    /// Mounts the tree at a point of which `has_parent` tells whether it
    /// has a parent directory.  The first mount decides whether the root
    /// has a parent outside; a later one changes nothing.
    pub fn mount(&mut self, has_parent: bool)
        requires
            old(self).wf(),
        ensures
            final(self).wf(),
            final(self)@ == old(self)@.mount(has_parent),
    {
        if !self.mounted {
            self.mounted = true;
            self.outside = has_parent;
            proof {
                let t = old(self)@;
                let t2 = self@;
                assert(t2.nodes == t.nodes);
                assert forall|x: NodeId| #[trigger] t2.is_dir(x) implies t2.dir_ok(x) by {
                    assert(t.is_dir(x));
                    assert(t.dir_ok(x));
                    assert forall|i: int|
                        0 <= i < t2.dir(x).entries.len() implies #[trigger] t2.entry_ok(x, i) by {
                        assert(t.entry_ok(x, i));
                    }
                }
                assert(t2.single_owner()) by {
                    assert forall|d1: NodeId, i1: int, d2: NodeId, i2: int|
                        #![trigger t2.entry(d1, i1), t2.entry(d2, i2)]
                        t2.is_dir(d1) && t2.is_dir(d2) && 0 <= i1 < t2.dir(d1).entries.len() && 0
                            <= i2 < t2.dir(d2).entries.len() && t2.entry(d1, i1).node == t2.entry(
                            d2,
                            i2,
                        ).node implies d1 == d2 && i1 == i2 by {
                        assert(t.entry(d1, i1).node == t.entry(d2, i2).node);
                    }
                }
            }
        }
    }
}

} // verus!
