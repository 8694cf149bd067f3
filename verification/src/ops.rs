//! The operations that every filesystem and every node offers, each with
//! what it does where a filesystem or a kind of node has nothing of its own
//! to do.
//!
//! A node is named by its id in its filesystem, so the operations of nodes
//! are operations of the filesystem that take the id.

use vstd::prelude::*;
use crate::dir::NodeId;
use crate::error::{VfsError, VfsResult};
use crate::model::NodeRef;
use crate::structs::{FileSystemInfo, VfsDirEntry, VfsNodeAttr, VfsNodeType};
use crate::tree::{Done, Found};

verus! {

/// The operations of a filesystem.
pub trait VfsOps: Sized {
    /// Whether the filesystem is in a state in which its operations can be
    /// called: in any state, unless a filesystem asks for more.
    open spec fn mountable(&self) -> bool {
        true
    }

    /// Does what is to be done when the filesystem is mounted at `path`, at
    /// a point of which `mount_point_has_parent` tells whether it has a
    /// parent directory.  Unless a filesystem has something to do, this
    /// does nothing and succeeds.
    fn mount(&mut self, path: &str, mount_point_has_parent: bool) -> (r: VfsResult<()>)
        requires
            old(self).mountable(),
        ensures
            final(self).mountable(),
        default_ensures
            r == Ok::<(), VfsError>(()),
            *final(self) == *old(self),
    {
        Ok(())
    }

    /// Does what is to be done when the filesystem is unmounted.  Unless a
    /// filesystem has something to do, this does nothing and succeeds.
    fn umount(&mut self) -> (r: VfsResult<()>)
        requires
            old(self).mountable(),
        ensures
            final(self).mountable(),
        default_ensures
            r == Ok::<(), VfsError>(()),
            *final(self) == *old(self),
    {
        Ok(())
    }

    /// Formats the filesystem.  Unless a filesystem can be formatted, this
    /// fails with `Unsupported`.
    fn format(&mut self) -> (r: VfsResult<()>)
        requires
            old(self).mountable(),
        ensures
            final(self).mountable(),
        default_ensures
            r == Err::<(), VfsError>(VfsError::Unsupported),
            *final(self) == *old(self),
    {
        Err(VfsError::Unsupported)
    }

    /// The attributes of the filesystem.  Unless a filesystem reports any,
    /// this fails with `Unsupported`.
    fn statfs(&self) -> (r: VfsResult<FileSystemInfo>)
        requires
            self.mountable(),
        default_ensures
            r is Err,
            r->Err_0 == VfsError::Unsupported,
    {
        Err(VfsError::Unsupported)
    }

    /// The root directory of the filesystem.
    fn root_dir(&self) -> (r: NodeId)
        requires
            self.mountable(),
    ;
}

/// The operations of the nodes of a filesystem.
///
/// Each operation has a meaning for files or for directories.  What an
/// operation does unless the filesystem gives it a meaning is stated with
/// it: an operation of files fails with `InvalidInput`, an operation of
/// directories with `Unsupported`.
pub trait VfsNodeOps: Sized {
    /// Whether the filesystem is in a state in which the operations of its
    /// nodes can be called: in any state, unless a filesystem asks for more.
    open spec fn valid(&self) -> bool {
        true
    }

    /// Whether a write of `len` bytes at `offset` to the node is within
    /// what the filesystem can hold: any write, unless a filesystem asks
    /// for more.
    open spec fn write_fits(&self, node: NodeId, offset: u64, len: nat) -> bool {
        true
    }

    /// Whether the node can be cut or grown to `size` bytes within what
    /// the filesystem can hold: to any size, unless a filesystem asks for
    /// more.
    open spec fn size_fits(&self, node: NodeId, size: u64) -> bool {
        true
    }

    /// Does what is to be done when the node is opened: nothing, unless a
    /// filesystem has something to do.
    fn open(&mut self, node: NodeId) -> (r: VfsResult<()>)
        requires
            old(self).valid(),
        ensures
            final(self).valid(),
        default_ensures
            r == Ok::<(), VfsError>(()),
            *final(self) == *old(self),
    {
        Ok(())
    }

    /// Does what is to be done when the node is closed: nothing, unless a
    /// filesystem has something to do.
    fn release(&mut self, node: NodeId) -> (r: VfsResult<()>)
        requires
            old(self).valid(),
        ensures
            final(self).valid(),
        default_ensures
            r == Ok::<(), VfsError>(()),
            *final(self) == *old(self),
    {
        Ok(())
    }

    /// The attributes of the node.  Fails with `Unsupported` unless the
    /// filesystem reports attributes.
    fn get_attr(&self, node: NodeId) -> (r: VfsResult<VfsNodeAttr>)
        requires
            self.valid(),
        default_ensures
            r is Err,
            r->Err_0 == VfsError::Unsupported,
    {
        Err(VfsError::Unsupported)
    }

    /// Reads from the file at `offset` into `buf` and returns the number
    /// of bytes read, which is at most the length of `buf`.
    fn read_at(&mut self, node: NodeId, offset: u64, buf: &mut [u8]) -> (r: VfsResult<usize>)
        requires
            old(self).valid(),
        ensures
            final(self).valid(),
            final(buf)@.len() == old(buf)@.len(),
            r is Ok ==> r->Ok_0 <= old(buf)@.len(),
        default_ensures
            r == Err::<usize, VfsError>(VfsError::InvalidInput),
            final(buf)@ == old(buf)@,
            *final(self) == *old(self),
    {
        Err(VfsError::InvalidInput)
    }

    /// Writes `buf` to the file at `offset` and returns the number of bytes
    /// written.
    fn write_at(&mut self, node: NodeId, offset: u64, buf: &[u8]) -> (r: VfsResult<usize>)
        requires
            old(self).valid(),
            old(self).write_fits(node, offset, buf@.len()),
        ensures
            final(self).valid(),
        default_ensures
            r == Err::<usize, VfsError>(VfsError::InvalidInput),
            *final(self) == *old(self),
    {
        Err(VfsError::InvalidInput)
    }

    /// Flushes the file: nothing to do, unless a filesystem has something
    /// to do.
    fn fsync(&mut self, node: NodeId) -> (r: VfsResult<()>)
        requires
            old(self).valid(),
        ensures
            final(self).valid(),
        default_ensures
            r == Ok::<(), VfsError>(()),
            *final(self) == *old(self),
    {
        Ok(())
    }

    /// Cuts or grows the file to `size` bytes.
    fn truncate(&mut self, node: NodeId, size: u64) -> (r: VfsResult<()>)
        requires
            old(self).valid(),
            old(self).size_fits(node, size),
        ensures
            final(self).valid(),
        default_ensures
            r == Err::<(), VfsError>(VfsError::InvalidInput),
            *final(self) == *old(self),
    {
        Err(VfsError::InvalidInput)
    }

    /// The parent of the directory: none, unless the filesystem knows one.
    fn parent(&self, node: NodeId) -> (r: Option<NodeRef>)
        requires
            self.valid(),
        default_ensures
            r is None,
    {
        None
    }

    /// Resolves `path` from the directory.
    fn lookup<'a>(&self, node: NodeId, path: &'a str) -> (r: VfsResult<Found<'a>>)
        requires
            self.valid(),
        default_ensures
            r is Err,
            r->Err_0 == VfsError::Unsupported,
    {
        Err(VfsError::Unsupported)
    }

    /// Creates a node of kind `ty` at `path` from the directory.
    fn create<'a>(&mut self, node: NodeId, path: &'a str, ty: VfsNodeType) -> (r: VfsResult<
        Done<'a>,
    >)
        requires
            old(self).valid(),
        ensures
            final(self).valid(),
        default_ensures
            r is Err,
            r->Err_0 == VfsError::Unsupported,
            *final(self) == *old(self),
    {
        Err(VfsError::Unsupported)
    }

    /// Removes the node at `path` from the directory.
    fn remove<'a>(&mut self, node: NodeId, path: &'a str) -> (r: VfsResult<Done<'a>>)
        requires
            old(self).valid(),
        ensures
            final(self).valid(),
        default_ensures
            r is Err,
            r->Err_0 == VfsError::Unsupported,
            *final(self) == *old(self),
    {
        Err(VfsError::Unsupported)
    }

    /// Fills `dirents` with entries of the directory from position
    /// `start_idx` on and returns the number of records filled, which is at
    /// most the length of `dirents`.
    fn read_dir(&self, node: NodeId, start_idx: usize, dirents: &mut [VfsDirEntry]) -> (r:
        VfsResult<usize>)
        requires
            self.valid(),
        ensures
            final(dirents)@.len() == old(dirents)@.len(),
            r is Ok ==> r->Ok_0 <= old(dirents)@.len(),
        default_ensures
            r == Err::<usize, VfsError>(VfsError::Unsupported),
            final(dirents)@ == old(dirents)@,
    {
        Err(VfsError::Unsupported)
    }

    /// Renames the entry at `src_path` to `dst_path`.
    fn rename(&mut self, node: NodeId, src_path: &str, dst_path: &str) -> (r: VfsResult<()>)
        requires
            old(self).valid(),
        ensures
            final(self).valid(),
        default_ensures
            r == Err::<(), VfsError>(VfsError::Unsupported),
            *final(self) == *old(self),
    {
        Err(VfsError::Unsupported)
    }
}

} // verus!
