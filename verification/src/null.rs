//! The null device: reads find nothing, writes are discarded.

use vstd::prelude::*;
use crate::error::{VfsError, VfsResult};
use crate::structs::{AttrView, VfsNodeAttr, VfsNodePerm, VfsNodeType};

verus! {

/// The attributes of every device node: a character device of size zero.
pub open spec fn device_attr() -> AttrView {
    AttrView { perm: 0o666, ty: VfsNodeType::CharDevice, size: 0, blocks: 0 }
}

/// A device that behaves like `/dev/null`.
#[derive(Debug, Clone, Copy, PartialEq, Eq, Structural)]
pub struct NullDev;

impl NullDev {
    /// The attributes of the device.
    pub fn get_attr(&self) -> (r: VfsResult<VfsNodeAttr>)
        ensures
            r is Ok,
            r->Ok_0@ == device_attr(),
    {
        Ok(VfsNodeAttr::new(VfsNodePerm::default_file(), VfsNodeType::CharDevice, 0, 0))
    }

    /// Reads nothing: returns 0 and leaves `buf` as it was.
    pub fn read_at(&self, _offset: u64, buf: &mut [u8]) -> (r: VfsResult<usize>)
        ensures
            r == Ok::<usize, VfsError>(0),
            final(buf)@ == old(buf)@,
    {
        Ok(0)
    }

    /// Discards `buf` and returns its length.
    pub fn write_at(&self, _offset: u64, buf: &[u8]) -> (r: VfsResult<usize>)
        ensures
            r == Ok::<usize, VfsError>(buf@.len() as usize),
    {
        Ok(buf.len())
    }

    /// Does nothing, for any size.
    pub fn truncate(&self, _size: u64) -> (r: VfsResult<()>)
        ensures
            r == Ok::<(), VfsError>(()),
    {
        Ok(())
    }
}

} // verus!
