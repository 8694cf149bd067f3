//! The zero device: reads yield zero bytes, writes are discarded.

use vstd::prelude::*;
use crate::error::{VfsError, VfsResult};
use crate::null::device_attr;
use crate::structs::{VfsNodeAttr, VfsNodePerm, VfsNodeType};

verus! {

/// A device that behaves like `/dev/zero`.
#[derive(Debug, Clone, Copy, PartialEq, Eq, Structural)]
pub struct ZeroDev;

impl ZeroDev {
    /// The attributes of the device.
    pub fn get_attr(&self) -> (r: VfsResult<VfsNodeAttr>)
        ensures
            r is Ok,
            r->Ok_0@ == device_attr(),
    {
        Ok(VfsNodeAttr::new(VfsNodePerm::default_file(), VfsNodeType::CharDevice, 0, 0))
    }

    /// Fills `buf` with zeros and returns its length.
    pub fn read_at(&self, _offset: u64, buf: &mut [u8]) -> (r: VfsResult<usize>)
        ensures
            r == Ok::<usize, VfsError>(old(buf)@.len() as usize),
            final(buf)@ == Seq::new(old(buf)@.len(), |i: int| 0u8),
    {
        let n = buf.len();
        let mut i: usize = 0;
        while i < n
            invariant
                i <= n,
                n == buf@.len(),
                n == old(buf)@.len(),
                forall|k: int| 0 <= k < i ==> buf@[k] == 0,
            decreases n - i,
        {
            buf[i] = 0;
            i += 1;
        }
        assert(buf@ =~= Seq::new(old(buf)@.len(), |i: int| 0u8));
        Ok(n)
    }

    /// Discards `buf` and returns its length.
    pub fn write_at(&self, _offset: u64, buf: &[u8]) -> (r: VfsResult<usize>)
        ensures
            r == Ok::<usize, VfsError>(buf@.len() as usize),
    {
        Ok(buf.len())
    }

    /// Does nothing, for any size.
    pub fn truncate(&self, _size: u64) -> (r: VfsResult<()>)
        ensures
            r == Ok::<(), VfsError>(()),
    {
        Ok(())
    }
}

} // verus!
