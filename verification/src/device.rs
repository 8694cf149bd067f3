//! The device nodes that a device filesystem can hold, behind one set of
//! operations.

use vstd::prelude::*;
use crate::error::{VfsError, VfsResult};
use crate::null::{device_attr, NullDev};
use crate::structs::VfsNodeAttr;
use crate::urandom::{lcg_nth, stream_byte, values_drawn, UrandomDev};
use crate::zero::ZeroDev;

verus! {

/// A device node.
pub enum Device {
    /// The null device.
    Null(NullDev),
    /// The zero device.
    Zero(ZeroDev),
    /// The pseudo-random device.
    Urandom(UrandomDev),
}

/// What a device holds: nothing, or the state of its generator.
pub enum DeviceView {
    /// The null device.
    Null,
    /// The zero device.
    Zero,
    /// The pseudo-random device and the state of its generator.
    Urandom(u64),
}

impl DeviceView {
    /// The number of bytes that a read into a buffer of `len` bytes
    /// yields.
    pub open spec fn read_len(self, len: int) -> int {
        match self {
            DeviceView::Null => 0,
            _ => len,
        }
    }

    /// The buffer after a read into `buf`.
    pub open spec fn read_buf(self, buf: Seq<u8>) -> Seq<u8> {
        match self {
            DeviceView::Null => buf,
            DeviceView::Zero => Seq::new(buf.len(), |i: int| 0u8),
            DeviceView::Urandom(seed) => Seq::new(buf.len(), |i: int| stream_byte(seed, i)),
        }
    }

    /// The device after a read into a buffer of `len` bytes.
    pub open spec fn after_read(self, len: int) -> DeviceView {
        match self {
            DeviceView::Urandom(seed) => DeviceView::Urandom(lcg_nth(seed, values_drawn(len))),
            _ => self,
        }
    }
}

impl View for Device {
    type V = DeviceView;

    open spec fn view(&self) -> DeviceView {
        match self {
            Device::Null(_) => DeviceView::Null,
            Device::Zero(_) => DeviceView::Zero,
            Device::Urandom(u) => DeviceView::Urandom(u@),
        }
    }
}

impl Device {
    /// The attributes of the device: a character device of size zero.
    pub fn get_attr(&self) -> (r: VfsResult<VfsNodeAttr>)
        ensures
            r is Ok,
            r->Ok_0@ == device_attr(),
    {
        match self {
            Device::Null(d) => d.get_attr(),
            Device::Zero(d) => d.get_attr(),
            Device::Urandom(d) => d.get_attr(),
        }
    }

    /// Reads from the device into `buf` and returns the number of bytes
    /// read: none from the null device, a full buffer of zeros from the
    /// zero device and of the next stream bytes from the pseudo-random one.
    pub fn read_at(&mut self, offset: u64, buf: &mut [u8]) -> (r: VfsResult<usize>)
        ensures
            r == Ok::<usize, VfsError>(old(self)@.read_len(old(buf)@.len() as int) as usize),
            final(buf)@ == old(self)@.read_buf(old(buf)@),
            final(self)@ == old(self)@.after_read(old(buf)@.len() as int),
    {
        match self {
            Device::Null(d) => d.read_at(offset, buf),
            Device::Zero(d) => d.read_at(offset, buf),
            Device::Urandom(d) => d.read_at(offset, buf),
        }
    }

    /// Discards `buf` and returns its length.
    pub fn write_at(&self, offset: u64, buf: &[u8]) -> (r: VfsResult<usize>)
        ensures
            r == Ok::<usize, VfsError>(buf@.len() as usize),
    {
        match self {
            Device::Null(d) => d.write_at(offset, buf),
            Device::Zero(d) => d.write_at(offset, buf),
            Device::Urandom(d) => d.write_at(offset, buf),
        }
    }

    /// Does nothing, for any size.
    pub fn truncate(&self, size: u64) -> (r: VfsResult<()>)
        ensures
            r == Ok::<(), VfsError>(()),
    {
        match self {
            Device::Null(d) => d.truncate(size),
            Device::Zero(d) => d.truncate(size),
            Device::Urandom(d) => d.truncate(size),
        }
    }
}

} // verus!
