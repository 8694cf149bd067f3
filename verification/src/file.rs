//! The file of the in-memory filesystem: a byte sequence that is read and
//! written by offset and grows with zeros.

use vstd::prelude::*;
use crate::error::{VfsError, VfsResult};
use crate::structs::{AttrView, VfsNodeAttr, VfsNodeType};

verus! {

/// The smaller of two integers.
pub open spec fn min_int(a: int, b: int) -> int {
    if a <= b {
        a
    } else {
        b
    }
}

/// Where a read at `offset` starts in a file of `n` bytes.
pub open spec fn read_start(n: int, offset: int) -> int {
    min_int(offset, n)
}

/// Where a read of at most `want` bytes at `offset` ends in a file of `n`
/// bytes.
pub open spec fn read_end(n: int, offset: int, want: int) -> int {
    min_int(offset + want, n)
}

/// The bytes that a read of at most `want` bytes at `offset` yields: those
/// of the file from `offset` on, as far as the file goes.
pub open spec fn read_bytes(content: Seq<u8>, offset: int, want: int) -> Seq<u8> {
    content.subrange(
        read_start(content.len() as int, offset),
        read_end(content.len() as int, offset, want),
    )
}

/// The content after `data` is written at `offset`: as long as needed to
/// hold the data, with the data in its place, the old bytes elsewhere and
/// zeros where there was nothing.
pub open spec fn written(content: Seq<u8>, offset: int, data: Seq<u8>) -> Seq<u8> {
    let len = if content.len() >= offset + data.len() {
        content.len() as int
    } else {
        offset + data.len()
    };
    Seq::new(
        len as nat,
        |i: int|
            if offset <= i < offset + data.len() {
                data[i - offset]
            } else if i < content.len() {
                content[i]
            } else {
                0u8
            },
    )
}

/// The content cut or grown with zeros to `size` bytes.
pub open spec fn resized(content: Seq<u8>, size: int) -> Seq<u8> {
    Seq::new(
        size as nat,
        |i: int|
            if i < content.len() {
                content[i]
            } else {
                0u8
            },
    )
}

/// The attributes of a file of `size` bytes.
pub open spec fn file_attr(size: int) -> AttrView {
    AttrView { perm: 0o666, ty: VfsNodeType::File, size: size as u64, blocks: 0 }
}

/// A file held in memory.
pub struct FileNode {
    content: Vec<u8>,
}

impl View for FileNode {
    type V = Seq<u8>;

    /// The bytes of the file.
    closed spec fn view(&self) -> Seq<u8> {
        self.content@
    }
}

impl FileNode {
    /// An empty file.
    pub fn new() -> (r: Self)
        ensures
            r@ == Seq::<u8>::empty(),
    {
        Self { content: Vec::new() }
    }

    /// The attributes of the file: a regular file whose size is the number
    /// of its bytes.
    pub fn get_attr(&self) -> (r: VfsResult<VfsNodeAttr>)
        ensures
            r is Ok,
            r->Ok_0@ == file_attr(self@.len() as int),
    {
        Ok(VfsNodeAttr::new_file(self.content.len() as u64, 0))
    }

    /// Cuts the file to `size` bytes, or grows it to `size` bytes with
    /// zeros.
    pub fn truncate(&mut self, size: u64) -> (r: VfsResult<()>)
        requires
            size <= usize::MAX,
        ensures
            r == Ok::<(), VfsError>(()),
            final(self)@ == resized(old(self)@, size as int),
    {
        let size = size as usize;
        if size < self.content.len() {
            self.content.truncate(size);
        } else {
            self.content.resize(size, 0);
            assert forall|k: int| 0 <= k < old(self)@.len() implies self.content@[k] == old(
                self,
            )@[k] by {
                assert(self.content@.subrange(0, old(self)@.len() as int)[k] == old(self)@[k]);
            }
        }
        assert(self.content@ =~= resized(old(self)@, size as int));
        Ok(())
    }

    /// Copies the bytes of the file from `offset` on into the front of
    /// `buf`, as many as the file has there and `buf` can take, and returns
    /// their number.  The rest of `buf` stays as it was.
    pub fn read_at(&self, offset: u64, buf: &mut [u8]) -> (r: VfsResult<usize>)
        ensures
            r is Ok,
            r->Ok_0 == read_bytes(self@, offset as int, old(buf)@.len() as int).len(),
            final(buf)@ == read_bytes(self@, offset as int, old(buf)@.len() as int) + old(
                buf,
            )@.skip(r->Ok_0 as int),
    {
        let n = self.content.len();
        let start: usize = if offset < n as u64 {
            offset as usize
        } else {
            n
        };
        let avail = n - start;
        let count: usize = if avail < buf.len() {
            avail
        } else {
            buf.len()
        };
        let ghost src = read_bytes(self@, offset as int, old(buf)@.len() as int);
        assert(src.len() == count);
        let mut i: usize = 0;
        while i < count
            invariant
                i <= count,
                self.content@.len() == n,
                start + count <= n,
                buf@.len() == old(buf)@.len(),
                count <= buf@.len(),
                src == self.content@.subrange(start as int, start + count),
                forall|k: int| 0 <= k < i ==> buf@[k] == src[k],
                forall|k: int| i <= k < buf@.len() ==> buf@[k] == old(buf)@[k],
            decreases count - i,
        {
            buf[i] = self.content[start + i];
            i += 1;
        }
        assert(buf@ =~= src + old(buf)@.skip(count as int));
        Ok(count)
    }

    /// Writes `buf` at `offset` and returns its length.  A file that ends
    /// before `offset + buf.len()` grows to that size first, with zeros
    /// between its old end and `offset`.
    pub fn write_at(&mut self, offset: u64, buf: &[u8]) -> (r: VfsResult<usize>)
        requires
            offset + buf@.len() <= usize::MAX,
        ensures
            r == Ok::<usize, VfsError>(buf@.len() as usize),
            final(self)@ == written(old(self)@, offset as int, buf@),
    {
        let offset = offset as usize;
        let end = offset + buf.len();
        if end > self.content.len() {
            self.content.resize(end, 0);
            assert(self.content@ =~= resized(old(self)@, end as int)) by {
                assert(self.content@.subrange(0, old(self)@.len() as int) == old(self)@);
                assert forall|k: int| 0 <= k < old(self)@.len() implies self.content@[k] == old(
                    self,
                )@[k] by {
                    assert(self.content@.subrange(0, old(self)@.len() as int)[k] == old(self)@[k]);
                }
            }
        }
        let ghost grown = self.content@;
        let ghost len = if end > old(self)@.len() {
            end as int
        } else {
            old(self)@.len() as int
        };
        assert(grown =~= resized(old(self)@, len));
        let mut i: usize = 0;
        while i < buf.len()
            invariant
                i <= buf@.len(),
                grown == resized(old(self)@, len),
                len == grown.len(),
                end == offset + buf@.len(),
                self.content@.len() == grown.len(),
                end <= grown.len(),
                forall|k: int| offset <= k < offset + i ==> self.content@[k] == buf@[k - offset],
                forall|k: int|
                    0 <= k < grown.len() && !(offset <= k < offset + i) ==> self.content@[k]
                        == grown[k],
            decreases buf@.len() - i,
        {
            self.content[offset + i] = buf[i];
            i += 1;
        }
        let ghost w = written(old(self)@, offset as int, buf@);
        assert(w.len() == len);
        assert(self.content@.len() == len);
        assert forall|k: int| 0 <= k < len implies self.content@[k] == w[k] by {
            if offset <= k < offset + buf@.len() {
                assert(self.content@[k] == buf@[k - offset]);
            } else {
                assert(self.content@[k] == grown[k]);
            }
        }
        assert(self.content@ =~= w);
        Ok(buf.len())
    }
}

} // verus!
