//! The pseudo-random device: reads yield the bytes of a linear congruential
//! generator, writes are discarded.

use vstd::prelude::*;
use vstd::arithmetic::div_mod::lemma_add_mod_noop;
use crate::error::{VfsError, VfsResult};
use crate::null::device_attr;
use crate::structs::{VfsNodeAttr, VfsNodePerm, VfsNodeType};

verus! {

/// The multiplier of the generator.
pub const LCG_MULTIPLIER: u64 = 6364136223846793005;

/// The seed of a device made by default.
pub const DEFAULT_SEED: u64 = 0xa2ce_a2ce;

/// The state that follows `seed`: `seed * m + 1` modulo 2^64.
pub open spec fn lcg_next(seed: u64) -> u64 {
    ((seed * LCG_MULTIPLIER + 1) % 0x1_0000_0000_0000_0000) as u64
}

/// The state after `n` steps from `seed`.
pub open spec fn lcg_nth(seed: u64, n: nat) -> u64
    decreases n,
{
    if n == 0 {
        seed
    } else {
        lcg_next(lcg_nth(seed, (n - 1) as nat))
    }
}

/// `x` without its `j` lowest bytes.
pub open spec fn drop_bytes(x: int, j: nat) -> int
    decreases j,
{
    if j == 0 {
        x
    } else {
        drop_bytes(x, (j - 1) as nat) / 256
    }
}

/// Byte `j` of `x`, counted from the least significant.
pub open spec fn le_byte(x: u64, j: nat) -> u8 {
    (drop_bytes(x as int, j) % 256) as u8
}

/// Byte `i` of the stream that a device with state `seed` yields: the
/// values that follow `seed` one after the other, eight bytes of each, the
/// least significant first.
pub open spec fn stream_byte(seed: u64, i: int) -> u8 {
    le_byte(lcg_nth(seed, (i / 8 + 1) as nat), (i % 8) as nat)
}

/// The number of values that a read of `len` bytes draws: one for every
/// eight bytes or part of them.
pub open spec fn values_drawn(len: int) -> nat {
    ((len + 7) / 8) as nat
}

/// A device that behaves like `/dev/urandom`, with a generator that is
/// reproducible and not fit for cryptography.
pub struct UrandomDev {
    seed: u64,
}

impl View for UrandomDev {
    type V = u64;

    /// The state of the generator.
    closed spec fn view(&self) -> u64 {
        self.seed
    }
}

impl UrandomDev {
    /// A device whose generator starts from `seed`.
    pub fn new(seed: u64) -> (r: Self)
        ensures
            r@ == seed,
    {
        Self { seed }
    }

    /// A device whose generator starts from the default seed.
    pub fn new_with_default_seed() -> (r: Self)
        ensures
            r@ == DEFAULT_SEED,
    {
        Self::new(DEFAULT_SEED)
    }

    /// Steps the generator and returns its new state.
    pub fn next_u64(&mut self) -> (r: u64)
        ensures
            r == lcg_next(old(self)@),
            final(self)@ == r,
    {
        let product = self.seed.wrapping_mul(LCG_MULTIPLIER);
        let new_seed = product.wrapping_add(1);
        proof {
            let r = 0x1_0000_0000_0000_0000int;
            let a = self.seed as int * LCG_MULTIPLIER as int;
            assert(product as int == a % r);
            lemma_add_mod_noop(a, 1, r);
            assert(1int % r == 1);
            assert(new_seed as int == (a % r + 1) % r) by {
                if product as int + 1 > u64::MAX {
                    assert((a % r + 1) == r);
                    assert(r % r == 0);
                } else {
                    assert((a % r + 1) % r == a % r + 1);
                }
            }
        }
        self.seed = new_seed;
        new_seed
    }

    /// The attributes of the device.
    pub fn get_attr(&self) -> (r: VfsResult<VfsNodeAttr>)
        ensures
            r is Ok,
            r->Ok_0@ == device_attr(),
    {
        Ok(VfsNodeAttr::new(VfsNodePerm::default_file(), VfsNodeType::CharDevice, 0, 0))
    }

    /// Fills `buf` with the next bytes of the stream and returns its
    /// length.  The generator steps once for every eight bytes or part of
    /// them; the offset plays no part.
    pub fn read_at(&mut self, _offset: u64, buf: &mut [u8]) -> (r: VfsResult<usize>)
        ensures
            r == Ok::<usize, VfsError>(old(buf)@.len() as usize),
            final(buf)@ == Seq::new(old(buf)@.len(), |i: int| stream_byte(old(self)@, i)),
            final(self)@ == lcg_nth(old(self)@, values_drawn(old(buf)@.len() as int)),
    {
        let n = buf.len();
        let ghost seed0 = self.seed;
        let mut i: usize = 0;
        while i < n
            invariant
                i <= n,
                i % 8 == 0 || i == n,
                n == buf@.len(),
                n == old(buf)@.len(),
                self.seed == lcg_nth(seed0, values_drawn(i as int)),
                forall|k: int| 0 <= k < i ==> buf@[k] == stream_byte(seed0, k),
            decreases n - i,
        {
            let ghost drawn = values_drawn(i as int);
            let value = self.next_u64();
            assert(value == lcg_nth(seed0, drawn + 1));
            assert(drawn == i / 8);
            let mut v = value;
            let mut j: usize = 0;
            while j < 8 && i + j < n
                invariant
                    j <= 8,
                    i + j <= n,
                    i % 8 == 0,
                    n == buf@.len(),
                    v == drop_bytes(value as int, j as nat),
                    value == lcg_nth(seed0, (i / 8 + 1) as nat),
                    forall|k: int| 0 <= k < i + j ==> buf@[k] == stream_byte(seed0, k),
                decreases 8 - j,
            {
                assert((i + j) / 8 == i / 8 && (i + j) % 8 == j);
                buf[i + j] = (v % 256) as u8;
                v = v / 256;
                j += 1;
            }
            i = i + j;
            assert(values_drawn(i as int) == drawn + 1);
        }
        assert(buf@ =~= Seq::new(old(buf)@.len(), |i: int| stream_byte(seed0, i)));
        Ok(n)
    }

    /// Discards `buf` and returns its length.
    pub fn write_at(&self, _offset: u64, buf: &[u8]) -> (r: VfsResult<usize>)
        ensures
            r == Ok::<usize, VfsError>(buf@.len() as usize),
    {
        Ok(buf.len())
    }

    /// Does nothing, for any size.
    pub fn truncate(&self, _size: u64) -> (r: VfsResult<()>)
        ensures
            r == Ok::<(), VfsError>(()),
    {
        Ok(())
    }
}

impl Default for UrandomDev {
    /// A device whose generator starts from the default seed.
    fn default() -> (r: Self)
        ensures
            r@ == DEFAULT_SEED,
    {
        Self::new_with_default_seed()
    }
}

} // verus!
