//! The executable memory region, modelled as an owned byte buffer with a
//! known base address.
//!
//! The real region is provided by an external memory collaborator; its base
//! address and length are handed in as plain values, and every write the
//! linker performs is expressed as a buffer-relative offset. Addresses
//! become absolute only in the displacement arithmetic, never as pointers.

use vstd::prelude::*;
use vstd::pervasive::VecAdditionalExecFns;

verus! {

/// The four little-endian bytes of a 32-bit value, least significant first.
pub open spec fn le_bytes(v: u32) -> Seq<u8> {
    seq![
        (v & 0xff) as u8,
        ((v >> 8) & 0xff) as u8,
        ((v >> 16) & 0xff) as u8,
        ((v >> 24) & 0xff) as u8,
    ]
}

/// One relocation patch at the specification level: the four little-endian
/// bytes of `v` overwrite `s` at `off`. An out-of-range patch leaves the
/// sequence unchanged; the executable code never performs one.
pub open spec fn write4(s: Seq<u8>, off: int, v: u32) -> Seq<u8> {
    if 0 <= off && off + 4 <= s.len() {
        s.update(off, le_bytes(v)[0]).update(off + 1, le_bytes(v)[1]).update(
            off + 2,
            le_bytes(v)[2],
        ).update(off + 3, le_bytes(v)[3])
    } else {
        s
    }
}

pub proof fn lemma_write4_len(s: Seq<u8>, off: int, v: u32)
    ensures
        write4(s, off, v).len() == s.len(),
{
}

/// Bytes outside the patched window are untouched.
pub proof fn lemma_write4_outside(s: Seq<u8>, off: int, v: u32, j: int)
    requires
        0 <= j < s.len(),
        j < off || off + 4 <= j,
    ensures
        write4(s, off, v)[j] == s[j],
{
}

/// Bytes inside the patched window carry the little-endian value.
pub proof fn lemma_write4_inside(s: Seq<u8>, off: int, v: u32, j: int)
    requires
        0 <= off,
        off + 4 <= s.len(),
        off <= j < off + 4,
    ensures
        write4(s, off, v)[j] == le_bytes(v)[j - off],
{
}

/// An exclusively owned, contiguous span of memory marked executable, with
/// a known base address and length. It is allocated once, sized exactly to
/// the total emitted code size, and never resized; its contents are written
/// during emission and relocation patching and are immutable afterwards.
#[derive(Debug)]
pub struct Region {
    pub base: u64,
    pub bytes: Vec<u8>,
}

impl Region {
    /// A fresh zero-filled region at the given base address. Stands for the
    /// span the external memory provider hands out; a zero-length request
    /// yields a valid zero-length region.
    pub fn new(base: u64, size: usize) -> (r: Region)
        ensures
            r.base == base,
            r.bytes@ == Seq::new(size as nat, |i: int| 0u8),
    {
        let bytes = vec![0u8; size];
        proof {
            assert(bytes@ =~= Seq::new(size as nat, |i: int| 0u8));
        }
        Region { base, bytes }
    }

    pub open spec fn len(self) -> int {
        self.bytes@.len() as int
    }

    /// The single place where the region is patched: writes the four
    /// little-endian bytes of `v` at byte offset `off`. The precondition
    /// keeps every write inside the region.
    pub fn write_u32_le(&mut self, off: usize, v: u32)
        requires
            off + 4 <= old(self).bytes@.len(),
        ensures
            final(self).base == old(self).base,
            final(self).bytes@ == write4(old(self).bytes@, off as int, v),
    {
        let len = self.bytes.len();
        assert(off + 4 <= len);
        let b0: u8 = (v & 0xff) as u8;
        let b1: u8 = ((v >> 8) & 0xff) as u8;
        let b2: u8 = ((v >> 16) & 0xff) as u8;
        let b3: u8 = ((v >> 24) & 0xff) as u8;
        self.bytes.set(off, b0);
        self.bytes.set(off + 1, b1);
        self.bytes.set(off + 2, b2);
        self.bytes.set(off + 3, b3);
    }

    /// Emission of one compiled body: copies `src` into the region at byte
    /// offset `off`. Everything outside the window keeps its old value.
    pub fn write_bytes(&mut self, off: usize, src: &Vec<u8>)
        requires
            off + src@.len() <= old(self).bytes@.len(),
        ensures
            final(self).base == old(self).base,
            final(self).bytes@.len() == old(self).bytes@.len(),
            forall|b: int|
                0 <= b < src@.len() ==> final(self).bytes@[off + b] == src@[b],
            forall|j: int|
                0 <= j < old(self).bytes@.len() && (j < off || off + src@.len() <= j)
                    ==> final(self).bytes@[j] == old(self).bytes@[j],
    {
        let n = src.len();
        let total = self.bytes.len();
        assert(off + n <= total);
        let mut i: usize = 0;
        while i < n
            invariant
                n == src@.len(),
                i <= n,
                off + n <= total,
                total == self.bytes@.len(),
                self.base == old(self).base,
                self.bytes@.len() == old(self).bytes@.len(),
                forall|b: int| 0 <= b < i ==> self.bytes@[off + b] == src@[b],
                forall|j: int|
                    0 <= j < old(self).bytes@.len() && (j < off || off + n <= j)
                        ==> self.bytes@[j] == old(self).bytes@[j],
            decreases n - i,
        {
            self.bytes.set(off + i, src[i]);
            i += 1;
        }
    }
}

} // verus!
