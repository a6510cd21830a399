//! A bounds-checked byte region standing for the zero-initialised physical
//! memory an image is materialised into.  Every write is checked against the
//! region's length, so no address miscalculation can reach outside it.

use vstd::prelude::*;
use vstd::bytes::*;
use vstd::slice::*;

verus! {

/// The result of writing `data` over `r` starting at `off`: positions inside
/// `[off, off + data.len())` take the new bytes, all others keep their value.
pub open spec fn spec_splice(r: Seq<u8>, off: int, data: Seq<u8>) -> Seq<u8> {
    Seq::new(r.len(), |i: int| if off <= i < off + data.len() { data[i - off] } else { r[i] })
}

/// A fixed-length, exclusively owned byte buffer.
pub struct Region {
    data: Vec<u8>,
}

impl Region {
    /// The region's bytes.
    pub closed spec fn view(&self) -> Seq<u8> {
        self.data@
    }

    /// A region of `len` zero bytes.
    pub fn new_zeroed(len: usize) -> (r: Region)
        ensures
            r@ == Seq::new(len as nat, |i: int| 0u8),
            r@.len() == len,
    {
        let mut data: Vec<u8> = Vec::new();
        let mut i: usize = 0;
        while i < len
            invariant
                0 <= i <= len,
                data@.len() == i,
                data@ == Seq::new(i as nat, |j: int| 0u8),
            decreases len - i,
        {
            data.push(0u8);
            assert(data@ == Seq::new(i as nat + 1, |j: int| 0u8));
            i = i + 1;
        }
        Region { data }
    }

    /// Length of the region in bytes.
    pub fn len(&self) -> (r: usize)
        ensures
            r == self@.len(),
    {
        self.data.len()
    }

    /// The byte at `off`.
    pub fn byte_at(&self, off: usize) -> (r: u8)
        requires
            off < self@.len(),
        ensures
            r == self@[off as int],
    {
        self.data[off]
    }

    /// Writes `count` bytes taken from `src` at `src_off` into the region at
    /// `off`, failing no bound: both ranges are checked statically.
    pub fn write_bytes(&mut self, off: usize, src: &[u8], src_off: usize, count: usize)
        requires
            off + count <= old(self)@.len(),
            src_off + count <= src@.len(),
        ensures
            final(self)@ == spec_splice(old(self)@, off as int, src@.subrange(
                src_off as int,
                src_off + count,
            )),
    {
        let ghost data = src@.subrange(src_off as int, src_off + count as int);
        let mut j: usize = 0;
        while j < count
            invariant
                0 <= j <= count,
                off + count <= self@.len(),
                src_off + count <= src@.len(),
                self@.len() == old(self)@.len(),
                data == src@.subrange(src_off as int, src_off + count as int),
                forall|i: int|
                    0 <= i < self@.len() && !(off <= i < off + j) ==> self@[i] == old(self)@[i],
                forall|i: int| off <= i < off + j ==> self@[i] == data[i - off],
            decreases count - j,
        {
            let sn: usize = src.len();
            let dn: usize = self.data.len();
            assert(src_off + j < sn);
            assert(off + j < dn);
            let b = *slice_index_get(src, src_off + j);
            assert(b == data[j as int]);
            self.data.set(off + j, b);
            j = j + 1;
        }
        assert(self@ =~= spec_splice(old(self)@, off as int, data));
    }

    /// Reads the 64-bit little-endian value whose bytes sit at `off`.
    pub fn read_u64_le(&self, off: usize) -> (r: u64)
        requires
            off + 8 <= self@.len(),
        ensures
            r == spec_u64_from_le_bytes(self@.subrange(off as int, off + 8)),
    {
        let n: usize = self.data.len();
        let s = slice_subrange(self.data.as_slice(), off, off + 8);
        u64_from_le_bytes(s)
    }

    /// Hands the region's bytes out for copying into their final place.
    pub fn bytes(&self) -> (r: &Vec<u8>)
        ensures
            r@ == self@,
    {
        &self.data
    }
}

} // verus!
