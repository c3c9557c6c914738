//! Byte-backed bit-vectors.
//!
//! The storage is a `bitvec::vec::BitVec<u8, Msb0>`. Verus cannot look inside
//! it, so this module names what it holds ([`bf_bits`]) and states, for each
//! method the crate calls, what that method does to the bits. Those statements
//! are trusted; everything built on them is proved.

use vstd::prelude::*;

verus! {

/// A bit-vector stored in bytes; bit 0 is the most significant bit of byte 0.
#[verifier::external_body]
pub struct BF {
    inner: bitvec::vec::BitVec<u8, bitvec::order::Msb0>,
}

/// The bits that a bit-vector holds, in index order.
pub uninterp spec fn bf_bits(bf: BF) -> Seq<bool>;

impl View for BF {
    type V = Seq<bool>;

    open spec fn view(&self) -> Seq<bool> {
        bf_bits(*self)
    }
}

/// The mask that selects bit `k` of a byte when bits are counted from the
/// most significant end.
pub open spec fn msb0_mask(k: int) -> u8 {
    if k == 0 {
        0x80
    } else if k == 1 {
        0x40
    } else if k == 2 {
        0x20
    } else if k == 3 {
        0x10
    } else if k == 4 {
        0x08
    } else if k == 5 {
        0x04
    } else if k == 6 {
        0x02
    } else {
        0x01
    }
}

/// Bit `i` of a byte string read as a bit string, most significant bit first.
pub open spec fn bit_of_bytes(bytes: Seq<u8>, i: int) -> bool {
    bytes[i / 8] & msb0_mask(i % 8) != 0
}

/// A byte string read as a bit string, most significant bit first.
pub open spec fn bits_of_bytes(bytes: Seq<u8>) -> Seq<bool> {
    Seq::new(bytes.len() * 8, |i: int| bit_of_bytes(bytes, i))
}

/// The largest number of bits that one bit-vector can span.
pub open spec fn max_bits() -> int {
    usize::MAX as int / 8
}

/// `true` when `start..end` lies inside a bit string of `len` bits.
pub open spec fn range_in_bounds(start: int, end: int, len: int) -> bool {
    0 <= start <= end <= len
}

/// `bits` with every position of `start..end` replaced by `value`.
pub open spec fn filled(bits: Seq<bool>, start: int, end: int, value: bool) -> Seq<bool> {
    Seq::new(bits.len(), |i: int| if start <= i < end { value } else { bits[i] })
}

/// `true` when every bit of `start..end` is set.
pub open spec fn all_set(bits: Seq<bool>, start: int, end: int) -> bool {
    forall|i: int| start <= i < end ==> #[trigger] bits[i]
}

/// `true` when `zeros` lists, in increasing order and without gaps, the
/// positions below `n` at which `bits` is clear.
pub open spec fn lists_zeros(zeros: Seq<usize>, bits: Seq<bool>, n: int) -> bool {
    &&& forall|i: int, j: int| 0 <= i < j < zeros.len() ==> zeros[i] < zeros[j]
    &&& forall|i: int| 0 <= i < zeros.len() ==> zeros[i] < n && !bits[#[trigger] zeros[i] as int]
    &&& forall|k: int|
        0 <= k < n && !(#[trigger] bits[k]) ==> exists|i: int|
            0 <= i < zeros.len() && #[trigger] zeros[i] == k
}

impl BF {
    /// `BitVec::from_vec`: the result spans every bit of the bytes given, in
    /// `Msb0` order. The outside function panics on a vector too long to be
    /// addressed bit by bit, which `requires` leaves out.
    #[verifier::external_body]
    fn raw_from_vec(bytes: Vec<u8>) -> (bf: BF)
        requires
            bytes@.len() * 8 <= max_bits(),
        ensures
            bf_bits(bf) == bits_of_bytes(bytes@),
    {
        BF { inner: bitvec::vec::BitVec::from_vec(bytes) }
    }

    /// `BitVec::len`: the number of bits held.
    #[verifier::external_body]
    fn raw_len(&self) -> (n: usize)
        ensures
            n == bf_bits(*self).len(),
    {
        self.inner.len()
    }

    /// `BitSlice::get` with a bit index: the bit at `index`, or `None` when
    /// `index` is not below the length.
    #[verifier::external_body]
    fn raw_get(&self, index: usize) -> (bit: Option<bool>)
        ensures
            bit == if index < bf_bits(*self).len() {
                Some(bf_bits(*self)[index as int])
            } else {
                None
            },
    {
        self.inner.get(index).map(|bit| *bit)
    }

    /// `BitSlice::set`: writes one bit and leaves the others. The outside
    /// function panics on an index that is not below the length.
    #[verifier::external_body]
    pub(crate) fn raw_set(&mut self, index: usize, value: bool)
        requires
            index < bf_bits(*old(self)).len(),
        ensures
            bf_bits(*final(self)) == bf_bits(*old(self)).update(index as int, value),
    {
        self.inner.set(index, value)
    }

    /// `BitSlice::get_mut` with a range, then `BitSlice::fill` on the part it
    /// selects: when the range lies inside the vector every bit of it becomes
    /// `value`; otherwise `get_mut` selects nothing and no bit changes.
    #[verifier::external_body]
    pub(crate) fn raw_fill_range(&mut self, start: usize, end: usize, value: bool) -> (found: bool)
        ensures
            found == range_in_bounds(start as int, end as int, bf_bits(*old(self)).len() as int),
            found ==> bf_bits(*final(self)) == filled(bf_bits(*old(self)), start as int, end as int, value),
            !found ==> bf_bits(*final(self)) == bf_bits(*old(self)),
    {
        match self.inner.get_mut(start..end) {
            Some(part) => {
                part.fill(value);
                true
            },
            None => false,
        }
    }

    /// `BitSlice::get` with a range, then `BitSlice::all` on the part it
    /// selects: whether every bit of the range is set, or `None` when the
    /// range does not lie inside the vector.
    #[verifier::external_body]
    pub(crate) fn raw_all_in_range(&self, start: usize, end: usize) -> (all: Option<bool>)
        ensures
            all.is_some() == range_in_bounds(start as int, end as int, bf_bits(*self).len() as int),
            all.is_some() ==> all.unwrap() == all_set(bf_bits(*self), start as int, end as int),
    {
        self.inner.get(start..end).map(|part| part.all())
    }

    /// `BitSlice::get` with the range `0..n`, then `BitSlice::iter_zeros` on
    /// the part it selects: the positions of the clear bits below `n`, in
    /// increasing order, or `None` when the vector holds fewer than `n` bits.
    #[verifier::external_body]
    pub(crate) fn raw_zeros_below(&self, n: usize) -> (zeros: Option<Vec<usize>>)
        ensures
            zeros.is_some() == (n <= bf_bits(*self).len()),
            zeros.is_some() ==> lists_zeros(zeros.unwrap()@, bf_bits(*self), n as int),
    {
        self.inner.get(0..n).map(|part| part.iter_zeros().collect())
    }

    /// Turns bytes into a bit-vector that spans all their bits.
    pub fn from_vec(bytes: Vec<u8>) -> (bf: BF)
        requires
            bytes@.len() * 8 <= max_bits(),
        ensures
            bf@ == bits_of_bytes(bytes@),
    {
        BF::raw_from_vec(bytes)
    }

    /// The number of bits held.
    pub fn len(&self) -> (n: usize)
        ensures
            n == self@.len(),
    {
        self.raw_len()
    }

    /// The bit at `index`, or `None` when there is no such bit.
    pub fn get(&self, index: usize) -> (bit: Option<bool>)
        ensures
            bit == if index < self@.len() {
                Some(self@[index as int])
            } else {
                None
            },
    {
        self.raw_get(index)
    }
}

/// A bit string made of zero bytes has every bit clear.
pub proof fn lemma_zero_bytes_have_clear_bits(bytes: Seq<u8>)
    requires
        forall|i: int| 0 <= i < bytes.len() ==> bytes[i] == 0,
    ensures
        bits_of_bytes(bytes).len() == bytes.len() * 8,
        forall|i: int| 0 <= i < bytes.len() * 8 ==> !(#[trigger] bits_of_bytes(bytes)[i]),
{
    assert forall|i: int| 0 <= i < bytes.len() * 8 implies !(#[trigger] bits_of_bytes(bytes)[i]) by {
        let m = msb0_mask(i % 8);
        assert(0u8 & m == 0) by (bit_vector);
        assert(0 <= i / 8 < bytes.len());
    }
}

} // verus!
