use vstd::prelude::*;
use bitvec::vec::BitVec;

verus! {

/// Occupancy bits held in a bitvec `BitVec`.
#[verifier::external_body]
pub struct BitBuffer {
    bits: BitVec,
}

/// The bits a bit-vector holds, in order.
pub uninterp spec fn bits_of(v: BitBuffer) -> Seq<bool>;

/// The longest bit-vector that bitvec can hold: `BitSlice::MAX_BITS`,
/// which is `usize::MAX >> 3`.
pub open spec fn max_bits() -> int {
    usize::MAX as int / 8
}

/// Relies on `BitVec::new`: an empty bit-vector.
#[verifier::external_body]
pub(crate) fn new_bits() -> (r: BitBuffer)
    ensures
        bits_of(r) == Seq::<bool>::empty(),
{
    BitBuffer { bits: BitVec::new() }
}

/// Relies on `BitVec::push`: appends one bit; it panics only when the new
/// length would exceed `BitSlice::MAX_BITS`.
#[verifier::external_body]
pub(crate) fn push_bit(v: &mut BitBuffer, bit: bool)
    requires
        bits_of(*old(v)).len() < max_bits(),
    ensures
        bits_of(*final(v)) == bits_of(*old(v)).push(bit),
{
    v.bits.push(bit)
}

/// Relies on `BitVec::len`: the number of bits held.
#[verifier::external_body]
pub(crate) fn bits_len(v: &BitBuffer) -> (r: usize)
    ensures
        r == bits_of(*v).len(),
{
    v.bits.len()
}

/// Relies on `Index<usize>` of `BitVec` (through `BitSlice`): the bit at
/// `index`; it panics when `index` is out of bounds.
#[verifier::external_body]
pub(crate) fn bit_at(v: &BitBuffer, index: usize) -> (r: bool)
    requires
        index < bits_of(*v).len(),
    ensures
        r == bits_of(*v)[index as int],
{
    v.bits[index]
}

/// Relies on `BitSlice::set`: writes the bit at `index`; it panics when
/// `index` is out of bounds.
#[verifier::external_body]
pub(crate) fn set_bit(v: &mut BitBuffer, index: usize, bit: bool)
    requires
        index < bits_of(*old(v)).len(),
    ensures
        bits_of(*final(v)) == bits_of(*old(v)).update(index as int, bit),
{
    v.bits.set(index, bit)
}

} // verus!
