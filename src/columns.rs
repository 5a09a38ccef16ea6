use vstd::prelude::*;

use bitvec::vec::BitVec;

verus! {

/// A packed bit-vector, one bit per dataset point.
#[verifier::external_body]
pub struct BitColumn {
    bits: BitVec,
}

/// The bits that a column holds, in order.
pub uninterp spec fn bits_of(v: BitColumn) -> Seq<bool>;

/// Relies on `BitVec::repeat`: `len` copies of `bit`. It panics only when
/// `len` passes `BitSlice::MAX_BITS`, which `requires` leaves out.
#[verifier::external_body]
pub(crate) fn bits_repeat(bit: bool, len: usize) -> (r: BitColumn)
    requires
        len <= usize::MAX / 8,
    ensures
        bits_of(r) == Seq::new(len as nat, |_i: int| bit),
{
    BitColumn { bits: BitVec::repeat(bit, len) }
}

/// Relies on `BitVec::push`: appends one bit. It panics only when the length
/// would pass `BitSlice::MAX_BITS`, which `requires` leaves out.
#[verifier::external_body]
pub(crate) fn bits_push(v: &mut BitColumn, bit: bool)
    requires
        bits_of(*old(v)).len() < usize::MAX / 8,
    ensures
        bits_of(*final(v)) == bits_of(*old(v)).push(bit),
{
    v.bits.push(bit)
}

/// Relies on `BitVec::len`: the number of bits held.
#[verifier::external_body]
pub(crate) fn bits_len(v: &BitColumn) -> (r: usize)
    ensures
        r == bits_of(*v).len(),
{
    v.bits.len()
}

/// Relies on indexing a `BitSlice` (through `BitVec`'s `Deref`): the bit at `i`.
#[verifier::external_body]
pub(crate) fn bits_get(v: &BitColumn, i: usize) -> (r: bool)
    requires
        i < bits_of(*v).len(),
    ensures
        r == bits_of(*v)[i as int],
{
    v.bits[i]
}

/// Relies on `BitAndAssign<&BitVec>`: on equal lengths, bit-wise AND in place.
#[verifier::external_body]
pub(crate) fn bits_and_assign(v: &mut BitColumn, other: &BitColumn)
    requires
        bits_of(*old(v)).len() == bits_of(*other).len(),
    ensures
        bits_of(*final(v)).len() == bits_of(*old(v)).len(),
        forall|i: int|
            0 <= i < bits_of(*old(v)).len() ==> #[trigger] bits_of(*final(v))[i] == (bits_of(
                *old(v),
            )[i] && bits_of(*other)[i]),
{
    v.bits &= &other.bits;
}

/// Relies on `BitOrAssign<&BitVec>`: on equal lengths, bit-wise OR in place.
#[verifier::external_body]
pub(crate) fn bits_or_assign(v: &mut BitColumn, other: &BitColumn)
    requires
        bits_of(*old(v)).len() == bits_of(*other).len(),
    ensures
        bits_of(*final(v)).len() == bits_of(*old(v)).len(),
        forall|i: int|
            0 <= i < bits_of(*old(v)).len() ==> #[trigger] bits_of(*final(v))[i] == (bits_of(
                *old(v),
            )[i] || bits_of(*other)[i]),
{
    v.bits |= &other.bits;
}

/// Relies on `Not for BitVec`: every bit flipped, length kept.
#[verifier::external_body]
pub(crate) fn bits_not(v: BitColumn) -> (r: BitColumn)
    ensures
        bits_of(r).len() == bits_of(v).len(),
        forall|i: int| 0 <= i < bits_of(v).len() ==> #[trigger] bits_of(r)[i] == !bits_of(v)[i],
{
    BitColumn { bits: !v.bits }
}

} // verus!
