//! Trusted boundary around `fixedbitset::FixedBitSet`, the bit-packed
//! container that stores the cell flags. Each wrapper's contract states what
//! the crate's source shows of the one method it calls, over `bits_of`, the
//! abstract sequence of bits the set holds.

use vstd::prelude::*;

verus! {

#[verifier::external_type_specification]
#[verifier::external_body]
pub struct ExFixedBitSet(fixedbitset::FixedBitSet);

/// The bits a `FixedBitSet` holds, in index order.
pub uninterp spec fn bits_of(b: fixedbitset::FixedBitSet) -> Seq<bool>;

/// Relies on `FixedBitSet::with_capacity`: a set of `bits` bits, all
/// initially clear.
#[verifier::external_body]
pub(crate) fn bitset_with_capacity(bits: usize) -> (r: fixedbitset::FixedBitSet)
    ensures
        bits_of(r) == Seq::new(bits as nat, |i: int| false),
{
    fixedbitset::FixedBitSet::with_capacity(bits)
}

/// Relies on `FixedBitSet::len`: the number of bits the set holds.
#[verifier::external_body]
pub(crate) fn bitset_len(b: &fixedbitset::FixedBitSet) -> (r: usize)
    ensures
        r == bits_of(*b).len(),
{
    b.len()
}

/// Relies on `FixedBitSet::contains`: the value of bit `i` when `i` is in
/// bounds.
#[verifier::external_body]
pub(crate) fn bitset_get(b: &fixedbitset::FixedBitSet, i: usize) -> (r: bool)
    requires
        i < bits_of(*b).len(),
    ensures
        r == bits_of(*b)[i as int],
{
    b.contains(i)
}

/// Relies on `FixedBitSet::set`: writes `v` at bit `i`; panics out of
/// bounds, so the contract keeps `i` in bounds.
#[verifier::external_body]
pub(crate) fn bitset_set(b: &mut fixedbitset::FixedBitSet, i: usize, v: bool)
    requires
        i < bits_of(*old(b)).len(),
    ensures
        bits_of(*final(b)) == bits_of(*old(b)).update(i as int, v),
{
    b.set(i, v)
}

/// Relies on `FixedBitSet::toggle`: inverts bit `i`; panics out of bounds,
/// so the contract keeps `i` in bounds.
#[verifier::external_body]
pub(crate) fn bitset_toggle(b: &mut fixedbitset::FixedBitSet, i: usize)
    requires
        i < bits_of(*old(b)).len(),
    ensures
        bits_of(*final(b)) == bits_of(*old(b)).update(i as int, !bits_of(*old(b))[i as int]),
{
    b.toggle(i)
}

/// Relies on `FixedBitSet::clear`: clears every bit, keeping the length.
#[verifier::external_body]
pub(crate) fn bitset_clear(b: &mut fixedbitset::FixedBitSet)
    ensures
        bits_of(*final(b)) == Seq::new(bits_of(*old(b)).len(), |i: int| false),
{
    b.clear()
}

/// Relies on `FixedBitSet::clone`: the clone holds the same bits.
#[verifier::external_body]
pub(crate) fn bitset_clone(b: &fixedbitset::FixedBitSet) -> (r: fixedbitset::FixedBitSet)
    ensures
        bits_of(r) == bits_of(*b),
{
    b.clone()
}

} // verus!
