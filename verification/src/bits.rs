//! Trusted interface to the bit-packed storage of the `fixedbitset` crate.
//! The grid is held as a `FixedBitSet`; its contents are modelled by the
//! uninterpreted sequence `bitset_bits`, and each method the engine calls is
//! wrapped with the contract its source shows.

use vstd::prelude::*;

verus! {

#[verifier::external_type_specification]
#[verifier::external_body]
pub struct ExFixedBitSet(fixedbitset::FixedBitSet);

/// The bits a `FixedBitSet` holds, in index order, one per bit of capacity.
pub uninterp spec fn bitset_bits(s: fixedbitset::FixedBitSet) -> Seq<bool>;

/// Relies on `fixedbitset::FixedBitSet::with_capacity`: a set with `bits`
/// bits, all initially clear.
#[verifier::external_body]
pub(crate) fn bitset_with_capacity(bits: usize) -> (r: fixedbitset::FixedBitSet)
    ensures
        bitset_bits(r) == Seq::new(bits as nat, |i: int| false),
{
    fixedbitset::FixedBitSet::with_capacity(bits)
}

/// Relies on `fixedbitset::FixedBitSet::contains`: whether bit `bit` is
/// enabled; bits outside the capacity are always disabled.
#[verifier::external_body]
pub(crate) fn bitset_contains(s: &fixedbitset::FixedBitSet, bit: usize) -> (r: bool)
    ensures
        r == (bit < bitset_bits(*s).len() && bitset_bits(*s)[bit as int]),
{
    s.contains(bit)
}

/// Relies on `fixedbitset::FixedBitSet::set`: overwrites bit `bit` with
/// `enabled`. It panics out of bounds, which the precondition rules out.
#[verifier::external_body]
pub(crate) fn bitset_set(s: &mut fixedbitset::FixedBitSet, bit: usize, enabled: bool)
    requires
        bit < bitset_bits(*old(s)).len(),
    ensures
        bitset_bits(*final(s)) == bitset_bits(*old(s)).update(bit as int, enabled),
{
    s.set(bit, enabled)
}

} // verus!
