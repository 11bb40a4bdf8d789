//! What this library takes on trust about `fixedbitset::FixedBitSet`.

use crate::packing::{packs, spare_bits_clear};
use fixedbitset::FixedBitSet;
use vstd::prelude::*;

verus! {

/// `fixedbitset::FixedBitSet`, a set of bits of a fixed length. Nothing is
/// known of a value of it but what the items below say.
#[verifier::external_type_specification]
#[verifier::external_body]
pub struct ExFixedBitSet(FixedBitSet);

/// The bits that a set holds, in index order: `bits(set)[i]` is bit `i`, and
/// the length of the sequence is the set's length in bits.
pub uninterp spec fn bits(set: &FixedBitSet) -> Seq<bool>;

/// Whether every spare bit of the set is clear. The spare bits are those of
/// its last block that lie beyond its length.
pub uninterp spec fn spare_clear(set: &FixedBitSet) -> bool;

/// `FixedBitSet::with_capacity` returns a set of `capacity` bits, all of them
/// clear.
pub assume_specification[ FixedBitSet::with_capacity ](capacity: usize) -> (set: FixedBitSet)
    ensures
        bits(&set) == Seq::new(capacity as nat, |i: int| false),
        spare_clear(&set),
;

/// `FixedBitSet::set` writes `enabled` to bit `bit` and leaves every other
/// bit, the spare bits and the length as they were. It panics when `bit` is
/// not below the length.
pub assume_specification[ FixedBitSet::set ](set: &mut FixedBitSet, bit: usize, enabled: bool)
    requires
        bit < bits(old(set)).len(),
    ensures
        bits(final(set)) == bits(old(set)).update(bit as int, enabled),
        spare_clear(final(set)) == spare_clear(old(set)),
;

/// `FixedBitSet::contains` returns bit `bit` when `bit` is below the length.
/// When it is not, and the spare bits are clear, it returns `false`.
pub assume_specification[ FixedBitSet::contains ](set: &FixedBitSet, bit: usize) -> (enabled: bool)
    ensures
        bit < bits(set).len() ==> enabled == bits(set)[bit as int],
        bit >= bits(set).len() && spare_clear(set) ==> !enabled,
;

/// `FixedBitSet::clear` clears every bit, the spare bits too, and keeps the
/// length.
pub assume_specification[ FixedBitSet::clear ](set: &mut FixedBitSet)
    ensures
        bits(final(set)) == Seq::new(bits(old(set)).len(), |i: int| false),
        spare_clear(final(set)),
;

/// `FixedBitSet::as_slice` returns the blocks in which the set keeps its
/// bits, 32 to a block and lowest bit first. The spare bits of the set are
/// the bits of these blocks beyond its length.
pub assume_specification[ FixedBitSet::as_slice ](set: &FixedBitSet) -> (blocks: &[u32])
    ensures
        packs(blocks@, bits(set)),
        spare_clear(set) == spare_bits_clear(blocks@, bits(set)),
;

/// `Clone::clone` of a `FixedBitSet` returns a set of the same bits, spare
/// bits included.
pub assume_specification[ <FixedBitSet as Clone>::clone ](set: &FixedBitSet) -> (copy: FixedBitSet)
    ensures
        bits(&copy) == bits(set),
        spare_clear(&copy) == spare_clear(set),
;

} // verus!
