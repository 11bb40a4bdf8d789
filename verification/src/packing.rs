//! How cells are packed into blocks of 32 bits.

use vstd::prelude::*;

verus! {

/// Whether bit `j` of a block is set, bit 0 being the lowest.
pub open spec fn block_bit(block: u32, j: int) -> bool {
    block & (1u32 << (j as u32)) != 0
}

/// Whether the blocks hold the bits, 32 to a block: there are just enough
/// blocks for all the bits, and bit `j` of block `k` is bit `32 * k + j`.
pub open spec fn packs(blocks: Seq<u32>, bits: Seq<bool>) -> bool {
    &&& blocks.len() == (bits.len() + 31) / 32
    &&& forall|k: int, j: int|
        0 <= k < blocks.len() && 0 <= j < 32 && 32 * k + j < bits.len() ==> #[trigger] block_bit(
            blocks[k],
            j,
        ) == bits[32 * k + j]
}

/// Whether the bits of the blocks beyond the last of the bits are clear.
pub open spec fn spare_bits_clear(blocks: Seq<u32>, bits: Seq<bool>) -> bool {
    forall|k: int, j: int|
        0 <= k < blocks.len() && 0 <= j < 32 && 32 * k + j >= bits.len() ==> !#[trigger] block_bit(
            blocks[k],
            j,
        )
}

/// Two blocks with the same 32 bits are the same block.
pub proof fn lemma_block_by_bits(a: u32, b: u32)
    requires
        forall|j: int| 0 <= j < 32 ==> block_bit(a, j) == block_bit(b, j),
    ensures
        a == b,
{
    assert(block_bit(a, 0) == block_bit(b, 0));
    assert(block_bit(a, 1) == block_bit(b, 1));
    assert(block_bit(a, 2) == block_bit(b, 2));
    assert(block_bit(a, 3) == block_bit(b, 3));
    assert(block_bit(a, 4) == block_bit(b, 4));
    assert(block_bit(a, 5) == block_bit(b, 5));
    assert(block_bit(a, 6) == block_bit(b, 6));
    assert(block_bit(a, 7) == block_bit(b, 7));
    assert(block_bit(a, 8) == block_bit(b, 8));
    assert(block_bit(a, 9) == block_bit(b, 9));
    assert(block_bit(a, 10) == block_bit(b, 10));
    assert(block_bit(a, 11) == block_bit(b, 11));
    assert(block_bit(a, 12) == block_bit(b, 12));
    assert(block_bit(a, 13) == block_bit(b, 13));
    assert(block_bit(a, 14) == block_bit(b, 14));
    assert(block_bit(a, 15) == block_bit(b, 15));
    assert(block_bit(a, 16) == block_bit(b, 16));
    assert(block_bit(a, 17) == block_bit(b, 17));
    assert(block_bit(a, 18) == block_bit(b, 18));
    assert(block_bit(a, 19) == block_bit(b, 19));
    assert(block_bit(a, 20) == block_bit(b, 20));
    assert(block_bit(a, 21) == block_bit(b, 21));
    assert(block_bit(a, 22) == block_bit(b, 22));
    assert(block_bit(a, 23) == block_bit(b, 23));
    assert(block_bit(a, 24) == block_bit(b, 24));
    assert(block_bit(a, 25) == block_bit(b, 25));
    assert(block_bit(a, 26) == block_bit(b, 26));
    assert(block_bit(a, 27) == block_bit(b, 27));
    assert(block_bit(a, 28) == block_bit(b, 28));
    assert(block_bit(a, 29) == block_bit(b, 29));
    assert(block_bit(a, 30) == block_bit(b, 30));
    assert(block_bit(a, 31) == block_bit(b, 31));
    assert(a == b) by (bit_vector)
        requires
            (a & (1u32 << 0u32) != 0) == (b & (1u32 << 0u32) != 0),
            (a & (1u32 << 1u32) != 0) == (b & (1u32 << 1u32) != 0),
            (a & (1u32 << 2u32) != 0) == (b & (1u32 << 2u32) != 0),
            (a & (1u32 << 3u32) != 0) == (b & (1u32 << 3u32) != 0),
            (a & (1u32 << 4u32) != 0) == (b & (1u32 << 4u32) != 0),
            (a & (1u32 << 5u32) != 0) == (b & (1u32 << 5u32) != 0),
            (a & (1u32 << 6u32) != 0) == (b & (1u32 << 6u32) != 0),
            (a & (1u32 << 7u32) != 0) == (b & (1u32 << 7u32) != 0),
            (a & (1u32 << 8u32) != 0) == (b & (1u32 << 8u32) != 0),
            (a & (1u32 << 9u32) != 0) == (b & (1u32 << 9u32) != 0),
            (a & (1u32 << 10u32) != 0) == (b & (1u32 << 10u32) != 0),
            (a & (1u32 << 11u32) != 0) == (b & (1u32 << 11u32) != 0),
            (a & (1u32 << 12u32) != 0) == (b & (1u32 << 12u32) != 0),
            (a & (1u32 << 13u32) != 0) == (b & (1u32 << 13u32) != 0),
            (a & (1u32 << 14u32) != 0) == (b & (1u32 << 14u32) != 0),
            (a & (1u32 << 15u32) != 0) == (b & (1u32 << 15u32) != 0),
            (a & (1u32 << 16u32) != 0) == (b & (1u32 << 16u32) != 0),
            (a & (1u32 << 17u32) != 0) == (b & (1u32 << 17u32) != 0),
            (a & (1u32 << 18u32) != 0) == (b & (1u32 << 18u32) != 0),
            (a & (1u32 << 19u32) != 0) == (b & (1u32 << 19u32) != 0),
            (a & (1u32 << 20u32) != 0) == (b & (1u32 << 20u32) != 0),
            (a & (1u32 << 21u32) != 0) == (b & (1u32 << 21u32) != 0),
            (a & (1u32 << 22u32) != 0) == (b & (1u32 << 22u32) != 0),
            (a & (1u32 << 23u32) != 0) == (b & (1u32 << 23u32) != 0),
            (a & (1u32 << 24u32) != 0) == (b & (1u32 << 24u32) != 0),
            (a & (1u32 << 25u32) != 0) == (b & (1u32 << 25u32) != 0),
            (a & (1u32 << 26u32) != 0) == (b & (1u32 << 26u32) != 0),
            (a & (1u32 << 27u32) != 0) == (b & (1u32 << 27u32) != 0),
            (a & (1u32 << 28u32) != 0) == (b & (1u32 << 28u32) != 0),
            (a & (1u32 << 29u32) != 0) == (b & (1u32 << 29u32) != 0),
            (a & (1u32 << 30u32) != 0) == (b & (1u32 << 30u32) != 0),
            (a & (1u32 << 31u32) != 0) == (b & (1u32 << 31u32) != 0),
    ;
}

/// The cells determine the blocks: two packings of the same cells that set
/// no other bit are block for block the same.
pub proof fn lemma_one_packing(first: Seq<u32>, second: Seq<u32>, bits: Seq<bool>)
    requires
        packs(first, bits),
        spare_bits_clear(first, bits),
        packs(second, bits),
        spare_bits_clear(second, bits),
    ensures
        first == second,
{
    assert forall|k: int| 0 <= k < first.len() implies first[k] == second[k] by {
        assert forall|j: int| 0 <= j < 32 implies block_bit(first[k], j) == block_bit(
            second[k],
            j,
        ) by {
            if 32 * k + j < bits.len() {
                assert(block_bit(first[k], j) == bits[32 * k + j]);
                assert(block_bit(second[k], j) == bits[32 * k + j]);
            } else {
                assert(!block_bit(first[k], j));
                assert(!block_bit(second[k], j));
            }
        }
        lemma_block_by_bits(first[k], second[k]);
    }
    assert(first =~= second);
}

} // verus!
