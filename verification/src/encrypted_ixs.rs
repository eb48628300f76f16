//! The deal circuit as the `encrypted-ixs` build names it: the same shuffle and
//! the same XOR masking of hole cards as `arcium_compute`, over its own input type.
use vstd::prelude::*;
use crate::arcium_compute;

verus! {

/// What the circuit receives, decrypted inside the computation.
#[derive(Clone, Copy, Debug, PartialEq, Eq)]
pub struct DeckInput {
    /// Combined entropy: salt_a XOR salt_b, computed and encrypted by the client.
    pub seed: u64,
    /// Player A's secret mask: only A knows this value.
    pub p1_mask: u64,
    /// Player B's secret mask: only B knows this value.
    pub p2_mask: u64,
}

/// The same input, as `arcium_compute` takes it.
pub open spec fn as_compute_input(input: DeckInput) -> arcium_compute::DeckInput {
    arcium_compute::DeckInput { seed: input.seed, p1_mask: input.p1_mask, p2_mask: input.p2_mask }
}

/// What the circuit reveals: four hole cards masked by XOR with their owner's
/// mask, then the five community cards, from the shuffle of `arcium_compute`.
pub open spec fn dealt_cards(input: DeckInput) -> Seq<u64> {
    arcium_compute::dealt_cards(as_compute_input(input))
}

/// Shuffles the deck from the seed and deals: `[0..2]` are player A's hole cards
/// masked with `p1_mask`, `[2..4]` player B's masked with `p2_mask`, `[4..9]` the
/// community cards (flop, turn, river) in plain.
pub fn deal_cards(input: DeckInput) -> (dealt: [u64; 9])
    ensures
        dealt@ == dealt_cards(input),
{
    arcium_compute::deal_cards(
        arcium_compute::DeckInput { seed: input.seed, p1_mask: input.p1_mask, p2_mask: input.p2_mask },
    )
}

} // verus!
