//! The deal circuit: shuffles from the players' combined seed (a partial
//! Fisher-Yates shuffle) and masks each player's hole cards with that player's
//! secret by XOR.
use vstd::prelude::*;
use crate::shuffle::{
    deck_after, is_full_deck, lcg_draw, lcg_next, lcg_state, lemma_shuffle_keeps_full_deck, new_deck,
    lemma_swap_exchanges,
    oblivious_swap_0, oblivious_swap_1, oblivious_swap_2, oblivious_swap_3, oblivious_swap_4,
    oblivious_swap_5, oblivious_swap_6, oblivious_swap_7, oblivious_swap_8,
};

verus! {

/// What the circuit receives, decrypted inside the computation.
#[derive(Clone, Copy, Debug, PartialEq, Eq)]
pub struct DeckInput {
    /// Combined entropy: salt_a XOR salt_b, computed and encrypted by the client.
    pub seed: u64,
    /// Player A's secret mask: only A knows this value.
    pub p1_mask: u64,
    /// Player B's secret mask: only B knows this value.
    pub p2_mask: u64,
}

/// The positions that the nine shuffle steps swap with, drawn from `seed`:
/// step `n` swaps position `n` with a position drawn from `n` to 51, as in a
/// Fisher-Yates shuffle.
pub open spec fn swap_targets(seed: u64) -> Seq<u64> {
    Seq::new(9, |n: int| (lcg_draw(seed, n as nat) + n) as u64)
}

/// The deck after the nine shuffle steps; positions 0 to 8 are dealt.
pub open spec fn shuffled_deck(seed: u64) -> Seq<u64> {
    deck_after(swap_targets(seed), 9)
}

/// A hole card masked with its owner's mask by XOR.
pub open spec fn mask_card(card: u64, mask: u64) -> u64 {
    card ^ mask
}

/// What the circuit reveals: four masked hole cards, then the five community cards.
pub open spec fn dealt_cards(input: DeckInput) -> Seq<u64> {
    let d = shuffled_deck(input.seed);
    seq![
        mask_card(d[0], input.p1_mask),
        mask_card(d[1], input.p1_mask),
        mask_card(d[2], input.p2_mask),
        mask_card(d[3], input.p2_mask),
        d[4],
        d[5],
        d[6],
        d[7],
        d[8],
    ]
}

/// The deal draws nine different cards of the deck, whatever the seed.
pub proof fn lemma_dealt_cards_are_distinct(seed: u64)
    ensures
        is_full_deck(shuffled_deck(seed)),
        forall|i: int| 0 <= i < 9 ==> #[trigger] shuffled_deck(seed)[i] < 52,
        forall|i: int, j: int|
            0 <= i < j < 9 ==> #[trigger] shuffled_deck(seed)[i] != #[trigger] shuffled_deck(seed)[j],
{
    lemma_shuffle_keeps_full_deck(swap_targets(seed), 9);
}

/// Step `n` of the deal (one of the nine) exchanges position `n` with its drawn
/// target, a position from `n` to 51 with the last included: the card placed at
/// `n` is the one that lay at the target, and the card that lay at `n` moves
/// there.
pub proof fn lemma_deal_step_exchanges(seed: u64, n: nat)
    requires
        n < 9,
    ensures
        ({
            let j = swap_targets(seed)[n as int];
            let before = deck_after(swap_targets(seed), n);
            let after = deck_after(swap_targets(seed), n + 1);
            &&& n <= j < 52
            &&& after[n as int] == before[j as int]
            &&& after[j as int] == before[n as int]
        }),
{
    let j = swap_targets(seed)[n as int];
    assert(lcg_draw(seed, n) < 52 - n);
    lemma_shuffle_keeps_full_deck(swap_targets(seed), n);
    lemma_swap_exchanges(deck_after(swap_targets(seed), n), n as int, j);
}

/// XOR with the same mask twice gives the value back.
pub proof fn lemma_xor_twice(x: u64, m: u64)
    ensures
        (x ^ m) ^ m == x,
{
    assert((x ^ m) ^ m == x) by (bit_vector);
}

/// Only the owner's mask unmasks a hole card: XOR with any other mask gives a
/// different value.
pub proof fn lemma_only_own_mask_unmasks(card: u64, mask: u64, other_mask: u64)
    ensures
        (mask_card(card, mask) ^ other_mask == card) <==> (other_mask == mask),
{
    assert(((card ^ mask) ^ other_mask == card) <==> (other_mask == mask)) by (bit_vector);
}

/// Each player gets their own hole cards back by XOR of the masked values with
/// their mask; the community cards are dealt in plain.
pub proof fn lemma_unmask_recovers_hole_cards(input: DeckInput)
    ensures
        dealt_cards(input)[0] ^ input.p1_mask == shuffled_deck(input.seed)[0],
        dealt_cards(input)[1] ^ input.p1_mask == shuffled_deck(input.seed)[1],
        dealt_cards(input)[2] ^ input.p2_mask == shuffled_deck(input.seed)[2],
        dealt_cards(input)[3] ^ input.p2_mask == shuffled_deck(input.seed)[3],
        forall|i: int| 4 <= i < 9 ==> #[trigger] dealt_cards(input)[i] == shuffled_deck(input.seed)[i],
{
    let d = shuffled_deck(input.seed);
    lemma_xor_twice(d[0], input.p1_mask);
    lemma_xor_twice(d[1], input.p1_mask);
    lemma_xor_twice(d[2], input.p2_mask);
    lemma_xor_twice(d[3], input.p2_mask);
}

/// Shuffles the deck from the seed and deals: `[0..2]` are player A's hole cards
/// masked with `p1_mask`, `[2..4]` player B's masked with `p2_mask`, `[4..9]` the
/// community cards (flop, turn, river) in plain.
pub fn deal_cards(input: DeckInput) -> (dealt: [u64; 9])
    ensures
        dealt@ == dealt_cards(input),
{
    let inp = input;
    let ghost targets = swap_targets(inp.seed);
    let mut deck = new_deck();
    assert(deck@ == deck_after(targets, 0));

    let r0 = lcg_next(inp.seed);
    assert(r0 == lcg_state(inp.seed, 0));
    let j0 = (r0 >> 33) % 52u64;
    assert(targets[0] == j0);
    oblivious_swap_0(&mut deck, j0);
    assert(deck@ == deck_after(targets, 1));

    let r1 = lcg_next(r0);
    assert(r1 == lcg_state(inp.seed, 1));
    let j1 = (r1 >> 33) % 51u64;
    assert(targets[1] == (j1 + 1) as u64);
    oblivious_swap_1(&mut deck, j1 + 1);
    assert(deck@ == deck_after(targets, 2));

    let r2 = lcg_next(r1);
    assert(r2 == lcg_state(inp.seed, 2));
    let j2 = (r2 >> 33) % 50u64;
    assert(targets[2] == (j2 + 2) as u64);
    oblivious_swap_2(&mut deck, j2 + 2);
    assert(deck@ == deck_after(targets, 3));

    let r3 = lcg_next(r2);
    assert(r3 == lcg_state(inp.seed, 3));
    let j3 = (r3 >> 33) % 49u64;
    assert(targets[3] == (j3 + 3) as u64);
    oblivious_swap_3(&mut deck, j3 + 3);
    assert(deck@ == deck_after(targets, 4));

    let r4 = lcg_next(r3);
    assert(r4 == lcg_state(inp.seed, 4));
    let j4 = (r4 >> 33) % 48u64;
    assert(targets[4] == (j4 + 4) as u64);
    oblivious_swap_4(&mut deck, j4 + 4);
    assert(deck@ == deck_after(targets, 5));

    let r5 = lcg_next(r4);
    assert(r5 == lcg_state(inp.seed, 5));
    let j5 = (r5 >> 33) % 47u64;
    assert(targets[5] == (j5 + 5) as u64);
    oblivious_swap_5(&mut deck, j5 + 5);
    assert(deck@ == deck_after(targets, 6));

    let r6 = lcg_next(r5);
    assert(r6 == lcg_state(inp.seed, 6));
    let j6 = (r6 >> 33) % 46u64;
    assert(targets[6] == (j6 + 6) as u64);
    oblivious_swap_6(&mut deck, j6 + 6);
    assert(deck@ == deck_after(targets, 7));

    let r7 = lcg_next(r6);
    assert(r7 == lcg_state(inp.seed, 7));
    let j7 = (r7 >> 33) % 45u64;
    assert(targets[7] == (j7 + 7) as u64);
    oblivious_swap_7(&mut deck, j7 + 7);
    assert(deck@ == deck_after(targets, 8));

    let r8 = lcg_next(r7);
    assert(r8 == lcg_state(inp.seed, 8));
    let j8 = (r8 >> 33) % 44u64;
    assert(targets[8] == (j8 + 8) as u64);
    oblivious_swap_8(&mut deck, j8 + 8);
    assert(deck@ == deck_after(targets, 9));

    let dealt = [
        deck[0] ^ inp.p1_mask,
        deck[1] ^ inp.p1_mask,
        deck[2] ^ inp.p2_mask,
        deck[3] ^ inp.p2_mask,
        deck[4],
        deck[5],
        deck[6],
        deck[7],
        deck[8],
    ];
    assert(dealt@ =~= dealt_cards(inp));
    dealt
}

} // verus!
