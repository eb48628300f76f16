//! The deck shuffle of the deal circuit: a linear congruential generator that
//! drives a partial Fisher-Yates shuffle built from oblivious swaps.
use vstd::prelude::*;

verus! {

/// Number of cards in the deck; cards are numbered 0 to 51.
pub const DECK_SIZE: usize = 52;

/// Multiplier of the generator (Knuth's MMIX).
pub const LCG_MULTIPLIER: u64 = 6_364_136_223_846_793_005;

/// Increment of the generator (Knuth's MMIX).
pub const LCG_INCREMENT: u64 = 1_442_695_040_888_963_407;

/// One step of the generator, modulo 2^64.
#[verifier::opaque]
pub open spec fn lcg_step(x: u64) -> u64 {
    x.wrapping_mul(LCG_MULTIPLIER).wrapping_add(LCG_INCREMENT)
}

/// The generator's output for shuffle step `n` (0-based): the seed stepped `n + 1` times.
pub open spec fn lcg_state(seed: u64, n: nat) -> u64
    decreases n,
{
    if n == 0 {
        lcg_step(seed)
    } else {
        lcg_step(lcg_state(seed, (n - 1) as nat))
    }
}

/// The random draw of shuffle step `n`: the high bits of the generator, modulo the
/// number of cards not yet placed.
pub open spec fn lcg_draw(seed: u64, n: nat) -> u64 {
    (lcg_state(seed, n) >> 33u64) % ((52 - n) as u64)
}

/// Advances the generator by one step.
pub fn lcg_next(x: u64) -> (r: u64)
    ensures
        r == lcg_step(x),
{
    proof {
        reveal(lcg_step);
    }
    x.wrapping_mul(LCG_MULTIPLIER).wrapping_add(LCG_INCREMENT)
}

/// The deck in order: position `i` holds card `i`.
pub open spec fn initial_deck() -> Seq<u64> {
    Seq::new(52, |i: int| i as u64)
}

/// Swaps positions `pos` and `j` when `pos <= j < 52`; leaves the deck alone otherwise.
pub open spec fn swap_at(deck: Seq<u64>, pos: int, j: u64) -> Seq<u64> {
    if pos <= j < 52 {
        deck.update(pos, deck[j as int]).update(j as int, deck[pos])
    } else {
        deck
    }
}

/// The deck after the first `n` shuffle steps, step `i` swapping position `i` with `targets[i]`.
pub open spec fn deck_after(targets: Seq<u64>, n: nat) -> Seq<u64>
    decreases n,
{
    if n == 0 {
        initial_deck()
    } else {
        swap_at(deck_after(targets, (n - 1) as nat), n - 1, targets[n - 1])
    }
}

/// A full deck: 52 positions holding 52 different cards, each below 52.
pub open spec fn is_full_deck(d: Seq<u64>) -> bool {
    &&& d.len() == 52
    &&& forall|i: int| 0 <= i < 52 ==> #[trigger] d[i] < 52
    &&& forall|i: int, j: int| 0 <= i < j < 52 ==> #[trigger] d[i] != #[trigger] d[j]
}

/// Swapping two positions of a full deck gives a full deck.
pub proof fn lemma_swap_keeps_full_deck(d: Seq<u64>, pos: int, j: u64)
    requires
        is_full_deck(d),
        0 <= pos < 52,
    ensures
        is_full_deck(swap_at(d, pos, j)),
{
    let s = swap_at(d, pos, j);
    assert forall|a: int, b: int| 0 <= a < b < 52 implies #[trigger] s[a] != #[trigger] s[b] by {
        if pos <= j < 52 {
            let ja = if a == j as int { pos } else if a == pos { j as int } else { a };
            let jb = if b == j as int { pos } else if b == pos { j as int } else { b };
            assert(s[a] == d[ja]);
            assert(s[b] == d[jb]);
            if ja < jb {
                assert(d[ja] != d[jb]);
            } else {
                assert(d[jb] != d[ja]);
            }
        }
    }
}

/// A swap step exchanges position `pos` with any position `j` from `pos` to
/// 51, the last position included: the card at `j` comes to `pos`, the card at
/// `pos` goes to `j`, and every other position keeps its card.
pub proof fn lemma_swap_exchanges(deck: Seq<u64>, pos: int, j: u64)
    requires
        deck.len() == 52,
        0 <= pos <= j < 52,
    ensures
        swap_at(deck, pos, j).len() == 52,
        swap_at(deck, pos, j)[pos] == deck[j as int],
        swap_at(deck, pos, j)[j as int] == deck[pos],
        forall|k: int| 0 <= k < 52 && k != pos && k != j ==> #[trigger] swap_at(deck, pos, j)[k] == deck[k],
{
}

/// Every shuffle, whatever its targets, leaves a full deck: no card is lost or doubled.
pub proof fn lemma_shuffle_keeps_full_deck(targets: Seq<u64>, n: nat)
    requires
        n <= 52,
    ensures
        is_full_deck(deck_after(targets, n)),
    decreases n,
{
    if n == 0 {
        let d = initial_deck();
        assert forall|i: int, j: int| 0 <= i < j < 52 implies #[trigger] d[i] != #[trigger] d[j] by {
        }
    } else {
        lemma_shuffle_keeps_full_deck(targets, (n - 1) as nat);
        lemma_swap_keeps_full_deck(deck_after(targets, (n - 1) as nat), n - 1, targets[n - 1]);
    }
}

/// The deck in order, card `i` at position `i`.
pub fn new_deck() -> (deck: [u64; 52])
    ensures
        deck@ == initial_deck(),
{
    let mut deck = [0u64; 52];
    for i in 0..52
        invariant
            deck@.len() == 52,
            forall|k: int| 0 <= k < i ==> deck@[k] == k as u64,
    {
        deck[i] = i as u64;
    }
    assert(deck@ =~= initial_deck());
    deck
}

/// Swaps `deck[pos]` with `deck[j]` when `pos <= j < 52`, touching every position
/// from `pos` on so that the work done does not depend on `j`.
pub fn oblivious_swap(deck: &mut [u64; 52], pos: usize, j: u64)
    requires
        pos < 52,
    ensures
        final(deck)@ == swap_at(old(deck)@, pos as int, j),
        pos <= j < 52 ==> final(deck)@[pos as int] == old(deck)@[j as int] && final(deck)@[j as int]
            == old(deck)@[pos as int],
{
    let d = deck[pos];
    let mut k = pos;
    while k < 52
        invariant
            pos <= k <= 52,
            d == old(deck)@[pos as int],
            deck@ == if pos <= j < k {
                swap_at(old(deck)@, pos as int, j)
            } else {
                old(deck)@
            },
        decreases 52 - k,
    {
        let dk = deck[k];
        if j == k as u64 {
            deck[pos] = dk;
            deck[k] = d;
            assert(deck@ =~= swap_at(old(deck)@, pos as int, j));
        }
        k = k + 1;
    }
}


/// Swaps position 0 with position `j` of the deck when 0 <= `j` < 52.
pub fn oblivious_swap_0(deck: &mut [u64; 52], j: u64)
    ensures
        final(deck)@ == swap_at(old(deck)@, 0, j),
{
    oblivious_swap(deck, 0, j);
}

/// Swaps position 1 with position `j` of the deck when 1 <= `j` < 52.
pub fn oblivious_swap_1(deck: &mut [u64; 52], j: u64)
    ensures
        final(deck)@ == swap_at(old(deck)@, 1, j),
{
    oblivious_swap(deck, 1, j);
}

/// Swaps position 2 with position `j` of the deck when 2 <= `j` < 52.
pub fn oblivious_swap_2(deck: &mut [u64; 52], j: u64)
    ensures
        final(deck)@ == swap_at(old(deck)@, 2, j),
{
    oblivious_swap(deck, 2, j);
}

/// Swaps position 3 with position `j` of the deck when 3 <= `j` < 52.
pub fn oblivious_swap_3(deck: &mut [u64; 52], j: u64)
    ensures
        final(deck)@ == swap_at(old(deck)@, 3, j),
{
    oblivious_swap(deck, 3, j);
}

/// Swaps position 4 with position `j` of the deck when 4 <= `j` < 52.
pub fn oblivious_swap_4(deck: &mut [u64; 52], j: u64)
    ensures
        final(deck)@ == swap_at(old(deck)@, 4, j),
{
    oblivious_swap(deck, 4, j);
}

/// Swaps position 5 with position `j` of the deck when 5 <= `j` < 52.
pub fn oblivious_swap_5(deck: &mut [u64; 52], j: u64)
    ensures
        final(deck)@ == swap_at(old(deck)@, 5, j),
{
    oblivious_swap(deck, 5, j);
}

/// Swaps position 6 with position `j` of the deck when 6 <= `j` < 52.
pub fn oblivious_swap_6(deck: &mut [u64; 52], j: u64)
    ensures
        final(deck)@ == swap_at(old(deck)@, 6, j),
{
    oblivious_swap(deck, 6, j);
}

/// Swaps position 7 with position `j` of the deck when 7 <= `j` < 52.
pub fn oblivious_swap_7(deck: &mut [u64; 52], j: u64)
    ensures
        final(deck)@ == swap_at(old(deck)@, 7, j),
{
    oblivious_swap(deck, 7, j);
}

/// Swaps position 8 with position `j` of the deck when 8 <= `j` < 52.
pub fn oblivious_swap_8(deck: &mut [u64; 52], j: u64)
    ensures
        final(deck)@ == swap_at(old(deck)@, 8, j),
{
    oblivious_swap(deck, 8, j);
}

} // verus!
