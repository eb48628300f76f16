//! Poker hand evaluation: the score of five cards and the best five of seven,
//! by the standard ranking of poker hands.
use vstd::prelude::*;
use vstd::relations::{sorted_by, total_ordering};
use vstd::seq_lib::lemma_sorted_unique;

verus! {

broadcast use vstd::seq_lib::group_to_multiset_ensures, vstd::multiset::group_multiset_axioms;

/// Distance between two hand categories in the score; every tie-break is below it.
pub const CATEGORY_WEIGHT: u64 = 10_000_000_000;

/// The order in which ranks are sorted: ascending.
pub open spec fn rank_leq() -> spec_fn(u64, u64) -> bool {
    |x: u64, y: u64| x <= y
}

/// Rank of a card: 0 is a two, 12 is an ace.
pub open spec fn card_rank(c: u8) -> u64 {
    (c % 13) as u64
}

/// Suit of a card.
pub open spec fn card_suit(c: u8) -> u64 {
    (c / 13) as u64
}

/// The ranks of the cards of a hand, in the hand's order.
pub open spec fn hand_ranks(hand: Seq<u8>) -> Seq<u64> {
    hand.map_values(|c: u8| card_rank(c))
}

/// The ranks of a hand in ascending order.
pub open spec fn sorted_ranks(hand: Seq<u8>) -> Seq<u64> {
    hand_ranks(hand).sort_by(rank_leq())
}

/// All cards of the hand share one suit.
pub open spec fn is_flush(hand: Seq<u8>) -> bool {
    forall|i: int| 0 <= i < hand.len() ==> #[trigger] card_suit(hand[i]) == card_suit(hand[0])
}

/// Five ascending ranks form a straight: five in a row, or the wheel A-2-3-4-5.
pub open spec fn is_straight(s: Seq<u64>) -> bool {
    ||| (s[1] == s[0] + 1 && s[2] == s[0] + 2 && s[3] == s[0] + 3 && s[4] == s[0] + 4)
    ||| (s[0] == 0 && s[1] == 1 && s[2] == 2 && s[3] == 3 && s[4] == 12)
}

/// The weight that orders straights, from ascending ranks: the ranks weighted
/// as `kicker_weight` does, except that in the wheel A-2-3-4-5 the ace plays
/// low, counting one below the two, so the wheel is the lowest straight.
pub open spec fn straight_weight(s: Seq<u64>) -> int {
    if s[0] == 0 && s[4] == 12 {
        3 * 371_293 + 2 * 28_561 + 1 * 2_197 + 0 * 169 - 13
    } else {
        kicker_weight(s)
    }
}

/// How many times rank `r` occurs in `ranks`.
pub open spec fn rank_count(ranks: Seq<u64>, r: u64) -> nat
    decreases ranks.len(),
{
    if ranks.len() == 0 {
        0
    } else {
        rank_count(ranks.drop_last(), r) + if ranks.last() == r {
            1nat
        } else {
            0nat
        }
    }
}

/// How many ranks below `n` occur exactly `k` times in `ranks`.
pub open spec fn ranks_with_count(ranks: Seq<u64>, k: nat, n: nat) -> nat
    decreases n,
{
    if n == 0 {
        0
    } else {
        ranks_with_count(ranks, k, (n - 1) as nat) + if rank_count(ranks, (n - 1) as u64) == k {
            1nat
        } else {
            0nat
        }
    }
}

/// The highest rank below `n` that occurs exactly `k` times in `ranks` (0 if none does).
pub open spec fn top_rank_with_count(ranks: Seq<u64>, k: nat, n: nat) -> u64
    decreases n,
{
    if n == 0 {
        0
    } else if rank_count(ranks, (n - 1) as u64) == k {
        (n - 1) as u64
    } else {
        top_rank_with_count(ranks, k, (n - 1) as nat)
    }
}

/// The lowest rank below `n` that occurs exactly `k` times in `ranks` (0 if none does).
pub open spec fn bottom_rank_with_count(ranks: Seq<u64>, k: nat, n: nat) -> u64
    decreases n,
{
    if n == 0 {
        0
    } else if ranks_with_count(ranks, k, (n - 1) as nat) > 0 {
        bottom_rank_with_count(ranks, k, (n - 1) as nat)
    } else if rank_count(ranks, (n - 1) as u64) == k {
        (n - 1) as u64
    } else {
        0
    }
}

/// Number of pairs in the hand.
pub open spec fn pair_count(hand: Seq<u8>) -> nat {
    ranks_with_count(hand_ranks(hand), 2, 13)
}

/// The hand holds three of a kind.
pub open spec fn has_trips(hand: Seq<u8>) -> bool {
    ranks_with_count(hand_ranks(hand), 3, 13) > 0
}

/// The hand holds four of a kind.
pub open spec fn has_quads(hand: Seq<u8>) -> bool {
    ranks_with_count(hand_ranks(hand), 4, 13) > 0
}

/// The category of a five-card hand, from 0 (high card) to 8 (straight flush).
pub open spec fn hand_category(hand: Seq<u8>) -> nat {
    let flush = is_flush(hand);
    let straight = is_straight(sorted_ranks(hand));
    if flush && straight {
        8
    } else if has_quads(hand) {
        7
    } else if has_trips(hand) && pair_count(hand) == 1 {
        6
    } else if flush {
        5
    } else if straight {
        4
    } else if has_trips(hand) {
        3
    } else if pair_count(hand) == 2 {
        2
    } else if pair_count(hand) == 1 {
        1
    } else {
        0
    }
}

/// Weight of a made set (quads, trips, the high pair) in the tie-break.
pub const SET_WEIGHT: u64 = 100_000_000;

/// Weight of the low pair of two pair in the tie-break.
pub const LOW_PAIR_WEIGHT: u64 = 1_000_000;

/// The ascending ranks weighted by powers of 13, highest rank weighing most:
/// it orders hands by their ranks compared from the highest down.
pub open spec fn kicker_weight(s: Seq<u64>) -> int {
    s[4] * 371_293 + s[3] * 28_561 + s[2] * 2_197 + s[1] * 169 + s[0] * 13
}

/// The score that orders hands of one category: a straight (flush) by its top
/// card, the ace low in the wheel; four of a kind by the quads, then the
/// kicker; a full house by the trips, then the pair; three of a kind by the
/// trips, then the kickers; two pair by the high pair, the low pair, then the
/// kicker; one pair by the pair, then the kickers; a flush or high card by all
/// five ranks from the highest down.
pub open spec fn hand_tiebreak(hand: Seq<u8>) -> int {
    let r = hand_ranks(hand);
    let s = sorted_ranks(hand);
    let tb = kicker_weight(s);
    let c = hand_category(hand);
    if c == 8 || c == 4 {
        straight_weight(s)
    } else if c == 7 {
        top_rank_with_count(r, 4, 13) * SET_WEIGHT + tb
    } else if c == 6 {
        top_rank_with_count(r, 3, 13) * SET_WEIGHT + top_rank_with_count(r, 2, 13)
    } else if c == 3 {
        top_rank_with_count(r, 3, 13) * SET_WEIGHT + tb
    } else if c == 2 {
        top_rank_with_count(r, 2, 13) * SET_WEIGHT + bottom_rank_with_count(r, 2, 13) * LOW_PAIR_WEIGHT
            + top_rank_with_count(r, 1, 13)
    } else if c == 1 {
        top_rank_with_count(r, 2, 13) * SET_WEIGHT + tb
    } else {
        tb
    }
}

/// The score of a five-card hand: a higher score wins.
#[verifier::opaque]
pub open spec fn hand_score(hand: Seq<u8>) -> int {
    hand_category(hand) * CATEGORY_WEIGHT + hand_tiebreak(hand)
}

proof fn lemma_rank_leq_total()
    ensures
        total_ordering(rank_leq()),
{
}

proof fn lemma_swap_multiset(s: Seq<u64>, i: int, j: int)
    requires
        0 <= i < s.len(),
        0 <= j < s.len(),
    ensures
        s.update(i, s[j]).update(j, s[i]).to_multiset() =~= s.to_multiset(),
{
    let t = s.update(i, s[j]);
    assert(t.to_multiset() == s.to_multiset().insert(s[j]).remove(s[i]));
    assert(t.update(j, s[i]).to_multiset() == t.to_multiset().insert(s[i]).remove(t[j]));
}

/// Puts the smaller of `a[i]` and `a[j]` at `i` and the larger at `j`.
fn order_pair(a: &mut [u64; 5], i: usize, j: usize)
    requires
        i < j < 5,
    ensures
        final(a)@[i as int] == if old(a)@[i as int] <= old(a)@[j as int] { old(a)@[i as int] } else { old(a)@[j as int] },
        final(a)@[j as int] == if old(a)@[i as int] <= old(a)@[j as int] { old(a)@[j as int] } else { old(a)@[i as int] },
        forall|k: int| 0 <= k < 5 && k != i && k != j ==> final(a)@[k] == old(a)@[k],
        final(a)@.to_multiset() == old(a)@.to_multiset(),
{
    if a[i] > a[j] {
        proof {
            lemma_swap_multiset(a@, i as int, j as int);
        }
        let t = a[i];
        a[i] = a[j];
        a[j] = t;
        assert(a@ =~= old(a)@.update(i as int, old(a)@[j as int]).update(j as int, old(a)@[i as int]));
    }
}

/// Sorts five values in ascending order.
fn sort_five(values: [u64; 5]) -> (s: [u64; 5])
    ensures
        s@ == values@.sort_by(rank_leq()),
        forall|i: int| 0 <= i < 5 ==> values@.contains(#[trigger] s@[i]),
{
    let mut a = values;
    order_pair(&mut a, 0, 1);
    order_pair(&mut a, 3, 4);
    order_pair(&mut a, 2, 4);
    order_pair(&mut a, 2, 3);
    order_pair(&mut a, 1, 4);
    order_pair(&mut a, 0, 3);
    order_pair(&mut a, 0, 2);
    order_pair(&mut a, 1, 3);
    order_pair(&mut a, 1, 2);
    proof {
        assert(a@[0] <= a@[1] <= a@[2] <= a@[3] <= a@[4]);
        assert(sorted_by(a@, rank_leq()));
        lemma_rank_leq_total();
        values@.lemma_sort_by_ensures(rank_leq());
        lemma_sorted_unique(a@, values@.sort_by(rank_leq()), rank_leq());
        assert forall|i: int| 0 <= i < 5 implies values@.contains(#[trigger] a@[i]) by {
            assert(a@.to_multiset().contains(a@[i]));
        }
    }
    a
}

/// How often each of the 13 ranks occurs among five ranks.
fn rank_frequencies(ranks: &[u64; 5]) -> (freq: [u64; 13])
    requires
        forall|i: int| 0 <= i < 5 ==> ranks@[i] < 13,
    ensures
        forall|r: int| 0 <= r < 13 ==> freq@[r] == rank_count(ranks@, r as u64),
        forall|r: int| 0 <= r < 13 ==> freq@[r] <= 5,
{
    let mut freq = [0u64; 13];
    for i in 0..5
        invariant
            forall|k: int| 0 <= k < 5 ==> ranks@[k] < 13,
            forall|r: int| 0 <= r < 13 ==> freq@[r] == rank_count(ranks@.take(i as int), r as u64),
            forall|r: int| 0 <= r < 13 ==> freq@[r] <= i,
    {
        let r = ranks[i] as usize;
        proof {
            assert(ranks@.take(i as int + 1).drop_last() =~= ranks@.take(i as int));
            assert(ranks@.take(i as int + 1).last() == ranks@[i as int]);
        }
        freq[r] = freq[r] + 1;
    }
    assert(ranks@.take(5) =~= ranks@);
    freq
}

/// Scores five cards by the standard ranking; of two hands the one with the
/// higher score wins, and equal scores tie.
///
/// A card `c` has rank `c % 13` and suit `c / 13`. Categories, from the top:
/// straight flush, four of a kind, full house, flush, straight, three of a
/// kind, two pair, one pair, high card; within a category see `hand_tiebreak`.
pub fn eval_five(hand: [u8; 5]) -> (score: u64)
    ensures
        score == hand_score(hand@),
{
    reveal(hand_score);
    let ranks: [u64; 5] = [
        (hand[0] % 13) as u64,
        (hand[1] % 13) as u64,
        (hand[2] % 13) as u64,
        (hand[3] % 13) as u64,
        (hand[4] % 13) as u64,
    ];
    let suits: [u64; 5] = [
        (hand[0] / 13) as u64,
        (hand[1] / 13) as u64,
        (hand[2] / 13) as u64,
        (hand[3] / 13) as u64,
        (hand[4] / 13) as u64,
    ];
    proof {
        assert(ranks@ =~= hand_ranks(hand@));
    }
    let is_flush = suits[0] == suits[1] && suits[1] == suits[2] && suits[2] == suits[3]
        && suits[3] == suits[4];
    proof {
        if is_flush {
            assert forall|i: int| 0 <= i < 5 implies #[trigger] card_suit(hand@[i]) == card_suit(hand@[0]) by {
                assert(card_suit(hand@[i]) == suits@[i]);
            }
        } else {
            assert(!(card_suit(hand@[1]) == card_suit(hand@[0]) && card_suit(hand@[2]) == card_suit(hand@[0])
                && card_suit(hand@[3]) == card_suit(hand@[0]) && card_suit(hand@[4]) == card_suit(hand@[0])));
        }
    }

    let sorted = sort_five(ranks);
    proof {
        assert forall|i: int| 0 <= i < 5 implies sorted@[i] < 13 by {
            assert(ranks@.contains(sorted@[i]));
        }
    }

    let is_straight_high = sorted[4] == sorted[0] + 4 && sorted[1] == sorted[0] + 1 && sorted[2]
        == sorted[0] + 2 && sorted[3] == sorted[0] + 3;
    let is_straight_low = sorted[0] == 0 && sorted[1] == 1 && sorted[2] == 2 && sorted[3] == 3
        && sorted[4] == 12;
    let is_straight = is_straight_high || is_straight_low;

    let freq = rank_frequencies(&ranks);

    let mut pairs: u64 = 0;
    let mut trips: u64 = 0;
    let mut quads: u64 = 0;
    let mut pair_rank: u64 = 0;
    let mut low_pair_rank: u64 = 0;
    let mut single_rank: u64 = 0;
    let mut trip_rank: u64 = 0;
    let mut quad_rank: u64 = 0;
    let mut i: usize = 0;
    while i < 13
        invariant
            i <= 13,
            forall|r: int| 0 <= r < 13 ==> freq@[r] == rank_count(ranks@, r as u64),
            pairs == ranks_with_count(ranks@, 2, i as nat),
            pairs <= i,
            pair_rank == top_rank_with_count(ranks@, 2, i as nat),
            low_pair_rank == bottom_rank_with_count(ranks@, 2, i as nat),
            single_rank == top_rank_with_count(ranks@, 1, i as nat),
            trips == if ranks_with_count(ranks@, 3, i as nat) > 0 { 1u64 } else { 0u64 },
            trip_rank == top_rank_with_count(ranks@, 3, i as nat),
            quads == if ranks_with_count(ranks@, 4, i as nat) > 0 { 1u64 } else { 0u64 },
            quad_rank == top_rank_with_count(ranks@, 4, i as nat),
            pair_rank < 13,
            low_pair_rank < 13,
            single_rank < 13,
            trip_rank < 13,
            quad_rank < 13,
        decreases 13 - i,
    {
        let f = freq[i];
        if f == 1 {
            single_rank = i as u64;
        } else if f == 2 {
            if pairs == 0 {
                low_pair_rank = i as u64;
            }
            pairs = pairs + 1;
            pair_rank = i as u64;
        } else if f == 3 {
            trips = 1;
            trip_rank = i as u64;
        } else if f == 4 {
            quads = 1;
            quad_rank = i as u64;
        }
        i = i + 1;
    }

    let tb = sorted[4] * 371_293 + sorted[3] * 28_561 + sorted[2] * 2_197 + sorted[1] * 169
        + sorted[0] * 13;
    // In the wheel the ace plays low, one below the two: the lowest straight.
    let straight_tb = if sorted[0] == 0 && sorted[4] == 12 {
        3 * 371_293 + 2 * 28_561 + 1 * 2_197 + 0 * 169 - 13
    } else {
        tb
    };

    if is_flush && is_straight {
        return 8 * CATEGORY_WEIGHT + straight_tb;
    }
    if quads == 1 {
        return 7 * CATEGORY_WEIGHT + quad_rank * SET_WEIGHT + tb;
    }
    if trips == 1 && pairs == 1 {
        return 6 * CATEGORY_WEIGHT + trip_rank * SET_WEIGHT + pair_rank;
    }
    if is_flush {
        return 5 * CATEGORY_WEIGHT + tb;
    }
    if is_straight {
        return 4 * CATEGORY_WEIGHT + straight_tb;
    }
    if trips == 1 {
        return 3 * CATEGORY_WEIGHT + trip_rank * SET_WEIGHT + tb;
    }
    if pairs == 2 {
        return 2 * CATEGORY_WEIGHT + pair_rank * SET_WEIGHT + low_pair_rank * LOW_PAIR_WEIGHT
            + single_rank;
    }
    if pairs == 1 {
        return 1 * CATEGORY_WEIGHT + pair_rank * SET_WEIGHT + tb;
    }
    tb
}

proof fn lemma_sorted_ranks_below_13(hand: Seq<u8>)
    requires
        hand.len() == 5,
    ensures
        sorted_ranks(hand).len() == 5,
        forall|i: int| 0 <= i < 5 ==> #[trigger] sorted_ranks(hand)[i] < 13,
{
    let r = hand_ranks(hand);
    lemma_rank_leq_total();
    r.lemma_sort_by_ensures(rank_leq());
    let s = sorted_ranks(hand);
    assert(s.len() == s.to_multiset().len());
    assert forall|i: int| 0 <= i < 5 implies #[trigger] sorted_ranks(hand)[i] < 13 by {
        assert(s.contains(s[i]));
        assert(r.contains(s[i]));
        let k = choose|k: int| 0 <= k < r.len() && r[k] == s[i];
        assert(r[k] == card_rank(hand[k]));
    }
}

proof fn lemma_top_rank_below(ranks: Seq<u64>, k: nat, n: nat)
    ensures
        top_rank_with_count(ranks, k, n) <= if n == 0 { 0 } else { n - 1 },
        bottom_rank_with_count(ranks, k, n) <= if n == 0 { 0 } else { n - 1 },
    decreases n,
{
    if n > 0 {
        lemma_top_rank_below(ranks, k, (n - 1) as nat);
    }
}

proof fn lemma_tiebreak_bounds(hand: Seq<u8>)
    requires
        hand.len() == 5,
    ensures
        0 <= hand_tiebreak(hand) < CATEGORY_WEIGHT,
{
    lemma_sorted_ranks_below_13(hand);
    let r = hand_ranks(hand);
    lemma_top_rank_below(r, 1, 13);
    lemma_top_rank_below(r, 2, 13);
    lemma_top_rank_below(r, 3, 13);
    lemma_top_rank_below(r, 4, 13);
    let s = sorted_ranks(hand);
    assert(s[0] < 13 && s[1] < 13 && s[2] < 13 && s[3] < 13 && s[4] < 13);
    assert(0 <= kicker_weight(s) <= 12 * 402_233);
}

/// A hand of a higher category always scores higher, whatever the ranks:
/// straight flush > four of a kind > full house > flush > straight > three of
/// a kind > two pair > one pair > high card.
pub proof fn lemma_higher_category_wins(h1: Seq<u8>, h2: Seq<u8>)
    requires
        h1.len() == 5,
        h2.len() == 5,
        hand_category(h1) > hand_category(h2),
    ensures
        hand_score(h1) > hand_score(h2),
{
    reveal(hand_score);
    lemma_tiebreak_bounds(h1);
    lemma_tiebreak_bounds(h2);
    assert(hand_category(h1) * CATEGORY_WEIGHT >= (hand_category(h2) + 1) * CATEGORY_WEIGHT) by (nonlinear_arith)
        requires
            hand_category(h1) >= hand_category(h2) + 1,
    ;
}

/// Mapping two sequences that hold the same elements gives sequences that hold
/// the same elements.
proof fn lemma_map_values_multiset(s1: Seq<u8>, s2: Seq<u8>, f: spec_fn(u8) -> u64)
    requires
        s1.to_multiset() == s2.to_multiset(),
    ensures
        s1.map_values(f).to_multiset() == s2.map_values(f).to_multiset(),
    decreases s1.len(),
{
    if s1.len() == 0 {
        assert(s1.to_multiset().len() == 0);
        assert(s2.len() == s2.to_multiset().len());
        assert(s2.len() == 0);
        assert(s1.map_values(f) =~= Seq::<u64>::empty());
        assert(s2.map_values(f) =~= Seq::<u64>::empty());
    } else {
        let x = s1.last();
        assert(s1.to_multiset().count(x) > 0) by {
            assert(s1.contains(x));
        }
        assert(s2.contains(x));
        let k = choose|k: int| 0 <= k < s2.len() && s2[k] == x;
        let r1 = s1.drop_last();
        let r2 = s2.remove(k);
        assert(s1 =~= r1.push(x));
        assert(r1.to_multiset() =~= s1.to_multiset().remove(x));
        assert(r2.to_multiset() =~= s2.to_multiset().remove(x));
        lemma_map_values_multiset(r1, r2, f);
        assert(s1.map_values(f) =~= r1.map_values(f).push(f(x)));
        assert(s2.map_values(f) =~= r2.map_values(f).insert(k, f(x)));
    }
}

/// `rank_count` is the multiplicity of the rank in the multiset of ranks.
proof fn lemma_rank_count_is_multiplicity(ranks: Seq<u64>, r: u64)
    ensures
        rank_count(ranks, r) == ranks.to_multiset().count(r),
    decreases ranks.len(),
{
    if ranks.len() > 0 {
        lemma_rank_count_is_multiplicity(ranks.drop_last(), r);
        assert(ranks =~= ranks.drop_last().push(ranks.last()));
    } else {
        assert(ranks.to_multiset() =~= vstd::multiset::Multiset::<u64>::empty());
    }
}

proof fn lemma_ranks_with_count_same(r1: Seq<u64>, r2: Seq<u64>, k: nat, n: nat)
    requires
        forall|x: u64| rank_count(r1, x) == rank_count(r2, x),
    ensures
        ranks_with_count(r1, k, n) == ranks_with_count(r2, k, n),
    decreases n,
{
    if n > 0 {
        lemma_ranks_with_count_same(r1, r2, k, (n - 1) as nat);
        assert(rank_count(r1, (n - 1) as u64) == rank_count(r2, (n - 1) as u64));
    }
}

proof fn lemma_top_rank_same(r1: Seq<u64>, r2: Seq<u64>, k: nat, n: nat)
    requires
        forall|x: u64| rank_count(r1, x) == rank_count(r2, x),
    ensures
        top_rank_with_count(r1, k, n) == top_rank_with_count(r2, k, n),
        bottom_rank_with_count(r1, k, n) == bottom_rank_with_count(r2, k, n),
    decreases n,
{
    if n > 0 {
        lemma_top_rank_same(r1, r2, k, (n - 1) as nat);
        lemma_ranks_with_count_same(r1, r2, k, (n - 1) as nat);
        assert(rank_count(r1, (n - 1) as u64) == rank_count(r2, (n - 1) as u64));
    }
}

/// The score of five cards depends only on which cards they are, not on their
/// order: hands holding the same cards score the same.
pub proof fn lemma_hand_score_ignores_order(h1: Seq<u8>, h2: Seq<u8>)
    requires
        h1.len() == 5,
        h1.to_multiset() == h2.to_multiset(),
    ensures
        hand_score(h1) == hand_score(h2),
{
    reveal(hand_score);
    lemma_rank_leq_total();
    let rf = |c: u8| card_rank(c);
    lemma_map_values_multiset(h1, h2, rf);
    let r1 = hand_ranks(h1);
    let r2 = hand_ranks(h2);
    r1.lemma_sort_by_ensures(rank_leq());
    r2.lemma_sort_by_ensures(rank_leq());
    lemma_sorted_unique(r1.sort_by(rank_leq()), r2.sort_by(rank_leq()), rank_leq());
    assert(sorted_ranks(h1) == sorted_ranks(h2));

    assert forall|x: u64| rank_count(r1, x) == rank_count(r2, x) by {
        lemma_rank_count_is_multiplicity(r1, x);
        lemma_rank_count_is_multiplicity(r2, x);
    }
    lemma_ranks_with_count_same(r1, r2, 2, 13);
    lemma_ranks_with_count_same(r1, r2, 3, 13);
    lemma_ranks_with_count_same(r1, r2, 4, 13);

    // Flush: every card of one hand is a card of the other.
    assert(h2.len() == 5) by {
        assert(h1.len() == h1.to_multiset().len());
        assert(h2.len() == h2.to_multiset().len());
    }
    assert forall|i: int| 0 <= i < 5 implies h1.contains(#[trigger] h2[i]) by {
        assert(h2.to_multiset().count(h2[i]) > 0);
    }
    assert forall|i: int| 0 <= i < 5 implies h2.contains(#[trigger] h1[i]) by {
        assert(h1.to_multiset().count(h1[i]) > 0);
    }
    if is_flush(h1) {
        assert forall|i: int| 0 <= i < h2.len() implies #[trigger] card_suit(h2[i]) == card_suit(h2[0]) by {
            assert(h1.contains(h2[i]) && h1.contains(h2[0]));
            let a = choose|a: int| 0 <= a < h1.len() && h1[a] == h2[i];
            let b = choose|b: int| 0 <= b < h1.len() && h1[b] == h2[0];
            assert(card_suit(h1[a]) == card_suit(h1[0]));
            assert(card_suit(h1[b]) == card_suit(h1[0]));
        }
    }
    if is_flush(h2) {
        assert forall|i: int| 0 <= i < h1.len() implies #[trigger] card_suit(h1[i]) == card_suit(h1[0]) by {
            assert(h2.contains(h1[i]) && h2.contains(h1[0]));
            let a = choose|a: int| 0 <= a < h2.len() && h2[a] == h1[i];
            let b = choose|b: int| 0 <= b < h2.len() && h2[b] == h1[0];
            assert(card_suit(h2[a]) == card_suit(h2[0]));
            assert(card_suit(h2[b]) == card_suit(h2[0]));
        }
    }
    assert(is_flush(h1) == is_flush(h2));
    assert(hand_category(h1) == hand_category(h2));

    lemma_top_rank_same(r1, r2, 1, 13);
    lemma_top_rank_same(r1, r2, 2, 13);
    lemma_top_rank_same(r1, r2, 3, 13);
    lemma_top_rank_same(r1, r2, 4, 13);
}

/// Swapping two of the five cards leaves the score unchanged (and so does any
/// reordering, a sequence of such swaps).
pub proof fn lemma_hand_score_swap(h: Seq<u8>, i: int, j: int)
    requires
        h.len() == 5,
        0 <= i < 5,
        0 <= j < 5,
    ensures
        hand_score(h.update(i, h[j]).update(j, h[i])) == hand_score(h),
{
    let t = h.update(i, h[j]);
    assert(t.to_multiset() == h.to_multiset().insert(h[j]).remove(h[i]));
    assert(t.update(j, h[i]).to_multiset() == t.to_multiset().insert(h[i]).remove(t[j]));
    assert(t.update(j, h[i]).to_multiset() =~= h.to_multiset());
    lemma_hand_score_ignores_order(t.update(j, h[i]), h);
}

/// The cards at five positions of a seven-card set.
pub open spec fn five_of(cards: Seq<u8>, a: int, b: int, c: int, d: int, e: int) -> Seq<u8> {
    seq![cards[a], cards[b], cards[c], cards[d], cards[e]]
}

/// Five positions among seven, in increasing order.
pub open spec fn is_five_index(a: int, b: int, c: int, d: int, e: int) -> bool {
    0 <= a < b < c < d < e < 7
}

fn pick_five(cards: &[u8; 7], a: usize, b: usize, c: usize, d: usize, e: usize) -> (hand: [u8; 5])
    requires
        a < 7 && b < 7 && c < 7 && d < 7 && e < 7,
    ensures
        hand@ == five_of(cards@, a as int, b as int, c as int, d as int, e as int),
{
    let hand = [cards[a], cards[b], cards[c], cards[d], cards[e]];
    assert(hand@ =~= five_of(cards@, a as int, b as int, c as int, d as int, e as int));
    hand
}

/// `s` is the highest score of five cards chosen among the seven.
pub open spec fn is_best_five_score(cards: Seq<u8>, s: int) -> bool {
    &&& forall|a: int, b: int, c: int, d: int, e: int|
        is_five_index(a, b, c, d, e) ==> #[trigger] hand_score(five_of(cards, a, b, c, d, e)) <= s
    &&& exists|a: int, b: int, c: int, d: int, e: int|
        is_five_index(a, b, c, d, e) && s == hand_score(five_of(cards, a, b, c, d, e))
}

/// The highest score of five cards chosen among seven.
pub open spec fn best_five_score(cards: Seq<u8>) -> int {
    choose|s: int| is_best_five_score(cards, s)
}

/// The highest score among five of seven cards is a single number.
pub proof fn lemma_best_five_score_unique(cards: Seq<u8>, s: int)
    requires
        is_best_five_score(cards, s),
    ensures
        best_five_score(cards) == s,
{
    let m = best_five_score(cards);
    assert(is_best_five_score(cards, m));
    let (a, b, c, d, e) = choose|a: int, b: int, c: int, d: int, e: int|
        is_five_index(a, b, c, d, e) && m == hand_score(five_of(cards, a, b, c, d, e));
    assert(hand_score(five_of(cards, a, b, c, d, e)) <= s);
    let (a2, b2, c2, d2, e2) = choose|a: int, b: int, c: int, d: int, e: int|
        is_five_index(a, b, c, d, e) && s == hand_score(five_of(cards, a, b, c, d, e));
    assert(hand_score(five_of(cards, a2, b2, c2, d2, e2)) <= m);
}

/// The score of the best five-card hand among seven cards.
pub fn best_hand_of_seven(cards: [u8; 7]) -> (best: u64)
    ensures
        forall|a: int, b: int, c: int, d: int, e: int|
            is_five_index(a, b, c, d, e) ==> #[trigger] hand_score(five_of(cards@, a, b, c, d, e))
                <= best,
        exists|a: int, b: int, c: int, d: int, e: int|
            is_five_index(a, b, c, d, e) && best == hand_score(five_of(cards@, a, b, c, d, e)),
        best == best_five_score(cards@),
{
    let mut best = eval_five(pick_five(&cards, 0, 1, 2, 3, 4));
    let ghost mut w: (int, int, int, int, int) = (0, 1, 2, 3, 4);
    let s1 = eval_five(pick_five(&cards, 0, 1, 2, 3, 5));
    if s1 > best {
        best = s1;
        proof { w = (0, 1, 2, 3, 5); }
    }
    let s2 = eval_five(pick_five(&cards, 0, 1, 2, 3, 6));
    if s2 > best {
        best = s2;
        proof { w = (0, 1, 2, 3, 6); }
    }
    let s3 = eval_five(pick_five(&cards, 0, 1, 2, 4, 5));
    if s3 > best {
        best = s3;
        proof { w = (0, 1, 2, 4, 5); }
    }
    let s4 = eval_five(pick_five(&cards, 0, 1, 2, 4, 6));
    if s4 > best {
        best = s4;
        proof { w = (0, 1, 2, 4, 6); }
    }
    let s5 = eval_five(pick_five(&cards, 0, 1, 2, 5, 6));
    if s5 > best {
        best = s5;
        proof { w = (0, 1, 2, 5, 6); }
    }
    let s6 = eval_five(pick_five(&cards, 0, 1, 3, 4, 5));
    if s6 > best {
        best = s6;
        proof { w = (0, 1, 3, 4, 5); }
    }
    let s7 = eval_five(pick_five(&cards, 0, 1, 3, 4, 6));
    if s7 > best {
        best = s7;
        proof { w = (0, 1, 3, 4, 6); }
    }
    let s8 = eval_five(pick_five(&cards, 0, 1, 3, 5, 6));
    if s8 > best {
        best = s8;
        proof { w = (0, 1, 3, 5, 6); }
    }
    let s9 = eval_five(pick_five(&cards, 0, 1, 4, 5, 6));
    if s9 > best {
        best = s9;
        proof { w = (0, 1, 4, 5, 6); }
    }
    let s10 = eval_five(pick_five(&cards, 0, 2, 3, 4, 5));
    if s10 > best {
        best = s10;
        proof { w = (0, 2, 3, 4, 5); }
    }
    let s11 = eval_five(pick_five(&cards, 0, 2, 3, 4, 6));
    if s11 > best {
        best = s11;
        proof { w = (0, 2, 3, 4, 6); }
    }
    let s12 = eval_five(pick_five(&cards, 0, 2, 3, 5, 6));
    if s12 > best {
        best = s12;
        proof { w = (0, 2, 3, 5, 6); }
    }
    let s13 = eval_five(pick_five(&cards, 0, 2, 4, 5, 6));
    if s13 > best {
        best = s13;
        proof { w = (0, 2, 4, 5, 6); }
    }
    let s14 = eval_five(pick_five(&cards, 0, 3, 4, 5, 6));
    if s14 > best {
        best = s14;
        proof { w = (0, 3, 4, 5, 6); }
    }
    let s15 = eval_five(pick_five(&cards, 1, 2, 3, 4, 5));
    if s15 > best {
        best = s15;
        proof { w = (1, 2, 3, 4, 5); }
    }
    let s16 = eval_five(pick_five(&cards, 1, 2, 3, 4, 6));
    if s16 > best {
        best = s16;
        proof { w = (1, 2, 3, 4, 6); }
    }
    let s17 = eval_five(pick_five(&cards, 1, 2, 3, 5, 6));
    if s17 > best {
        best = s17;
        proof { w = (1, 2, 3, 5, 6); }
    }
    let s18 = eval_five(pick_five(&cards, 1, 2, 4, 5, 6));
    if s18 > best {
        best = s18;
        proof { w = (1, 2, 4, 5, 6); }
    }
    let s19 = eval_five(pick_five(&cards, 1, 3, 4, 5, 6));
    if s19 > best {
        best = s19;
        proof { w = (1, 3, 4, 5, 6); }
    }
    let s20 = eval_five(pick_five(&cards, 2, 3, 4, 5, 6));
    if s20 > best {
        best = s20;
        proof { w = (2, 3, 4, 5, 6); }
    }
    proof {
        assert forall|a: int, b: int, c: int, d: int, e: int| is_five_index(a, b, c, d, e) implies #[trigger] hand_score(five_of(cards@, a, b, c, d, e)) <= best by {
            if a == 0 && b == 1 && c == 2 && d == 3 && e == 4 {
            } else if a == 0 && b == 1 && c == 2 && d == 3 && e == 5 {
            } else if a == 0 && b == 1 && c == 2 && d == 3 && e == 6 {
            } else if a == 0 && b == 1 && c == 2 && d == 4 && e == 5 {
            } else if a == 0 && b == 1 && c == 2 && d == 4 && e == 6 {
            } else if a == 0 && b == 1 && c == 2 && d == 5 && e == 6 {
            } else if a == 0 && b == 1 && c == 3 && d == 4 && e == 5 {
            } else if a == 0 && b == 1 && c == 3 && d == 4 && e == 6 {
            } else if a == 0 && b == 1 && c == 3 && d == 5 && e == 6 {
            } else if a == 0 && b == 1 && c == 4 && d == 5 && e == 6 {
            } else if a == 0 && b == 2 && c == 3 && d == 4 && e == 5 {
            } else if a == 0 && b == 2 && c == 3 && d == 4 && e == 6 {
            } else if a == 0 && b == 2 && c == 3 && d == 5 && e == 6 {
            } else if a == 0 && b == 2 && c == 4 && d == 5 && e == 6 {
            } else if a == 0 && b == 3 && c == 4 && d == 5 && e == 6 {
            } else if a == 1 && b == 2 && c == 3 && d == 4 && e == 5 {
            } else if a == 1 && b == 2 && c == 3 && d == 4 && e == 6 {
            } else if a == 1 && b == 2 && c == 3 && d == 5 && e == 6 {
            } else if a == 1 && b == 2 && c == 4 && d == 5 && e == 6 {
            } else if a == 1 && b == 3 && c == 4 && d == 5 && e == 6 {
            } else if a == 2 && b == 3 && c == 4 && d == 5 && e == 6 {
            } else {
                assert(false);
            }
        }
        assert(is_five_index(w.0, w.1, w.2, w.3, w.4) && best == hand_score(five_of(cards@, w.0, w.1, w.2, w.3, w.4)));
        assert(is_best_five_score(cards@, best as int));
        lemma_best_five_score_unique(cards@, best as int);
    }
    best
}

/// The `k`-th of the 21 ways to choose five of seven positions, in increasing order.
pub open spec fn five_index(k: int) -> (int, int, int, int, int) {
    if k == 0 {
        (0, 1, 2, 3, 4)
    } else if k == 1 {
        (0, 1, 2, 3, 5)
    } else if k == 2 {
        (0, 1, 2, 3, 6)
    } else if k == 3 {
        (0, 1, 2, 4, 5)
    } else if k == 4 {
        (0, 1, 2, 4, 6)
    } else if k == 5 {
        (0, 1, 2, 5, 6)
    } else if k == 6 {
        (0, 1, 3, 4, 5)
    } else if k == 7 {
        (0, 1, 3, 4, 6)
    } else if k == 8 {
        (0, 1, 3, 5, 6)
    } else if k == 9 {
        (0, 1, 4, 5, 6)
    } else if k == 10 {
        (0, 2, 3, 4, 5)
    } else if k == 11 {
        (0, 2, 3, 4, 6)
    } else if k == 12 {
        (0, 2, 3, 5, 6)
    } else if k == 13 {
        (0, 2, 4, 5, 6)
    } else if k == 14 {
        (0, 3, 4, 5, 6)
    } else if k == 15 {
        (1, 2, 3, 4, 5)
    } else if k == 16 {
        (1, 2, 3, 4, 6)
    } else if k == 17 {
        (1, 2, 3, 5, 6)
    } else if k == 18 {
        (1, 2, 4, 5, 6)
    } else if k == 19 {
        (1, 3, 4, 5, 6)
    } else {
        (2, 3, 4, 5, 6)
    }
}

/// The scores of the 21 ways to play five of the seven cards.
pub open spec fn five_card_scores(cards: Seq<u8>) -> Seq<int> {
    Seq::new(
        21,
        |k: int|
            {
                let t = five_index(k);
                hand_score(five_of(cards, t.0, t.1, t.2, t.3, t.4))
            },
    )
}

#[verifier::spinoff_prover]
proof fn lemma_five_index_covers(a: int, b: int, c: int, d: int, e: int)
    requires
        is_five_index(a, b, c, d, e),
    ensures
        exists|k: int| 0 <= k < 21 && #[trigger] five_index(k) == (a, b, c, d, e),
{
    if a == 0 && b == 1 && c == 2 && d == 3 && e == 4 {
        assert(five_index(0) == (a, b, c, d, e));
    } else if a == 0 && b == 1 && c == 2 && d == 3 && e == 5 {
        assert(five_index(1) == (a, b, c, d, e));
    } else if a == 0 && b == 1 && c == 2 && d == 3 && e == 6 {
        assert(five_index(2) == (a, b, c, d, e));
    } else if a == 0 && b == 1 && c == 2 && d == 4 && e == 5 {
        assert(five_index(3) == (a, b, c, d, e));
    } else if a == 0 && b == 1 && c == 2 && d == 4 && e == 6 {
        assert(five_index(4) == (a, b, c, d, e));
    } else if a == 0 && b == 1 && c == 2 && d == 5 && e == 6 {
        assert(five_index(5) == (a, b, c, d, e));
    } else if a == 0 && b == 1 && c == 3 && d == 4 && e == 5 {
        assert(five_index(6) == (a, b, c, d, e));
    } else if a == 0 && b == 1 && c == 3 && d == 4 && e == 6 {
        assert(five_index(7) == (a, b, c, d, e));
    } else if a == 0 && b == 1 && c == 3 && d == 5 && e == 6 {
        assert(five_index(8) == (a, b, c, d, e));
    } else if a == 0 && b == 1 && c == 4 && d == 5 && e == 6 {
        assert(five_index(9) == (a, b, c, d, e));
    } else if a == 0 && b == 2 && c == 3 && d == 4 && e == 5 {
        assert(five_index(10) == (a, b, c, d, e));
    } else if a == 0 && b == 2 && c == 3 && d == 4 && e == 6 {
        assert(five_index(11) == (a, b, c, d, e));
    } else if a == 0 && b == 2 && c == 3 && d == 5 && e == 6 {
        assert(five_index(12) == (a, b, c, d, e));
    } else if a == 0 && b == 2 && c == 4 && d == 5 && e == 6 {
        assert(five_index(13) == (a, b, c, d, e));
    } else if a == 0 && b == 3 && c == 4 && d == 5 && e == 6 {
        assert(five_index(14) == (a, b, c, d, e));
    } else if a == 1 && b == 2 && c == 3 && d == 4 && e == 5 {
        assert(five_index(15) == (a, b, c, d, e));
    } else if a == 1 && b == 2 && c == 3 && d == 4 && e == 6 {
        assert(five_index(16) == (a, b, c, d, e));
    } else if a == 1 && b == 2 && c == 3 && d == 5 && e == 6 {
        assert(five_index(17) == (a, b, c, d, e));
    } else if a == 1 && b == 2 && c == 4 && d == 5 && e == 6 {
        assert(five_index(18) == (a, b, c, d, e));
    } else if a == 1 && b == 3 && c == 4 && d == 5 && e == 6 {
        assert(five_index(19) == (a, b, c, d, e));
    } else if a == 2 && b == 3 && c == 4 && d == 5 && e == 6 {
        assert(five_index(20) == (a, b, c, d, e));
    }
}

proof fn lemma_five_index_valid(k: int)
    requires
        0 <= k < 21,
    ensures
        ({
            let t = five_index(k);
            is_five_index(t.0, t.1, t.2, t.3, t.4)
        }),
{
}

/// Among seven cards there is a best five-card score: the highest of the 21 choices.
pub proof fn lemma_best_five_score_exists(cards: Seq<u8>)
    ensures
        is_best_five_score(cards, five_card_scores(cards).max()),
        best_five_score(cards) == five_card_scores(cards).max(),
{
    let s = five_card_scores(cards);
    s.max_ensures();
    assert forall|a: int, b: int, c: int, d: int, e: int|
        is_five_index(a, b, c, d, e) implies #[trigger] hand_score(five_of(cards, a, b, c, d, e)) <= s.max() by {
        lemma_five_index_covers(a, b, c, d, e);
        let k = choose|k: int| 0 <= k < 21 && #[trigger] five_index(k) == (a, b, c, d, e);
        assert(s[k] == hand_score(five_of(cards, a, b, c, d, e)));
    }
    let k = choose|k: int| 0 <= k < 21 && s[k] == s.max();
    let t = five_index(k);
    lemma_five_index_valid(k);
    assert(is_five_index(t.0, t.1, t.2, t.3, t.4) && s.max() == hand_score(five_of(cards, t.0, t.1, t.2, t.3, t.4)));
    lemma_best_five_score_unique(cards, s.max());
}

/// The seven cards with those at positions `p` and `q` exchanged.
pub open spec fn swap_cards(cards: Seq<u8>, p: int, q: int) -> Seq<u8> {
    cards.update(p, cards[q]).update(q, cards[p])
}

/// Five chosen positions are the seven less the two left out.
#[verifier::spinoff_prover]
proof fn lemma_five_is_two_removed(cards: Seq<u8>, a: int, b: int, c: int, d: int, e: int)
    requires
        cards.len() == 7,
        is_five_index(a, b, c, d, e),
    ensures
        exists|u: int, v: int| 0 <= u < v < 7 && #[trigger] cards.remove(v).remove(u) == five_of(cards, a, b, c, d, e),
{
    if a == 0 && b == 1 && c == 2 && d == 3 && e == 4 {
        assert(cards.remove(6).remove(5) =~= five_of(cards, a, b, c, d, e));
    } else if a == 0 && b == 1 && c == 2 && d == 3 && e == 5 {
        assert(cards.remove(6).remove(4) =~= five_of(cards, a, b, c, d, e));
    } else if a == 0 && b == 1 && c == 2 && d == 3 && e == 6 {
        assert(cards.remove(5).remove(4) =~= five_of(cards, a, b, c, d, e));
    } else if a == 0 && b == 1 && c == 2 && d == 4 && e == 5 {
        assert(cards.remove(6).remove(3) =~= five_of(cards, a, b, c, d, e));
    } else if a == 0 && b == 1 && c == 2 && d == 4 && e == 6 {
        assert(cards.remove(5).remove(3) =~= five_of(cards, a, b, c, d, e));
    } else if a == 0 && b == 1 && c == 2 && d == 5 && e == 6 {
        assert(cards.remove(4).remove(3) =~= five_of(cards, a, b, c, d, e));
    } else if a == 0 && b == 1 && c == 3 && d == 4 && e == 5 {
        assert(cards.remove(6).remove(2) =~= five_of(cards, a, b, c, d, e));
    } else if a == 0 && b == 1 && c == 3 && d == 4 && e == 6 {
        assert(cards.remove(5).remove(2) =~= five_of(cards, a, b, c, d, e));
    } else if a == 0 && b == 1 && c == 3 && d == 5 && e == 6 {
        assert(cards.remove(4).remove(2) =~= five_of(cards, a, b, c, d, e));
    } else if a == 0 && b == 1 && c == 4 && d == 5 && e == 6 {
        assert(cards.remove(3).remove(2) =~= five_of(cards, a, b, c, d, e));
    } else if a == 0 && b == 2 && c == 3 && d == 4 && e == 5 {
        assert(cards.remove(6).remove(1) =~= five_of(cards, a, b, c, d, e));
    } else if a == 0 && b == 2 && c == 3 && d == 4 && e == 6 {
        assert(cards.remove(5).remove(1) =~= five_of(cards, a, b, c, d, e));
    } else if a == 0 && b == 2 && c == 3 && d == 5 && e == 6 {
        assert(cards.remove(4).remove(1) =~= five_of(cards, a, b, c, d, e));
    } else if a == 0 && b == 2 && c == 4 && d == 5 && e == 6 {
        assert(cards.remove(3).remove(1) =~= five_of(cards, a, b, c, d, e));
    } else if a == 0 && b == 3 && c == 4 && d == 5 && e == 6 {
        assert(cards.remove(2).remove(1) =~= five_of(cards, a, b, c, d, e));
    } else if a == 1 && b == 2 && c == 3 && d == 4 && e == 5 {
        assert(cards.remove(6).remove(0) =~= five_of(cards, a, b, c, d, e));
    } else if a == 1 && b == 2 && c == 3 && d == 4 && e == 6 {
        assert(cards.remove(5).remove(0) =~= five_of(cards, a, b, c, d, e));
    } else if a == 1 && b == 2 && c == 3 && d == 5 && e == 6 {
        assert(cards.remove(4).remove(0) =~= five_of(cards, a, b, c, d, e));
    } else if a == 1 && b == 2 && c == 4 && d == 5 && e == 6 {
        assert(cards.remove(3).remove(0) =~= five_of(cards, a, b, c, d, e));
    } else if a == 1 && b == 3 && c == 4 && d == 5 && e == 6 {
        assert(cards.remove(2).remove(0) =~= five_of(cards, a, b, c, d, e));
    } else if a == 2 && b == 3 && c == 4 && d == 5 && e == 6 {
        assert(cards.remove(1).remove(0) =~= five_of(cards, a, b, c, d, e));
    }
}

/// The seven less two left out are five chosen positions.
#[verifier::spinoff_prover]
proof fn lemma_two_removed_is_five(cards: Seq<u8>, u: int, v: int)
    requires
        cards.len() == 7,
        0 <= u < v < 7,
    ensures
        exists|a: int, b: int, c: int, d: int, e: int|
            is_five_index(a, b, c, d, e) && #[trigger] five_of(cards, a, b, c, d, e) == cards.remove(v).remove(u),
{
    if u == 5 && v == 6 {
        assert(five_of(cards, 0, 1, 2, 3, 4) =~= cards.remove(v).remove(u));
    } else if u == 4 && v == 6 {
        assert(five_of(cards, 0, 1, 2, 3, 5) =~= cards.remove(v).remove(u));
    } else if u == 4 && v == 5 {
        assert(five_of(cards, 0, 1, 2, 3, 6) =~= cards.remove(v).remove(u));
    } else if u == 3 && v == 6 {
        assert(five_of(cards, 0, 1, 2, 4, 5) =~= cards.remove(v).remove(u));
    } else if u == 3 && v == 5 {
        assert(five_of(cards, 0, 1, 2, 4, 6) =~= cards.remove(v).remove(u));
    } else if u == 3 && v == 4 {
        assert(five_of(cards, 0, 1, 2, 5, 6) =~= cards.remove(v).remove(u));
    } else if u == 2 && v == 6 {
        assert(five_of(cards, 0, 1, 3, 4, 5) =~= cards.remove(v).remove(u));
    } else if u == 2 && v == 5 {
        assert(five_of(cards, 0, 1, 3, 4, 6) =~= cards.remove(v).remove(u));
    } else if u == 2 && v == 4 {
        assert(five_of(cards, 0, 1, 3, 5, 6) =~= cards.remove(v).remove(u));
    } else if u == 2 && v == 3 {
        assert(five_of(cards, 0, 1, 4, 5, 6) =~= cards.remove(v).remove(u));
    } else if u == 1 && v == 6 {
        assert(five_of(cards, 0, 2, 3, 4, 5) =~= cards.remove(v).remove(u));
    } else if u == 1 && v == 5 {
        assert(five_of(cards, 0, 2, 3, 4, 6) =~= cards.remove(v).remove(u));
    } else if u == 1 && v == 4 {
        assert(five_of(cards, 0, 2, 3, 5, 6) =~= cards.remove(v).remove(u));
    } else if u == 1 && v == 3 {
        assert(five_of(cards, 0, 2, 4, 5, 6) =~= cards.remove(v).remove(u));
    } else if u == 1 && v == 2 {
        assert(five_of(cards, 0, 3, 4, 5, 6) =~= cards.remove(v).remove(u));
    } else if u == 0 && v == 6 {
        assert(five_of(cards, 1, 2, 3, 4, 5) =~= cards.remove(v).remove(u));
    } else if u == 0 && v == 5 {
        assert(five_of(cards, 1, 2, 3, 4, 6) =~= cards.remove(v).remove(u));
    } else if u == 0 && v == 4 {
        assert(five_of(cards, 1, 2, 3, 5, 6) =~= cards.remove(v).remove(u));
    } else if u == 0 && v == 3 {
        assert(five_of(cards, 1, 2, 4, 5, 6) =~= cards.remove(v).remove(u));
    } else if u == 0 && v == 2 {
        assert(five_of(cards, 1, 3, 4, 5, 6) =~= cards.remove(v).remove(u));
    } else if u == 0 && v == 1 {
        assert(five_of(cards, 2, 3, 4, 5, 6) =~= cards.remove(v).remove(u));
    }
}

/// Leaving out two cards of the swapped seven scores as leaving out two cards
/// (the same two cards) of the original seven.
proof fn lemma_swap_two_removed(cards: Seq<u8>, p: int, q: int, u: int, v: int)
    requires
        cards.len() == 7,
        0 <= p < 7,
        0 <= q < 7,
        0 <= u < v < 7,
    ensures
        exists|u2: int, v2: int|
            0 <= u2 < v2 < 7 && hand_score(swap_cards(cards, p, q).remove(v).remove(u)) == hand_score(
                #[trigger] cards.remove(v2).remove(u2),
            ),
{
    let h = swap_cards(cards, p, q);
    let su = if u == p { q } else if u == q { p } else { u };
    let sv = if v == p { q } else if v == q { p } else { v };
    assert(h[u] == cards[su] && h[v] == cards[sv]);
    let u2 = if su < sv { su } else { sv };
    let v2 = if su < sv { sv } else { su };
    let t = cards.update(p, cards[q]);
    assert(t.to_multiset() == cards.to_multiset().insert(cards[q]).remove(cards[p]));
    assert(h.to_multiset() == t.to_multiset().insert(cards[p]).remove(t[q]));
    assert(h.to_multiset() =~= cards.to_multiset());
    let x = h.remove(v).remove(u);
    assert(h.remove(v)[u] == h[u]);
    assert(x.to_multiset() == h.to_multiset().remove(h[v]).remove(h[u]));
    let y = cards.remove(v2).remove(u2);
    assert(cards.remove(v2)[u2] == cards[u2]);
    assert(y.to_multiset() == cards.to_multiset().remove(cards[v2]).remove(cards[u2]));
    assert(x.to_multiset() =~= y.to_multiset());
    lemma_hand_score_ignores_order(x, y);
    assert(0 <= u2 < v2 < 7 && hand_score(x) == hand_score(cards.remove(v2).remove(u2)));
}

proof fn lemma_swap_best_at_most(cards: Seq<u8>, p: int, q: int)
    requires
        cards.len() == 7,
        0 <= p < 7,
        0 <= q < 7,
    ensures
        best_five_score(swap_cards(cards, p, q)) <= best_five_score(cards),
{
    let h = swap_cards(cards, p, q);
    lemma_best_five_score_exists(cards);
    lemma_best_five_score_exists(h);
    let m = best_five_score(h);
    let (a, b, c, d, e) = choose|a: int, b: int, c: int, d: int, e: int|
        is_five_index(a, b, c, d, e) && m == hand_score(five_of(h, a, b, c, d, e));
    lemma_five_is_two_removed(h, a, b, c, d, e);
    let (u, v) = choose|u: int, v: int| 0 <= u < v < 7 && #[trigger] h.remove(v).remove(u) == five_of(h, a, b, c, d, e);
    lemma_swap_two_removed(cards, p, q, u, v);
    let (u2, v2) = choose|u2: int, v2: int|
        0 <= u2 < v2 < 7 && hand_score(h.remove(v).remove(u)) == hand_score(#[trigger] cards.remove(v2).remove(u2));
    lemma_two_removed_is_five(cards, u2, v2);
    let (a2, b2, c2, d2, e2) = choose|a: int, b: int, c: int, d: int, e: int|
        is_five_index(a, b, c, d, e) && #[trigger] five_of(cards, a, b, c, d, e) == cards.remove(v2).remove(u2);
    assert(hand_score(five_of(cards, a2, b2, c2, d2, e2)) <= best_five_score(cards));
}

/// The best five of seven does not depend on the order of the seven cards:
/// exchanging any two leaves it unchanged (and so does any reordering, a
/// sequence of such exchanges).
pub proof fn lemma_best_five_score_ignores_order(cards: Seq<u8>, p: int, q: int)
    requires
        cards.len() == 7,
        0 <= p < 7,
        0 <= q < 7,
    ensures
        best_five_score(swap_cards(cards, p, q)) == best_five_score(cards),
{
    lemma_swap_best_at_most(cards, p, q);
    let h = swap_cards(cards, p, q);
    lemma_swap_best_at_most(h, p, q);
    assert(swap_cards(h, p, q) =~= cards);
}


/// 1 when the cards at positions `i` and `j` have the same rank, else 0.
pub open spec fn same_rank(hand: Seq<u8>, i: int, j: int) -> nat {
    if card_rank(hand[i]) == card_rank(hand[j]) {
        1
    } else {
        0
    }
}

/// How many pairs of positions of a five-card hand hold cards of one rank: 0
/// for five different ranks, 1 for one pair, 2 for two pair, 3 for three of a
/// kind, 4 for a full house, 6 for four of a kind.
pub open spec fn matching_rank_pairs(hand: Seq<u8>) -> nat {
    same_rank(hand, 0, 1) + same_rank(hand, 0, 2) + same_rank(hand, 0, 3) + same_rank(hand, 0, 4)
        + same_rank(hand, 1, 2) + same_rank(hand, 1, 3) + same_rank(hand, 1, 4) + same_rank(hand, 2, 3)
        + same_rank(hand, 2, 4) + same_rank(hand, 3, 4)
}

/// No two ranks of the hand are more than four apart.
pub open spec fn ranks_within_five(hand: Seq<u8>) -> bool {
    forall|i: int, j: int|
        0 <= i < 5 && 0 <= j < 5 ==> #[trigger] card_rank(hand[i]) <= #[trigger] card_rank(hand[j]) + 4
}

/// Every rank of the hand is one of the wheel's: a two, three, four, five or ace.
pub open spec fn ranks_in_wheel(hand: Seq<u8>) -> bool {
    forall|i: int|
        0 <= i < 5 ==> {
            let r = #[trigger] card_rank(hand[i]);
            r == 0 || r == 1 || r == 2 || r == 3 || r == 12
        }
}

/// 1 when `a == x`, else 0.
spec fn hit(a: u64, x: u64) -> nat {
    if a == x {
        1
    } else {
        0
    }
}

proof fn lemma_rank_count_five(s: Seq<u64>, x: u64)
    requires
        s.len() == 5,
    ensures
        rank_count(s, x) == hit(s[0], x) + hit(s[1], x) + hit(s[2], x) + hit(s[3], x) + hit(s[4], x),
{
    let s4 = s.drop_last();
    let s3 = s4.drop_last();
    let s2 = s3.drop_last();
    let s1 = s2.drop_last();
    let s0 = s1.drop_last();
    assert(s0.len() == 0);
    assert(rank_count(s0, x) == 0);
    assert(rank_count(s1, x) == hit(s[0], x));
    assert(rank_count(s2, x) == hit(s[0], x) + hit(s[1], x));
    assert(rank_count(s3, x) == hit(s[0], x) + hit(s[1], x) + hit(s[2], x));
    assert(rank_count(s4, x) == hit(s[0], x) + hit(s[1], x) + hit(s[2], x) + hit(s[3], x));
}

proof fn lemma_ranks_with_count_exact(r: Seq<u64>, k: nat, n: nat, a: u64, b: u64)
    requires
        n <= 13,
        forall|x: u64| x < n && #[trigger] rank_count(r, x) == k ==> x == a || x == b,
    ensures
        ranks_with_count(r, k, n) == (if a < n && rank_count(r, a) == k { 1nat } else { 0nat }) + (if b
            < n && b != a && rank_count(r, b) == k {
            1nat
        } else {
            0nat
        }),
    decreases n,
{
    if n > 0 {
        lemma_ranks_with_count_exact(r, k, (n - 1) as nat, a, b);
        assert(rank_count(r, (n - 1) as u64) == k ==> (n - 1) as u64 == a || (n - 1) as u64 == b);
    }
}

/// The rank of the first pair of positions of five ranks that match (13 if none do).
spec fn first_pair_rank(r: Seq<u64>) -> u64 {
    if r[0] == r[1] || r[0] == r[2] || r[0] == r[3] || r[0] == r[4] {
        r[0]
    } else if r[1] == r[2] || r[1] == r[3] || r[1] == r[4] {
        r[1]
    } else if r[2] == r[3] || r[2] == r[4] {
        r[2]
    } else if r[3] == r[4] {
        r[3]
    } else {
        13
    }
}

/// The rank, other than `x0`, of the first pair of positions that match (13 if none do).
spec fn other_pair_rank(r: Seq<u64>, x0: u64) -> u64 {
    if r[0] != x0 && (r[0] == r[1] || r[0] == r[2] || r[0] == r[3] || r[0] == r[4]) {
        r[0]
    } else if r[1] != x0 && (r[1] == r[2] || r[1] == r[3] || r[1] == r[4]) {
        r[1]
    } else if r[2] != x0 && (r[2] == r[3] || r[2] == r[4]) {
        r[2]
    } else if r[3] != x0 && r[3] == r[4] {
        r[3]
    } else {
        13
    }
}

/// The number of matching pairs of positions of five ranks.
spec fn matching_pairs_of(r: Seq<u64>) -> nat {
    hit(r[0], r[1]) + hit(r[0], r[2]) + hit(r[0], r[3]) + hit(r[0], r[4]) + hit(r[1], r[2]) + hit(r[1], r[3])
        + hit(r[1], r[4]) + hit(r[2], r[3]) + hit(r[2], r[4]) + hit(r[3], r[4])
}

/// At most two ranks of five occur more than once: the first and the other paired rank.
proof fn lemma_paired_ranks(r: Seq<u64>)
    requires
        r.len() == 5,
    ensures
        forall|x: u64| #[trigger] rank_count(r, x) >= 2 ==> x == first_pair_rank(r) || x == other_pair_rank(
            r,
            first_pair_rank(r),
        ),
{
    let x0 = first_pair_rank(r);
    assert forall|x: u64| #[trigger] rank_count(r, x) >= 2 implies x == x0 || x == other_pair_rank(r, x0) by {
        lemma_rank_count_five(r, x);
    }
}

/// How the matching pairs of five ranks (each below 13) decide which ranks
/// occur two, three and four times.
proof fn lemma_rank_pattern_counts(r: Seq<u64>)
    requires
        r.len() == 5,
        forall|i: int| 0 <= i < 5 ==> r[i] < 13,
    ensures
        ({
            let m = matching_pairs_of(r);
            &&& (ranks_with_count(r, 4, 13) > 0 <==> m == 6)
            &&& (ranks_with_count(r, 3, 13) > 0 <==> (m == 3 || m == 4))
            &&& ranks_with_count(r, 2, 13) == (if m == 1 || m == 4 {
                1nat
            } else if m == 2 {
                2nat
            } else {
                0nat
            })
            &&& (m == 0 <==> forall|x: u64| #[trigger] rank_count(r, x) <= 1)
        }),
{
    lemma_paired_ranks(r);
    let x0 = first_pair_rank(r);
    let x1 = other_pair_rank(r, x0);
    lemma_ranks_with_count_exact(r, 2, 13, x0, x1);
    lemma_ranks_with_count_exact(r, 3, 13, x0, x1);
    lemma_ranks_with_count_exact(r, 4, 13, x0, x1);
    lemma_rank_count_five(r, x0);
    lemma_rank_count_five(r, x1);
    if matching_pairs_of(r) == 0 {
        assert forall|x: u64| #[trigger] rank_count(r, x) <= 1 by {
            lemma_rank_count_five(r, x);
        }
    }
}

/// The ranks of a five-card hand: each below 13, their matching pairs those of
/// the hand, and the sorted ranks hold each rank as often as the hand does, in
/// ascending order.
proof fn lemma_hand_ranks_facts(hand: Seq<u8>)
    requires
        hand.len() == 5,
    ensures
        ({
            let r = hand_ranks(hand);
            let s = sorted_ranks(hand);
            &&& r.len() == 5
            &&& s.len() == 5
            &&& forall|i: int| 0 <= i < 5 ==> #[trigger] r[i] == card_rank(hand[i]) && r[i] < 13
            &&& forall|i: int| 0 <= i < 5 ==> #[trigger] s[i] < 13
            &&& s[0] <= s[1] <= s[2] <= s[3] <= s[4]
            &&& matching_pairs_of(r) == matching_rank_pairs(hand)
            &&& forall|x: u64| #[trigger] rank_count(s, x) == rank_count(r, x)
        }),
{
    let r = hand_ranks(hand);
    let s = sorted_ranks(hand);
    lemma_sorted_ranks_below_13(hand);
    lemma_rank_leq_total();
    r.lemma_sort_by_ensures(rank_leq());
    assert(rank_leq()(s[0], s[1]) && rank_leq()(s[1], s[2]) && rank_leq()(s[2], s[3]) && rank_leq()(s[3], s[4]));
    assert forall|x: u64| #[trigger] rank_count(s, x) == rank_count(r, x) by {
        lemma_rank_count_is_multiplicity(r, x);
        lemma_rank_count_is_multiplicity(s, x);
    }
}

/// The sorted ranks of a hand form a straight exactly when the five ranks are
/// different and within five of each other, or different and all wheel ranks.
#[verifier::spinoff_prover]
proof fn lemma_straight_pattern(hand: Seq<u8>)
    requires
        hand.len() == 5,
    ensures
        is_straight(sorted_ranks(hand)) <==> (matching_rank_pairs(hand) == 0 && (ranks_within_five(hand)
            || ranks_in_wheel(hand))),
        is_straight(sorted_ranks(hand)) ==> (ranks_in_wheel(hand) <==> (sorted_ranks(hand)[0] == 0
            && sorted_ranks(hand)[4] == 12)),
{
    let r = hand_ranks(hand);
    let s = sorted_ranks(hand);
    lemma_hand_ranks_facts(hand);
    lemma_rank_pattern_counts(r);
    // Every rank of the hand is among the sorted ranks, and the other way round.
    assert forall|i: int| 0 <= i < 5 implies #[trigger] r[i] == s[0] || r[i] == s[1] || r[i] == s[2] || r[i]
        == s[3] || r[i] == s[4] by {
        lemma_rank_count_five(r, r[i]);
        lemma_rank_count_five(s, r[i]);
    }
    assert forall|k: int| 0 <= k < 5 implies #[trigger] s[k] == r[0] || s[k] == r[1] || s[k] == r[2] || s[k]
        == r[3] || s[k] == r[4] by {
        lemma_rank_count_five(r, s[k]);
        lemma_rank_count_five(s, s[k]);
    }
    if is_straight(s) {
        assert forall|x: u64| #[trigger] rank_count(r, x) <= 1 by {
            lemma_rank_count_five(s, x);
        }
        assert(matching_rank_pairs(hand) == 0);
        if ranks_in_wheel(hand) {
            assert forall|k: int| 0 <= k < 5 implies #[trigger] s[k] == 0 || s[k] == 1 || s[k] == 2 || s[k]
                == 3 || s[k] == 12 by {
                assert(s[k] == r[0] || s[k] == r[1] || s[k] == r[2] || s[k] == r[3] || s[k] == r[4]);
                assert(card_rank(hand[0]) == r[0] && card_rank(hand[1]) == r[1] && card_rank(hand[2]) == r[2]
                    && card_rank(hand[3]) == r[3] && card_rank(hand[4]) == r[4]);
            }
            assert(s[0] == 0 || s[0] == 1 || s[0] == 2 || s[0] == 3 || s[0] == 12);
            assert(s[1] == 0 || s[1] == 1 || s[1] == 2 || s[1] == 3 || s[1] == 12);
            assert(s[2] == 0 || s[2] == 1 || s[2] == 2 || s[2] == 3 || s[2] == 12);
            assert(s[3] == 0 || s[3] == 1 || s[3] == 2 || s[3] == 3 || s[3] == 12);
            assert(s[4] == 0 || s[4] == 1 || s[4] == 2 || s[4] == 3 || s[4] == 12);
        }
        if s[4] == s[0] + 4 {
            assert forall|i: int, j: int| 0 <= i < 5 && 0 <= j < 5 implies #[trigger] card_rank(hand[i])
                <= #[trigger] card_rank(hand[j]) + 4 by {
                assert(r[i] == s[0] || r[i] == s[1] || r[i] == s[2] || r[i] == s[3] || r[i] == s[4]);
                assert(r[j] == s[0] || r[j] == s[1] || r[j] == s[2] || r[j] == s[3] || r[j] == s[4]);
            }
        } else {
            assert forall|i: int| 0 <= i < 5 implies {
                let x = #[trigger] card_rank(hand[i]);
                x == 0 || x == 1 || x == 2 || x == 3 || x == 12
            } by {
                assert(r[i] == s[0] || r[i] == s[1] || r[i] == s[2] || r[i] == s[3] || r[i] == s[4]);
            }
        }
    }
    if matching_rank_pairs(hand) == 0 && (ranks_within_five(hand) || ranks_in_wheel(hand)) {
        assert forall|k: int| 0 <= k < 4 implies #[trigger] s[k] != s[k + 1] by {
            lemma_rank_count_five(s, s[k]);
            assert(rank_count(r, s[k]) <= 1);
        }
        assert(s[0] < s[1] < s[2] < s[3] < s[4]) by {
            assert(s[0] != s[1] && s[1] != s[2] && s[2] != s[3] && s[3] != s[4]);
        }
        if ranks_within_five(hand) {
            let i0 = if s[0] == r[0] { 0int } else if s[0] == r[1] { 1int } else if s[0] == r[2] { 2int } else if s[0] == r[3] { 3int } else { 4int };
            let i4 = if s[4] == r[0] { 0int } else if s[4] == r[1] { 1int } else if s[4] == r[2] { 2int } else if s[4] == r[3] { 3int } else { 4int };
            assert(s[0] == r[0] || s[0] == r[1] || s[0] == r[2] || s[0] == r[3] || s[0] == r[4]);
            assert(s[4] == r[0] || s[4] == r[1] || s[4] == r[2] || s[4] == r[3] || s[4] == r[4]);
            assert(card_rank(hand[i4]) <= card_rank(hand[i0]) + 4);
        } else {
            assert forall|k: int| 0 <= k < 5 implies #[trigger] s[k] == 0 || s[k] == 1 || s[k] == 2 || s[k]
                == 3 || s[k] == 12 by {
                assert(s[k] == r[0] || s[k] == r[1] || s[k] == r[2] || s[k] == r[3] || s[k] == r[4]);
                assert(card_rank(hand[0]) == r[0] && card_rank(hand[1]) == r[1] && card_rank(hand[2]) == r[2]
                    && card_rank(hand[3]) == r[3] && card_rank(hand[4]) == r[4]);
            }
            assert(s[0] == 0 || s[0] == 1 || s[0] == 2 || s[0] == 3 || s[0] == 12);
            assert(s[1] == 0 || s[1] == 1 || s[1] == 2 || s[1] == 3 || s[1] == 12);
            assert(s[2] == 0 || s[2] == 1 || s[2] == 2 || s[2] == 3 || s[2] == 12);
            assert(s[3] == 0 || s[3] == 1 || s[3] == 2 || s[3] == 3 || s[3] == 12);
            assert(s[4] == 0 || s[4] == 1 || s[4] == 2 || s[4] == 3 || s[4] == 12);
        }
    }
}

/// The category of a hand is its score divided by `CATEGORY_WEIGHT`.
proof fn lemma_score_category(hand: Seq<u8>)
    requires
        hand.len() == 5,
    ensures
        hand_score(hand) / (CATEGORY_WEIGHT as int) == hand_category(hand),
{
    reveal(hand_score);
    lemma_tiebreak_bounds(hand);
    let c = hand_category(hand) as int;
    let tb = hand_tiebreak(hand);
    assert((c * 10_000_000_000 + tb) / 10_000_000_000 == c) by (nonlinear_arith)
        requires
            0 <= tb < 10_000_000_000,
            c >= 0,
    ;
}

/// The category of five cards, read off the cards themselves (it is the score
/// divided by `CATEGORY_WEIGHT`): it follows from the number of pairs of
/// positions whose ranks match (0 for five different ranks, 1 for one pair, 2
/// for two pair, 3 for three of a kind, 4 for a full house, 6 for four of a
/// kind), from whether the five cards share a suit, and from whether five
/// different ranks run in a row (lie within five of each other) or form the
/// wheel A-2-3-4-5. A straight scores 4, or 8 when it is also a flush; four of
/// a kind 7; a full house 6; any other flush 5; then three of a kind 3, two
/// pair 2, one pair 1, and 0 for high card.
pub proof fn lemma_category_from_cards(hand: Seq<u8>)
    requires
        hand.len() == 5,
    ensures
        ({
            let m = matching_rank_pairs(hand);
            let flush = is_flush(hand);
            let straight = m == 0 && (ranks_within_five(hand) || ranks_in_wheel(hand));
            hand_score(hand) / (CATEGORY_WEIGHT as int) == if straight {
                if flush {
                    8int
                } else {
                    4int
                }
            } else if m == 6 {
                7int
            } else if m == 4 {
                6int
            } else if flush {
                5int
            } else if m == 3 {
                3int
            } else if m == 2 {
                2int
            } else if m == 1 {
                1int
            } else {
                0int
            }
        }),
{
    lemma_score_category(hand);
    lemma_hand_ranks_facts(hand);
    lemma_rank_pattern_counts(hand_ranks(hand));
    lemma_straight_pattern(hand);
}

/// A hand scores as a straight (category 4, or 8 as a straight flush) exactly
/// when its five ranks are pairwise different and in a row (within five of each
/// other), or are A-2-3-4-5.
pub proof fn lemma_straight_needs_five_in_a_row(hand: Seq<u8>)
    requires
        hand.len() == 5,
    ensures
        ({
            let c = hand_score(hand) / (CATEGORY_WEIGHT as int);
            (c == 4 || c == 8) <==> ((forall|i: int, j: int|
                0 <= i < j < 5 ==> #[trigger] card_rank(hand[i]) != #[trigger] card_rank(hand[j]))
                && (ranks_within_five(hand) || ranks_in_wheel(hand)))
        }),
{
    lemma_category_from_cards(hand);
    if forall|i: int, j: int| 0 <= i < j < 5 ==> #[trigger] card_rank(hand[i]) != #[trigger] card_rank(hand[j]) {
        assert(card_rank(hand[0]) != card_rank(hand[1]) && card_rank(hand[0]) != card_rank(hand[2])
            && card_rank(hand[0]) != card_rank(hand[3]) && card_rank(hand[0]) != card_rank(hand[4])
            && card_rank(hand[1]) != card_rank(hand[2]) && card_rank(hand[1]) != card_rank(hand[3])
            && card_rank(hand[1]) != card_rank(hand[4]) && card_rank(hand[2]) != card_rank(hand[3])
            && card_rank(hand[2]) != card_rank(hand[4]) && card_rank(hand[3]) != card_rank(hand[4]));
    }
}

/// A hand with exactly one pair (one pair of positions of matching rank) and no
/// flush scores as one pair, category 1, whatever its other cards.
pub proof fn lemma_one_pair_scores_as_pair(hand: Seq<u8>)
    requires
        hand.len() == 5,
        matching_rank_pairs(hand) == 1,
        !is_flush(hand),
    ensures
        hand_score(hand) / (CATEGORY_WEIGHT as int) == 1,
{
    lemma_category_from_cards(hand);
}

/// The top card of a straight: 3 (the five) for the wheel A-2-3-4-5, where the
/// ace plays low, else the highest rank.
pub open spec fn straight_top(hand: Seq<u8>) -> u64 {
    if ranks_in_wheel(hand) {
        3
    } else {
        sorted_ranks(hand)[4]
    }
}

/// Two straights, or two straight flushes, are ordered by their top card: the
/// higher top card scores higher and equal top cards score equal, so the wheel
/// A-2-3-4-5 is the lowest straight.
pub proof fn lemma_straights_ordered_by_top_card(h1: Seq<u8>, h2: Seq<u8>)
    requires
        h1.len() == 5,
        h2.len() == 5,
        hand_score(h1) / (CATEGORY_WEIGHT as int) == hand_score(h2) / (CATEGORY_WEIGHT as int),
        hand_score(h1) / (CATEGORY_WEIGHT as int) == 4 || hand_score(h1) / (CATEGORY_WEIGHT as int) == 8,
    ensures
        straight_top(h1) > straight_top(h2) ==> hand_score(h1) > hand_score(h2),
        straight_top(h1) == straight_top(h2) ==> hand_score(h1) == hand_score(h2),
{
    reveal(hand_score);
    lemma_score_category(h1);
    lemma_score_category(h2);
    lemma_category_from_cards(h1);
    lemma_category_from_cards(h2);
    lemma_straight_pattern(h1);
    lemma_straight_pattern(h2);
    lemma_hand_ranks_facts(h1);
    lemma_hand_ranks_facts(h2);
    let s = sorted_ranks(h1);
    let t = sorted_ranks(h2);
    assert(is_straight(s) && is_straight(t));
    assert(hand_category(h1) == hand_category(h2));
}

/// Hands compared by all five ranks (two high-card hands, or two flushes) are
/// ordered by their ranks from the highest down: the hand with the greater rank
/// at the first difference scores higher, and equal ranks score equal.
pub proof fn lemma_kickers_order_high_cards_and_flushes(h1: Seq<u8>, h2: Seq<u8>)
    requires
        h1.len() == 5,
        h2.len() == 5,
        hand_score(h1) / (CATEGORY_WEIGHT as int) == hand_score(h2) / (CATEGORY_WEIGHT as int),
        hand_score(h1) / (CATEGORY_WEIGHT as int) == 0 || hand_score(h1) / (CATEGORY_WEIGHT as int) == 5,
    ensures
        ({
            let s = sorted_ranks(h1);
            let t = sorted_ranks(h2);
            &&& s == t ==> hand_score(h1) == hand_score(h2)
            &&& (s[4] > t[4] || (s[4] == t[4] && (s[3] > t[3] || (s[3] == t[3] && (s[2] > t[2] || (s[2]
                == t[2] && (s[1] > t[1] || (s[1] == t[1] && s[0] > t[0])))))))) ==> hand_score(h1)
                > hand_score(h2)
        }),
{
    reveal(hand_score);
    lemma_score_category(h1);
    lemma_score_category(h2);
    lemma_hand_ranks_facts(h1);
    lemma_hand_ranks_facts(h2);
    assert(hand_category(h1) == hand_category(h2));
}

proof fn lemma_top_rank_unique(r: Seq<u64>, k: nat, n: nat, x: u64)
    requires
        n <= 13,
        x < n,
        rank_count(r, x) == k,
        forall|y: u64| y < n && y != x ==> #[trigger] rank_count(r, y) != k,
    ensures
        top_rank_with_count(r, k, n) == x,
    decreases n,
{
    if (n - 1) as u64 != x {
        assert(rank_count(r, (n - 1) as u64) != k);
        lemma_top_rank_unique(r, k, (n - 1) as nat, x);
    }
}

/// Two one-pair hands are ordered first by the rank of their pairs: the higher
/// pair wins, whatever the other three cards.
pub proof fn lemma_higher_pair_wins(h1: Seq<u8>, h2: Seq<u8>, i1: int, j1: int, i2: int, j2: int)
    requires
        h1.len() == 5,
        h2.len() == 5,
        hand_score(h1) / (CATEGORY_WEIGHT as int) == 1,
        hand_score(h2) / (CATEGORY_WEIGHT as int) == 1,
        0 <= i1 < j1 < 5,
        0 <= i2 < j2 < 5,
        card_rank(h1[i1]) == card_rank(h1[j1]),
        card_rank(h2[i2]) == card_rank(h2[j2]),
        card_rank(h1[i1]) > card_rank(h2[i2]),
    ensures
        hand_score(h1) > hand_score(h2),
{
    reveal(hand_score);
    lemma_score_category(h1);
    lemma_score_category(h2);
    lemma_category_from_cards(h1);
    lemma_category_from_cards(h2);
    lemma_hand_ranks_facts(h1);
    lemma_hand_ranks_facts(h2);
    let r1 = hand_ranks(h1);
    let r2 = hand_ranks(h2);
    let p1 = r1[i1];
    let p2 = r2[i2];
    assert forall|y: u64| y < 13 && y != p1 implies #[trigger] rank_count(r1, y) != 2 by {
        lemma_rank_count_five(r1, y);
        lemma_rank_count_five(r1, p1);
    }
    assert forall|y: u64| y < 13 && y != p2 implies #[trigger] rank_count(r2, y) != 2 by {
        lemma_rank_count_five(r2, y);
        lemma_rank_count_five(r2, p2);
    }
    lemma_rank_count_five(r1, p1);
    lemma_rank_count_five(r2, p2);
    lemma_top_rank_unique(r1, 2, 13, p1);
    lemma_top_rank_unique(r2, 2, 13, p2);
    let s1 = sorted_ranks(h1);
    let s2 = sorted_ranks(h2);
    assert(0 <= kicker_weight(s1) <= 12 * 402_233);
    assert(0 <= kicker_weight(s2) <= 12 * 402_233);
}

} // verus!
