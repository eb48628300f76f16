use arcana_holdem::hand::{best_hand_of_seven, eval_five};

#[test]
fn royal_flush_scores_as_straight_flush() {
    assert_eq!(eval_five([8, 9, 10, 11, 12]), 80_004_793_282);
}

#[test]
fn wheel_straight_flush() {
    assert_eq!(eval_five([12, 0, 1, 2, 3]), 80_001_173_185);
}

#[test]
fn four_of_a_kind() {
    assert_eq!(eval_five([5, 18, 31, 44, 0]), 70_502_011_100);
}

#[test]
fn full_house() {
    assert_eq!(eval_five([3, 16, 29, 7, 20]), 60_300_000_007);
}

#[test]
fn flush() {
    assert_eq!(eval_five([13, 15, 17, 19, 21]), 50_003_150_836);
}

#[test]
fn straight_of_mixed_suits() {
    assert_eq!(eval_five([0, 14, 28, 42, 4]), 40_001_575_418);
}

#[test]
fn wheel_of_mixed_suits() {
    assert_eq!(eval_five([12, 13, 27, 41, 3]), 40_001_173_185);
}

#[test]
fn three_of_a_kind() {
    assert_eq!(eval_five([6, 19, 32, 0, 14]), 30_602_412_475);
}

#[test]
fn two_pair() {
    assert_eq!(eval_five([2, 15, 9, 22, 40]), 20_902_000_001);
}

#[test]
fn one_pair() {
    assert_eq!(eval_five([11, 24, 0, 14, 31]), 11_104_409_548);
}

#[test]
fn pair_with_ace_and_low_cards() {
    assert_eq!(eval_five([12, 14, 28, 42, 3]), 10_304_548_141);
}

#[test]
fn high_card() {
    assert_eq!(eval_five([0, 15, 30, 45, 11]), 4_264_715);
}

#[test]
fn higher_category_beats_higher_ranks() {
    // A pair of twos beats ace-high.
    assert!(eval_five([0, 13, 2, 3, 4]) > eval_five([12, 11, 10, 9, 20]));
}

#[test]
fn card_order_does_not_matter() {
    assert_eq!(eval_five([3, 16, 29, 7, 20]), eval_five([20, 7, 29, 16, 3]));
}

#[test]
fn best_of_seven_finds_full_house() {
    assert_eq!(best_hand_of_seven([12, 25, 0, 13, 26, 8, 9]), 60_000_000_012);
}

#[test]
fn best_of_seven_finds_quads() {
    assert_eq!(best_hand_of_seven([1, 2, 12, 25, 38, 51, 7]), 71_204_826_731);
}

#[test]
fn best_of_seven_is_at_least_every_five() {
    let cards = [2u8, 20, 42, 45, 35, 7, 38];
    let best = best_hand_of_seven(cards);
    assert_eq!(best, 10_704_729_205);
    for a in 0..7 {
        for b in a + 1..7 {
            for c in b + 1..7 {
                for d in c + 1..7 {
                    for e in d + 1..7 {
                        let s = eval_five([cards[a], cards[b], cards[c], cards[d], cards[e]]);
                        assert!(s <= best);
                    }
                }
            }
        }
    }
}

#[test]
fn kickers_break_ties_between_equal_trips() {
    // 7-7-7-A-K beats 7-7-7-Q-J.
    assert!(eval_five([5, 18, 31, 12, 24]) > eval_five([5, 18, 31, 10, 22]));
}

#[test]
fn kicker_breaks_ties_between_equal_quads() {
    // 7-7-7-7-A beats 7-7-7-7-K.
    assert!(eval_five([5, 18, 31, 44, 12]) > eval_five([5, 18, 31, 44, 11]));
}

#[test]
fn wheel_is_the_lowest_straight() {
    // 2-3-4-5-6 beats A-2-3-4-5.
    assert!(eval_five([0, 14, 2, 3, 4]) > eval_five([12, 0, 14, 2, 3]));
}

#[test]
fn two_pair_ranked_by_high_pair_then_low_pair() {
    // K-K-3-3-2 beats K-K-2-2-A.
    assert!(eval_five([11, 24, 1, 14, 26]) > eval_five([37, 50, 39, 0, 25]));
}

#[test]
fn equal_hands_of_other_suits_tie() {
    assert_eq!(eval_five([0, 1, 2, 3, 17]), eval_five([13, 14, 15, 16, 30]));
}

#[test]
fn best_of_seven_ignores_card_order() {
    let cards = [2u8, 20, 42, 45, 35, 7, 38];
    let mut reordered = cards;
    reordered.reverse();
    assert_eq!(best_hand_of_seven(cards), best_hand_of_seven(reordered));
}
