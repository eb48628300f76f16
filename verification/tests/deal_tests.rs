use arcana_holdem::arcium_compute;
use arcana_holdem::encrypted_ixs;
use arcana_holdem::shuffle::{new_deck, oblivious_swap, oblivious_swap_3};

#[test]
fn new_deck_is_in_order() {
    let d = new_deck();
    for i in 0..52 {
        assert_eq!(d[i], i as u64);
    }
}

#[test]
fn oblivious_swap_exchanges_two_positions() {
    let mut d = new_deck();
    oblivious_swap(&mut d, 3, 40);
    assert_eq!(d[3], 40);
    assert_eq!(d[40], 3);
    assert_eq!(d[4], 4);
}

#[test]
fn oblivious_swap_ignores_targets_out_of_range() {
    let mut d = new_deck();
    oblivious_swap_3(&mut d, 2);
    assert_eq!(d, new_deck());
    oblivious_swap_3(&mut d, 52);
    assert_eq!(d, new_deck());
    oblivious_swap_3(&mut d, 3);
    assert_eq!(d, new_deck());
}

#[test]
fn xor_deal_with_zero_masks() {
    let dealt = arcium_compute::deal_cards(arcium_compute::DeckInput { seed: 0, p1_mask: 0, p2_mask: 0 });
    assert_eq!(dealt, [23, 43, 39, 19, 33, 44, 24, 27, 5]);
}

#[test]
fn xor_deal_masks_hole_cards_only() {
    let dealt = arcium_compute::deal_cards(arcium_compute::DeckInput { seed: 0, p1_mask: 7, p2_mask: 9 });
    assert_eq!(dealt, [16, 44, 46, 26, 33, 44, 24, 27, 5]);
    assert_eq!(dealt[0] ^ 7, 23);
    assert_eq!(dealt[1] ^ 7, 43);
    assert_eq!(dealt[2] ^ 9, 39);
    assert_eq!(dealt[3] ^ 9, 19);
}

#[test]
fn xor_deal_other_seeds() {
    let a = arcium_compute::deal_cards(arcium_compute::DeckInput { seed: 42, p1_mask: 0, p2_mask: 0 });
    assert_eq!(a, [2, 21, 40, 5, 42, 45, 35, 7, 38]);
    let b = arcium_compute::deal_cards(arcium_compute::DeckInput { seed: 0xdead_beef, p1_mask: 7, p2_mask: 9 });
    assert_eq!(b, [55, 2, 36, 31, 0, 47, 37, 36, 21]);
}

#[test]
fn both_circuit_builds_deal_alike() {
    for seed in [0u64, 42, 0xdead_beef, u64::MAX] {
        let a = arcium_compute::deal_cards(arcium_compute::DeckInput { seed, p1_mask: 63, p2_mask: 5 });
        let b = encrypted_ixs::deal_cards(encrypted_ixs::DeckInput { seed, p1_mask: 63, p2_mask: 5 });
        assert_eq!(a, b);
    }
    let masked = encrypted_ixs::deal_cards(encrypted_ixs::DeckInput { seed: 0, p1_mask: 63, p2_mask: 0 });
    assert_eq!(masked[0], 23 ^ 63);
}

#[test]
fn dealt_cards_are_distinct_for_many_seeds() {
    for seed in 0..500u64 {
        let d = arcium_compute::deal_cards(arcium_compute::DeckInput { seed: seed * 7919, p1_mask: 0, p2_mask: 0 });
        for i in 0..9 {
            assert!(d[i] < 52);
            for j in i + 1..9 {
                assert_ne!(d[i], d[j]);
            }
        }
    }
}

#[test]
fn only_the_owners_mask_unmasks() {
    let dealt = arcium_compute::deal_cards(arcium_compute::DeckInput { seed: 0, p1_mask: 7, p2_mask: 9 });
    assert_eq!(dealt[0] ^ 7, 23);
    assert_ne!(dealt[0] ^ 9, 23);
    assert_ne!(dealt[2] ^ 7, 39);
}
