use arcana_holdem::errors::HoldemError;
use arcana_holdem::instructions::close_table::{close_table, CloseRefunds, CloseTable};
use arcana_holdem::instructions::deal_callback::{deal_callback, DealCallback, DealCallbackOutput};
use arcana_holdem::instructions::init_table::{init_table, InitTable};
use arcana_holdem::instructions::join_table::{blinds_overflow, join_table, JoinTable};
use arcana_holdem::instructions::reveal_showdown::{
    mask_preimage_bytes, reveal_showdown, reveal_showdown_with_digest, RevealOutcome, RevealShowdown,
};
use arcana_holdem::instructions::submit_action::{
    action_overflows, advance_street, fold, submit_action, ActionOutcome, SubmitAction,
};
use arcana_holdem::state::{keys_equal, PlayerAction, Table, TableState};

const A: [u8; 32] = [1u8; 32];
const B: [u8; 32] = [2u8; 32];
const STRANGER: [u8; 32] = [3u8; 32];
const TABLE_KEY: [u8; 32] = [7u8; 32];

fn commit(mask: u64, table_key: &[u8; 32]) -> [u8; 32] {
    let mut preimage = [0u8; 40];
    preimage[..8].copy_from_slice(&mask.to_le_bytes());
    preimage[8..].copy_from_slice(table_key);
    #[allow(deprecated)]
    let h = solana_program::keccak::hash(&preimage);
    h.to_bytes()
}

fn opened(buy_in: u64, big_blind: u64, commit_a: [u8; 32]) -> Table {
    init_table(&InitTable { player_a: A, bump: 254 }, buy_in, big_blind, 11, commit_a).unwrap()
}

fn joined(commit_a: [u8; 32], commit_b: [u8; 32]) -> Table {
    let mut ctx = JoinTable { player_b: B, table: opened(1000, 20, commit_a) };
    join_table(&mut ctx, 22, commit_b, 99).unwrap();
    ctx.table
}

fn dealt(cards: [u64; 9], commit_a: [u8; 32], commit_b: [u8; 32]) -> Table {
    let mut ctx = DealCallback { table_key: TABLE_KEY, table: joined(commit_a, commit_b) };
    deal_callback(&mut ctx, Some(DealCallbackOutput { field_0: cards })).unwrap();
    ctx.table
}

fn preflop() -> Table {
    dealt([5, 18, 33, 12, 42, 45, 35, 7, 38], [9u8; 32], [8u8; 32])
}

fn act(table: Table, player: [u8; 32], wallet: [u8; 32], action: PlayerAction, raise_to: u64) -> (SubmitAction, Result<ActionOutcome, HoldemError>) {
    let mut ctx = SubmitAction { player, table, table_key: TABLE_KEY, winner_wallet: wallet };
    let r = submit_action(&mut ctx, action, raise_to);
    (ctx, r)
}

#[test]
fn init_table_rejects_zero_blind() {
    let r = init_table(&InitTable { player_a: A, bump: 1 }, 100, 0, 0, [0u8; 32]);
    assert!(matches!(r, Err(HoldemError::InvalidBlind)));
}

#[test]
fn init_table_rejects_small_buy_in() {
    let r = init_table(&InitTable { player_a: A, bump: 1 }, 39, 20, 0, [0u8; 32]);
    assert!(matches!(r, Err(HoldemError::InvalidBuyIn)));
}

#[test]
fn init_table_opens_waiting_table() {
    let t = opened(40, 20, [9u8; 32]);
    assert!(keys_equal(&t.player_a, &A));
    assert_eq!(t.player_b, [0u8; 32]);
    assert_eq!(t.player_a_stack, 40);
    assert_eq!(t.player_b_stack, 0);
    assert_eq!(t.pot, 0);
    assert_eq!(t.salt_a, 11);
    assert_eq!(t.buy_in, 40);
    assert_eq!(t.big_blind, 20);
    assert_eq!(t.player_a_mask_commit, [9u8; 32]);
    assert_eq!(t.player_b_mask_commit, [0u8; 32]);
    assert_eq!(t.state, TableState::WaitingForPlayer);
    assert_eq!(t.bump, 254);
}

#[test]
fn join_table_posts_blinds() {
    let t = joined([9u8; 32], [8u8; 32]);
    assert_eq!(t.player_b, B);
    assert_eq!(t.player_a_bet, 10);
    assert_eq!(t.player_b_bet, 20);
    assert_eq!(t.player_a_stack, 990);
    assert_eq!(t.player_b_stack, 980);
    assert_eq!(t.pot, 30);
    assert_eq!(t.salt_b, 22);
    assert_eq!(t.player_b_mask_commit, [8u8; 32]);
    assert_eq!(t.arcium_task_id, 99);
    assert_eq!(t.state, TableState::Dealing);
    assert_eq!(t.current_turn, 0);
}

#[test]
fn join_table_refusals() {
    let mut ctx = JoinTable { player_b: A, table: opened(1000, 20, [9u8; 32]) };
    assert!(matches!(join_table(&mut ctx, 0, [0u8; 32], 0), Err(HoldemError::AlreadySeated)));
    assert_eq!(ctx.table.state, TableState::WaitingForPlayer);

    let mut ctx = JoinTable { player_b: STRANGER, table: opened(1000, 20, [9u8; 32]) };
    ctx.table.player_b = B;
    assert!(matches!(join_table(&mut ctx, 0, [0u8; 32], 0), Err(HoldemError::TableFull)));

    let mut ctx = JoinTable { player_b: STRANGER, table: joined([9u8; 32], [8u8; 32]) };
    assert!(matches!(join_table(&mut ctx, 0, [0u8; 32], 0), Err(HoldemError::InvalidState)));
}

#[test]
fn deal_callback_stores_cards() {
    let t = preflop();
    assert_eq!(t.player_a_card1, 5);
    assert_eq!(t.player_a_card2, 18);
    assert_eq!(t.player_b_card1, 33);
    assert_eq!(t.player_b_card2, 12);
    assert_eq!(t.community, [42, 45, 35, 7, 38]);
    assert_eq!(t.state, TableState::PreFlop);
}

#[test]
fn deal_callback_truncates_community_to_a_byte() {
    let t = dealt([0, 0, 0, 0, 256 + 3, 4, 5, 6, 7], [9u8; 32], [8u8; 32]);
    assert_eq!(t.community, [3, 4, 5, 6, 7]);
}

#[test]
fn deal_callback_refusals() {
    let mut ctx = DealCallback { table_key: TABLE_KEY, table: joined([9u8; 32], [8u8; 32]) };
    assert!(matches!(deal_callback(&mut ctx, None), Err(HoldemError::InvalidState)));
    assert_eq!(ctx.table.state, TableState::Dealing);
    let mut ctx = DealCallback { table_key: TABLE_KEY, table: preflop() };
    let r = deal_callback(&mut ctx, Some(DealCallbackOutput { field_0: [1; 9] }));
    assert!(matches!(r, Err(HoldemError::InvalidState)));
    assert_eq!(ctx.table.player_a_card1, 5);
}

#[test]
fn submit_action_refuses_strangers_and_out_of_turn() {
    let (_, r) = act(preflop(), STRANGER, B, PlayerAction::Check, 0);
    assert!(matches!(r, Err(HoldemError::NotYourTurn)));
    let (ctx, r) = act(preflop(), B, A, PlayerAction::Fold, 0);
    assert!(matches!(r, Err(HoldemError::NotYourTurn)));
    assert_eq!(ctx.table.pot, 30);
}

#[test]
fn submit_action_refuses_outside_betting() {
    let (_, r) = act(joined([9u8; 32], [8u8; 32]), A, B, PlayerAction::Call, 0);
    assert!(matches!(r, Err(HoldemError::InvalidState)));
}

#[test]
fn fold_pays_the_pot_to_the_opponent() {
    let (ctx, r) = act(preflop(), A, B, PlayerAction::Fold, 0);
    match r {
        Ok(ActionOutcome::Folded(s)) => {
            assert_eq!(s.winner, 1);
            assert_eq!(s.pot, 30);
            assert_eq!(s.table, TABLE_KEY);
        },
        _ => panic!("fold refused"),
    }
    assert_eq!(ctx.table.pot, 0);
    assert_eq!(ctx.table.state, TableState::Settled);
}

#[test]
fn fold_needs_the_winner_wallet() {
    let (ctx, r) = act(preflop(), A, STRANGER, PlayerAction::Fold, 0);
    assert!(matches!(r, Err(HoldemError::NotYourTurn)));
    assert_eq!(ctx.table.state, TableState::PreFlop);
}

#[test]
fn check_refused_facing_a_bet() {
    let (_, r) = act(preflop(), A, B, PlayerAction::Check, 0);
    assert!(matches!(r, Err(HoldemError::CannotCheck)));
}

#[test]
fn small_blind_call_leaves_the_big_blind_the_option() {
    let (ctx, r) = act(preflop(), A, B, PlayerAction::Call, 0);
    assert!(matches!(r, Ok(ActionOutcome::TurnPassed)));
    let t = ctx.table;
    assert_eq!(t.state, TableState::PreFlop);
    assert_eq!(t.player_a_bet, 20);
    assert_eq!(t.player_b_bet, 20);
    assert_eq!(t.player_a_stack, 980);
    assert_eq!(t.pot, 40);
    assert_eq!(t.current_turn, 1);
    assert!(t.acted_this_street);
}

#[test]
fn big_blind_check_closes_the_preflop() {
    let (ctx, _) = act(preflop(), A, B, PlayerAction::Call, 0);
    let (ctx, r) = act(ctx.table, B, A, PlayerAction::Check, 0);
    match r {
        Ok(ActionOutcome::StreetAdvanced(s)) => assert_eq!(s.state, 3),
        _ => panic!("check refused"),
    }
    let t = ctx.table;
    assert_eq!(t.state, TableState::Flop);
    assert_eq!(t.community_flags, 0b111);
    assert_eq!(t.player_a_bet, 0);
    assert_eq!(t.player_b_bet, 0);
    assert_eq!(t.current_turn, 0);
    assert!(!t.acted_this_street);
}

#[test]
fn first_check_on_the_flop_passes_the_turn() {
    let (ctx, _) = act(preflop(), A, B, PlayerAction::Call, 0);
    let (ctx, _) = act(ctx.table, B, A, PlayerAction::Check, 0);
    let (ctx, r) = act(ctx.table, A, B, PlayerAction::Check, 0);
    assert!(matches!(r, Ok(ActionOutcome::TurnPassed)));
    assert_eq!(ctx.table.state, TableState::Flop);
    assert_eq!(ctx.table.current_turn, 1);
    // B bets, A calls: the street closes.
    let (ctx, r) = act(ctx.table, B, A, PlayerAction::Raise, 20);
    assert!(matches!(r, Ok(ActionOutcome::Raised)));
    let (ctx, r) = act(ctx.table, A, B, PlayerAction::Call, 0);
    assert!(matches!(r, Ok(ActionOutcome::StreetAdvanced(_))));
    assert_eq!(ctx.table.state, TableState::Turn);
    assert_eq!(ctx.table.pot, 80);
}

#[test]
fn call_refused_beyond_stack() {
    let mut t = preflop();
    t.player_a_stack = 5;
    let (_, r) = act(t, A, B, PlayerAction::Call, 0);
    assert!(matches!(r, Err(HoldemError::InsufficientStack)));
}

#[test]
fn raise_rules() {
    let (_, r) = act(preflop(), A, B, PlayerAction::Raise, 39);
    assert!(matches!(r, Err(HoldemError::InvalidRaise)));
    let (_, r) = act(preflop(), A, B, PlayerAction::Raise, 1001);
    assert!(matches!(r, Err(HoldemError::InsufficientStack)));
    let (ctx, r) = act(preflop(), A, B, PlayerAction::Raise, 40);
    assert!(matches!(r, Ok(ActionOutcome::Raised)));
    let t = ctx.table;
    assert_eq!(t.player_a_bet, 40);
    assert_eq!(t.player_a_stack, 960);
    assert_eq!(t.pot, 60);
    assert_eq!(t.current_turn, 1);
    assert_eq!(t.state, TableState::PreFlop);
    // B re-raises to 60, A calls 20: the flop comes.
    let (ctx, r) = act(t, B, A, PlayerAction::Raise, 60);
    assert!(matches!(r, Ok(ActionOutcome::Raised)));
    assert_eq!(ctx.table.player_b_stack, 940);
    let (ctx, r) = act(ctx.table, A, B, PlayerAction::Call, 0);
    assert!(matches!(r, Ok(ActionOutcome::StreetAdvanced(_))));
    assert_eq!(ctx.table.pot, 120);
    assert_eq!(ctx.table.player_a_stack + ctx.table.player_b_stack + ctx.table.pot, 2000);
}

#[test]
fn advance_street_sequence() {
    let mut t = preflop();
    assert_eq!(advance_street(&mut t, 0), 3);
    assert_eq!(t.community_flags, 0b0000_0111);
    assert_eq!(advance_street(&mut t, 1), 4);
    assert_eq!(t.community_flags, 0b0000_1111);
    assert_eq!(t.current_turn, 0);
    assert_eq!(advance_street(&mut t, 0), 5);
    assert_eq!(t.community_flags, 0b0001_1111);
    assert_eq!(advance_street(&mut t, 0), 6);
    assert_eq!(t.state, TableState::Showdown);
    t.player_a_bet = 3;
    assert_eq!(advance_street(&mut t, 7), 0);
    assert_eq!(t.state, TableState::Showdown);
    assert_eq!(t.player_a_bet, 0);
}

#[test]
fn fold_alone_changes_nothing() {
    let mut t = preflop();
    fold(&mut t, 0);
    assert_eq!(t.pot, 30);
    assert_eq!(t.state, TableState::PreFlop);
}

fn to_showdown(commit_a: [u8; 32], commit_b: [u8; 32]) -> Table {
    // Cards as the deal reveals them for seed 42, masks 7 (A) and 9 (B).
    let mut t = dealt([5, 18, 33, 12, 42, 45, 35, 7, 38], commit_a, commit_b);
    let steps = [
        (A, PlayerAction::Call),
        (B, PlayerAction::Check),
        (A, PlayerAction::Check),
        (B, PlayerAction::Check),
        (A, PlayerAction::Check),
        (B, PlayerAction::Check),
        (A, PlayerAction::Check),
        (B, PlayerAction::Check),
    ];
    for (who, action) in steps {
        let (ctx, r) = act(t, who, STRANGER, action, 0);
        assert!(r.is_ok());
        t = ctx.table;
    }
    assert_eq!(t.state, TableState::Showdown);
    t
}

fn reveal_as(table: Table, player: [u8; 32], mask: u64) -> (RevealShowdown, Result<RevealOutcome, HoldemError>) {
    let mut ctx = RevealShowdown { player, table, table_key: TABLE_KEY, player_a_wallet: A, player_b_wallet: B };
    let r = reveal_showdown(&mut ctx, mask);
    (ctx, r)
}

#[test]
fn mask_preimage_is_mask_then_key() {
    let p = mask_preimage_bytes(0x0102_0304_0506_0708, &TABLE_KEY);
    assert_eq!(p.len(), 40);
    assert_eq!(&p[..8], &[8, 7, 6, 5, 4, 3, 2, 1]);
    assert_eq!(&p[8..], &TABLE_KEY);
}

#[test]
fn showdown_reveals_and_settles() {
    let t = to_showdown(commit(7, &TABLE_KEY), commit(9, &TABLE_KEY));
    let (ctx, r) = reveal_as(t, A, 7);
    assert!(matches!(r, Ok(RevealOutcome::AwaitingOther)));
    assert_eq!(ctx.table.player_a_card1, 2);
    assert_eq!(ctx.table.player_a_card2, 21);
    assert_eq!(ctx.table.player_a_mask_commit, [0u8; 32]);
    let (ctx, r) = reveal_as(ctx.table, B, 9);
    match r {
        Ok(RevealOutcome::Settled { settled, payout_a, payout_b }) => {
            assert_eq!(settled.winner, 0);
            assert_eq!(settled.pot, 40);
            assert_eq!(payout_a, 40);
            assert_eq!(payout_b, 0);
        },
        _ => panic!("showdown refused"),
    }
    assert_eq!(ctx.table.player_b_card1, 40);
    assert_eq!(ctx.table.player_b_card2, 5);
    assert_eq!(ctx.table.pot, 0);
    assert_eq!(ctx.table.state, TableState::Settled);
}

#[test]
fn wrong_mask_is_refused() {
    let t = to_showdown(commit(7, &TABLE_KEY), commit(9, &TABLE_KEY));
    let (ctx, r) = reveal_as(t, A, 8);
    assert!(matches!(r, Err(HoldemError::InvalidMaskReveal)));
    assert_eq!(ctx.table.player_a_card1, 5);
    // The commitment binds the table key too.
    let mut ctx = RevealShowdown { player: A, table: t, table_key: [6u8; 32], player_a_wallet: A, player_b_wallet: B };
    assert!(matches!(reveal_showdown(&mut ctx, 7), Err(HoldemError::InvalidMaskReveal)));
}

#[test]
fn reveal_refusals() {
    let (_, r) = reveal_as(preflop(), A, 7);
    assert!(matches!(r, Err(HoldemError::NotShowdown)));
    let t = to_showdown(commit(7, &TABLE_KEY), commit(9, &TABLE_KEY));
    let (_, r) = reveal_as(t, STRANGER, 7);
    assert!(matches!(r, Err(HoldemError::NotYourTurn)));
    let (ctx, _) = reveal_as(t, A, 7);
    let mut ctx = RevealShowdown { player: B, player_b_wallet: STRANGER, ..ctx };
    assert!(matches!(reveal_showdown(&mut ctx, 9), Err(HoldemError::NotYourTurn)));
    assert_eq!(ctx.table.player_b_mask_commit, commit(9, &TABLE_KEY));
}

#[test]
fn tie_splits_with_odd_lamport_to_a() {
    // Both hands play the board: a royal flush on the table.
    let mut t = dealt([0, 1, 13, 14, 8, 9, 10, 11, 12], [5u8; 32], [6u8; 32]);
    t.state = TableState::Showdown;
    t.pot = 41;
    let mut ctx = RevealShowdown { player: A, table: t, table_key: TABLE_KEY, player_a_wallet: A, player_b_wallet: B };
    assert!(matches!(reveal_showdown_with_digest(&mut ctx, 0, &[5u8; 32]), Ok(RevealOutcome::AwaitingOther)));
    ctx.player = B;
    match reveal_showdown_with_digest(&mut ctx, 0, &[6u8; 32]) {
        Ok(RevealOutcome::Settled { settled, payout_a, payout_b }) => {
            assert_eq!(settled.winner, 2);
            assert_eq!(payout_a, 21);
            assert_eq!(payout_b, 20);
        },
        _ => panic!("showdown refused"),
    }
}

#[test]
fn close_table_rules() {
    let t = preflop();
    assert!(matches!(close_table(&CloseTable { player_a: A, table: t, player_b_wallet: B }), Err(HoldemError::InvalidState)));
    let (ctx, _) = act(preflop(), A, B, PlayerAction::Fold, 0);
    assert!(matches!(close_table(&CloseTable { player_a: B, table: ctx.table, player_b_wallet: B }), Err(HoldemError::NotYourTurn)));
    assert!(matches!(close_table(&CloseTable { player_a: A, table: ctx.table, player_b_wallet: A }), Err(HoldemError::NotYourTurn)));
    let r = close_table(&CloseTable { player_a: A, table: ctx.table, player_b_wallet: B });
    assert_eq!(r, Ok(CloseRefunds { to_player_a: 990, to_player_b: 980 }));
}

#[test]
fn overflow_checks_name_the_inputs_the_actions_refuse() {
    let mut t = preflop();
    t.pot = u64::MAX - 5;
    let ctx = SubmitAction { player: A, table: t, table_key: TABLE_KEY, winner_wallet: B };
    assert!(action_overflows(&ctx, PlayerAction::Call, 0));
    assert!(!action_overflows(&ctx, PlayerAction::Check, 0));
    assert!(action_overflows(&ctx, PlayerAction::Raise, 40));
    let ctx = SubmitAction { player: A, table: preflop(), table_key: TABLE_KEY, winner_wallet: B };
    assert!(!action_overflows(&ctx, PlayerAction::Call, 0));
    assert!(!action_overflows(&ctx, PlayerAction::Raise, 40));
    let mut t = preflop();
    t.player_b_bet = u64::MAX - 3;
    let ctx = SubmitAction { player: A, table: t, table_key: TABLE_KEY, winner_wallet: B };
    assert!(action_overflows(&ctx, PlayerAction::Raise, 0));

    let ok = JoinTable { player_b: B, table: opened(1000, 20, [9u8; 32]) };
    assert!(!blinds_overflow(&ok));
    let mut t = opened(1000, 20, [9u8; 32]);
    t.player_a_stack = 3;
    assert!(blinds_overflow(&JoinTable { player_b: B, table: t }));
    assert!(!blinds_overflow(&JoinTable { player_b: A, table: t }));
}

#[test]
fn init_table_rejects_a_huge_big_blind() {
    let r = init_table(&InitTable { player_a: A, bump: 1 }, u64::MAX, u64::MAX / 2 + 1, 0, [0u8; 32]);
    assert!(matches!(r, Err(HoldemError::InvalidBuyIn)));
    let r = init_table(&InitTable { player_a: A, bump: 1 }, u64::MAX, u64::MAX / 2, 0, [0u8; 32]);
    assert!(r.is_ok());
}
