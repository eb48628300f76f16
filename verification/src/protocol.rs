//! Properties of the game as a whole: what every instruction keeps, where the
//! chips go, and what the players get back from the deal at showdown.
use vstd::prelude::*;
use crate::arcium_compute::{dealt_cards, lemma_dealt_cards_are_distinct, lemma_unmask_recovers_hole_cards, shuffled_deck, DeckInput};
use crate::instructions::deal_callback::{dealt_table, deal_callback_error, DealCallback, DealCallbackOutput};
use crate::instructions::init_table::{init_table_error, opened_table, InitTable};
use crate::instructions::join_table::{join_table_error, join_table_overflows, joined_table, JoinTable};
use crate::hand::best_five_score;
use crate::instructions::reveal_showdown::{
    lemma_unmasked_commits, other_commit, payouts, reveal_effect, reveal_error, seven_cards, unmasked,
    RevealOutcome, RevealShowdown,
};
use crate::instructions::submit_action::{
    acting_index, min_raise, street_after, submit_action_effect, submit_action_error,
    submit_action_overflows, ActionOutcome, SubmitAction,
};
use crate::state::{is_zero_key, no_key, GameSettled, PlayerAction, Table, TableState};

verus! {

/// What holds of every table the instructions produce: the blinds are sound,
/// the turn is one of the two players, a waiting table holds A's buy-in alone,
/// a hand in play holds both buy-ins between stacks and pot, and a settled
/// table holds no pot.
pub open spec fn table_invariant(t: Table) -> bool {
    &&& t.big_blind > 0
    &&& t.buy_in >= 2 * t.big_blind
    &&& t.current_turn <= 1
    &&& match t.state {
        TableState::WaitingForPlayer => {
            &&& t.player_a_stack == t.buy_in
            &&& t.player_b_stack == 0
            &&& t.pot == 0
            &&& t.player_a_bet == 0
            &&& t.player_b_bet == 0
            &&& is_zero_key(t.player_b)
        },
        TableState::Settled => t.pot == 0,
        _ => t.chips_on_table() == 2 * t.buy_in,
    }
}

/// Opening a table yields a table of the invariant.
pub proof fn lemma_init_table_establishes_invariant(
    ctx: InitTable,
    buy_in: u64,
    big_blind: u64,
    salt_a: u64,
    mask_commit: [u8; 32],
)
    requires
        init_table_error(buy_in, big_blind) is None,
    ensures
        table_invariant(opened_table(ctx, buy_in, big_blind, salt_a, mask_commit)),
{
    let k = no_key();
    assert forall|i: int| 0 <= i < 32 implies #[trigger] k@[i] == 0 by {
    }
}

/// On a table of the invariant, joining never overflows, keeps the invariant,
/// and leaves both buy-ins on the table with the blinds in the pot.
pub proof fn lemma_join_table_keeps_invariant(
    ctx: JoinTable,
    salt_b: u64,
    mask_commit_b: [u8; 32],
    computation_offset: u64,
)
    requires
        table_invariant(ctx.table),
        join_table_error(ctx) is None,
    ensures
        !join_table_overflows(ctx),
        table_invariant(joined_table(ctx, salt_b, mask_commit_b, computation_offset)),
        joined_table(ctx, salt_b, mask_commit_b, computation_offset).pot == ctx.table.big_blind / 2
            + ctx.table.big_blind,
{
}

/// Storing the deal keeps the invariant: it touches only cards and phase.
pub proof fn lemma_deal_callback_keeps_invariant(ctx: DealCallback, output: Option<DealCallbackOutput>)
    requires
        table_invariant(ctx.table),
        deal_callback_error(ctx, output) is None,
    ensures
        table_invariant(dealt_table(ctx.table, output.unwrap().field_0)),
        dealt_table(ctx.table, output.unwrap().field_0).chips_on_table() == ctx.table.chips_on_table(),
{
}

/// Betting moves chips, never makes or loses them: a check, call or raise keeps
/// the chips on the table; a fold pays exactly the pot out and leaves no pot.
/// Every accepted action keeps the invariant.
pub proof fn lemma_submit_action_keeps_invariant(ctx: SubmitAction, action: PlayerAction, raise_to: u64)
    requires
        table_invariant(ctx.table),
        submit_action_error(ctx, action, raise_to) is None,
        !submit_action_overflows(ctx, action, raise_to),
    ensures
        table_invariant(submit_action_effect(ctx, action, raise_to).0),
        match submit_action_effect(ctx, action, raise_to).1 {
            ActionOutcome::Folded(settled) => {
                &&& settled.pot == ctx.table.pot
                &&& submit_action_effect(ctx, action, raise_to).0.pot == 0
                &&& submit_action_effect(ctx, action, raise_to).0.chips_on_table() + settled.pot
                    == ctx.table.chips_on_table()
            },
            _ => submit_action_effect(ctx, action, raise_to).0.chips_on_table()
                == ctx.table.chips_on_table(),
        },
{
    let t = ctx.table;
    let acting = acting_index(t, ctx.player);
    assert(acting <= 1);
}

/// On a table of the invariant whose two buy-ins fit in a `u64` (as the
/// lamports of the one account holding them must), a call never overflows, and
/// a raise overflows only when the opponent's bet plus a big blind does.
pub proof fn lemma_betting_overflows_only_on_min_raise(ctx: SubmitAction, action: PlayerAction, raise_to: u64)
    requires
        table_invariant(ctx.table),
        2 * ctx.table.buy_in <= u64::MAX,
        submit_action_overflows(ctx, action, raise_to),
    ensures
        action == PlayerAction::Raise,
        min_raise(ctx.table, acting_index(ctx.table, ctx.player)) > u64::MAX,
{
}

/// A reveal keeps the invariant; when it settles the hand, the two payouts add
/// up to the pot and the table keeps no pot.
pub proof fn lemma_reveal_keeps_invariant(ctx: RevealShowdown, mask: u64)
    requires
        table_invariant(ctx.table),
        ctx.table.state == TableState::Showdown,
    ensures
        table_invariant(reveal_effect(ctx, mask).0),
        match reveal_effect(ctx, mask).1 {
            RevealOutcome::Settled { settled, payout_a, payout_b } => {
                &&& payout_a + payout_b == ctx.table.pot
                &&& settled.pot == ctx.table.pot
                &&& reveal_effect(ctx, mask).0.pot == 0
            },
            RevealOutcome::AwaitingOther => reveal_effect(ctx, mask).0.chips_on_table()
                == ctx.table.chips_on_table(),
        },
{
}

/// A reveal settles the hand exactly when the opponent has already revealed
/// (their commitment is cleared). While the opponent's commitment is still set,
/// the reveal only unmasks the signer's cards and clears the signer's
/// commitment: the table stays at showdown, the pot stays on it and nothing is
/// paid. Once both have revealed, the table is settled and keeps no pot.
pub proof fn lemma_reveal_settles_only_when_both_revealed(ctx: RevealShowdown, mask: u64)
    ensures
        ({
            let t = ctx.table;
            let other = other_commit(t, ctx.player);
            let (t2, o) = reveal_effect(ctx, mask);
            &&& (o is Settled) <==> (forall|i: int| 0 <= i < 32 ==> #[trigger] other@[i] == 0)
            &&& o is AwaitingOther ==> {
                &&& t2.state == t.state
                &&& t2.pot == t.pot
                &&& t2.player_a_stack == t.player_a_stack
                &&& t2.player_b_stack == t.player_b_stack
                &&& other_commit(t2, ctx.player) == other
            }
            &&& o is Settled ==> t2.state == TableState::Settled && t2.pot == 0
        }),
{
    lemma_unmasked_commits(ctx.table, ctx.player, mask);
}

/// A reveal is accepted only at showdown, from a seated player, with a hash
/// equal to that player's own commitment; a reveal that settles the hand is
/// accepted only with the two players' own wallets to pay.
pub proof fn lemma_reveal_needs_own_commitment(ctx: RevealShowdown, mask: u64, digest: Seq<u8>)
    requires
        reveal_error(ctx, mask, digest) is None,
    ensures
        ctx.table.state == TableState::Showdown,
        ctx.player == ctx.table.player_a || ctx.player == ctx.table.player_b,
        digest == (if ctx.player == ctx.table.player_a {
            ctx.table.player_a_mask_commit
        } else {
            ctx.table.player_b_mask_commit
        })@,
        reveal_effect(ctx, mask).1 is Settled ==> ctx.player_a_wallet == ctx.table.player_a
            && ctx.player_b_wallet == ctx.table.player_b,
{
}

/// At showdown the better hand takes the pot: when a reveal settles the hand,
/// player A wins and is paid the whole pot exactly when A's best five of seven
/// cards score higher than B's, B likewise, and equal best hands split the pot,
/// the odd lamport to A.
pub proof fn lemma_better_hand_takes_the_pot(ctx: RevealShowdown, mask: u64)
    ensures
        match reveal_effect(ctx, mask) {
            (t2, RevealOutcome::Settled { settled, payout_a, payout_b }) => {
                let a = best_five_score(seven_cards(t2.player_a_card1, t2.player_a_card2, t2.community));
                let b = best_five_score(seven_cards(t2.player_b_card1, t2.player_b_card2, t2.community));
                &&& settled.pot == ctx.table.pot
                &&& a > b ==> settled.winner == 0 && payout_a == settled.pot && payout_b == 0
                &&& b > a ==> settled.winner == 1 && payout_b == settled.pot && payout_a == 0
                &&& a == b ==> settled.winner == 2 && payout_a + payout_b == settled.pot && payout_b
                    <= payout_a <= payout_b + 1
            },
            _ => true,
        },
{
}

/// How an accepted check, call or raise moves chips between the actor's stack
/// and the pot, the opponent's stack untouched: a check moves none and needs the
/// actor's bet to be at least the opponent's; a call moves exactly what the
/// actor's bet lacks of the opponent's; a raise reaches at least the opponent's
/// bet plus a big blind, sets the actor's bet to it and moves what that adds.
pub proof fn lemma_betting_moves_chips(ctx: SubmitAction, action: PlayerAction, raise_to: u64)
    requires
        submit_action_error(ctx, action, raise_to) is None,
        !submit_action_overflows(ctx, action, raise_to),
        action != PlayerAction::Fold,
    ensures
        ({
            let t = ctx.table;
            let t2 = submit_action_effect(ctx, action, raise_to).0;
            let a_acts = ctx.player == t.player_a;
            let my_bet = if a_acts { t.player_a_bet } else { t.player_b_bet };
            let opp_bet = if a_acts { t.player_b_bet } else { t.player_a_bet };
            let my_stack = if a_acts { t.player_a_stack } else { t.player_b_stack };
            let opp_stack = if a_acts { t.player_b_stack } else { t.player_a_stack };
            let my_stack2 = if a_acts { t2.player_a_stack } else { t2.player_b_stack };
            let opp_stack2 = if a_acts { t2.player_b_stack } else { t2.player_a_stack };
            let moved = t2.pot - t.pot;
            &&& my_stack2 == my_stack - moved
            &&& opp_stack2 == opp_stack
            &&& action == PlayerAction::Check ==> my_bet >= opp_bet && moved == 0
            &&& action == PlayerAction::Call ==> moved == (if opp_bet > my_bet { opp_bet - my_bet } else { 0 })
            &&& action == PlayerAction::Raise ==> {
                &&& raise_to >= opp_bet + t.big_blind
                &&& moved == (if raise_to > my_bet { raise_to - my_bet } else { 0 })
                &&& (if a_acts { t2.player_a_bet } else { t2.player_b_bet }) == raise_to
            }
        }),
{
}

/// A fold pays the pot to the opponent of the player who folds, never to the
/// folder: it is accepted only with the opponent's key as the winner's wallet
/// (and then always, when the signer may act), and the settlement names the
/// opponent as winner of the whole pot.
pub proof fn lemma_fold_pays_the_opponent(ctx: SubmitAction, raise_to: u64)
    ensures
        ({
            let t = ctx.table;
            let signer_is_a = ctx.player == t.player_a;
            let opponent_key = if signer_is_a { t.player_b } else { t.player_a };
            let signer: u8 = if signer_is_a { 0 } else { 1 };
            let opponent: u8 = if signer_is_a { 1 } else { 0 };
            let (t2, o) = submit_action_effect(ctx, PlayerAction::Fold, raise_to);
            &&& submit_action_error(ctx, PlayerAction::Fold, raise_to) is None ==> ctx.winner_wallet
                == opponent_key
            &&& (ctx.player == t.player_a || ctx.player == t.player_b) && signer == t.current_turn
                && t.is_betting() && ctx.winner_wallet == opponent_key ==> submit_action_error(
                ctx,
                PlayerAction::Fold,
                raise_to,
            ) is None
            &&& o == ActionOutcome::Folded(GameSettled { table: ctx.table_key, winner: opponent, pot: t.pot })
            &&& opponent != signer
            &&& t2.state == TableState::Settled && t2.pot == 0
        }),
{
}

/// After an accepted check, call or raise the opponent of the actor is to act;
/// in particular, when the action closes the street, the first to act on the
/// new street is the opponent of the player who closed it.
pub proof fn lemma_turn_passes_to_opponent(ctx: SubmitAction, action: PlayerAction, raise_to: u64)
    requires
        submit_action_error(ctx, action, raise_to) is None,
        action != PlayerAction::Fold,
    ensures
        submit_action_effect(ctx, action, raise_to).0.current_turn == 1 - ctx.table.current_turn,
{
}

/// Closing a betting street gives the first action on the new street to the
/// opponent of the player whose check or call closed it.
pub proof fn lemma_street_opens_with_opponent(t: Table, acting: u8)
    requires
        t.is_betting(),
        acting <= 1,
    ensures
        street_after(t, acting).0.current_turn == 1 - acting,
{
}

/// Order of the phases of a hand.
pub open spec fn phase_index(s: TableState) -> int {
    match s {
        TableState::WaitingForPlayer => 0,
        TableState::Dealing => 1,
        TableState::PreFlop => 2,
        TableState::Flop => 3,
        TableState::Turn => 4,
        TableState::River => 5,
        TableState::Showdown => 6,
        TableState::Settled => 7,
    }
}

/// Only a seated player whose turn it is can act, and only while betting is
/// open; an accepted action never moves the hand back to an earlier phase. A
/// check or call closes the street (exactly one phase on, the bets cleared)
/// when a player has already acted on it, and otherwise keeps the phase and
/// hands the turn to the opponent; a raise keeps the phase and hands the turn
/// to the opponent; a fold settles the hand.
pub proof fn lemma_actions_follow_turn_and_phase(ctx: SubmitAction, action: PlayerAction, raise_to: u64)
    requires
        submit_action_error(ctx, action, raise_to) is None,
    ensures
        ctx.player == ctx.table.player_a || ctx.player == ctx.table.player_b,
        acting_index(ctx.table, ctx.player) == ctx.table.current_turn,
        ctx.table.is_betting(),
        phase_index(submit_action_effect(ctx, action, raise_to).0.state) >= phase_index(ctx.table.state),
        (action == PlayerAction::Check || action == PlayerAction::Call) && ctx.table.acted_this_street
            ==> phase_index(submit_action_effect(ctx, action, raise_to).0.state) == phase_index(
            ctx.table.state,
        ) + 1 && submit_action_effect(ctx, action, raise_to).0.player_a_bet == 0
            && submit_action_effect(ctx, action, raise_to).0.player_b_bet == 0,
        (action == PlayerAction::Check || action == PlayerAction::Call) && !ctx.table.acted_this_street
            ==> submit_action_effect(ctx, action, raise_to).0.state == ctx.table.state
            && submit_action_effect(ctx, action, raise_to).0.current_turn == 1
            - ctx.table.current_turn,
        action == PlayerAction::Raise ==> submit_action_effect(ctx, action, raise_to).0.state
            == ctx.table.state && submit_action_effect(ctx, action, raise_to).0.current_turn == 1
            - ctx.table.current_turn,
        action == PlayerAction::Fold ==> submit_action_effect(ctx, action, raise_to).0.state
            == TableState::Settled,
        submit_action_effect(ctx, action, raise_to).0.current_turn <= 1,
{
}

/// From pre-flop with no community card live, closing four streets lights the
/// flop, then the turn, then the river, and reaches the showdown with all five
/// community cards live.
pub proof fn lemma_streets_reveal_the_board(t: Table, acting: u8)
    requires
        t.state == TableState::PreFlop,
        t.community_flags == 0,
        acting <= 1,
    ensures
        ({
            let t1 = street_after(t, acting).0;
            let t2 = street_after(t1, acting).0;
            let t3 = street_after(t2, acting).0;
            let t4 = street_after(t3, acting).0;
            &&& t1.state == TableState::Flop && t1.community_flags == 0b0000_0111
            &&& t2.state == TableState::Turn && t2.community_flags == 0b0000_1111
            &&& t3.state == TableState::River && t3.community_flags == 0b0001_1111
            &&& t4.state == TableState::Showdown && t4.community_flags == 0b0001_1111
        }),
{
    assert(0u8 | 0b0000_0111u8 == 0b0000_0111u8) by (bit_vector);
    assert(0b0000_0111u8 | 0b0000_1000u8 == 0b0000_1111u8) by (bit_vector);
    assert(0b0000_1111u8 | 0b0001_0000u8 == 0b0001_1111u8) by (bit_vector);
}

/// The pot is paid out whole: to the winner, or split with the odd lamport to
/// player A.
pub proof fn lemma_payouts_split_the_pot(winner: u8, pot: u64)
    ensures
        payouts(winner, pot).0 + payouts(winner, pot).1 == pot,
        winner == 0 ==> payouts(winner, pot).0 == pot,
        winner == 1 ==> payouts(winner, pot).1 == pot,
        winner >= 2 ==> payouts(winner, pot).1 <= payouts(winner, pot).0 <= payouts(winner, pot).1 + 1,
{
}

/// When the deal's output is stored and both players reveal their true masks,
/// the table holds the cards of the shuffled deck: A the first two, B the next
/// two, then the five community cards; all nine different cards below 52.
pub proof fn lemma_revealed_cards_are_dealt_cards(t: Table, input: DeckInput, cards: [u64; 9])
    requires
        cards@ == dealt_cards(input),
    ensures
        ({
            let d = shuffled_deck(input.seed);
            let shown = unmasked(unmasked(dealt_table(t, cards), true, input.p1_mask), false, input.p2_mask);
            &&& shown.player_a_card1 == d[0]
            &&& shown.player_a_card2 == d[1]
            &&& shown.player_b_card1 == d[2]
            &&& shown.player_b_card2 == d[3]
            &&& forall|i: int| 0 <= i < 5 ==> #[trigger] shown.community@[i] == d[i + 4]
            &&& forall|i: int| 0 <= i < 9 ==> #[trigger] d[i] < 52
            &&& forall|i: int, j: int| 0 <= i < j < 9 ==> #[trigger] d[i] != #[trigger] d[j]
        }),
{
    let d = shuffled_deck(input.seed);
    lemma_dealt_cards_are_distinct(input.seed);
    lemma_unmask_recovers_hole_cards(input);
    assert(cards@[4] == d[4] && cards@[5] == d[5] && cards@[6] == d[6] && cards@[7] == d[7] && cards@[8] == d[8]);
    assert forall|i: int| 0 <= i < 5 implies #[trigger] unmasked(unmasked(dealt_table(t, cards), true, input.p1_mask), false, input.p2_mask).community@[i] == d[i + 4] by {
        assert(d[i + 4] < 52);
    }
}

} // verus!
