//! A player's betting action: fold, check, call or raise.
use vstd::prelude::*;
use crate::errors::HoldemError;
use crate::state::{keys_equal, GameSettled, PlayerAction, StreetAdvanced, Table, TableState};

verus! {

/// What the action reads: the signer, the table and its key, and the wallet that
/// receives the pot when the signer folds.
#[derive(Clone, Copy, Debug)]
pub struct SubmitAction {
    pub player: [u8; 32],
    pub table: Table,
    pub table_key: [u8; 32],
    pub winner_wallet: [u8; 32],
}

/// What is left to do once the table is updated.
#[derive(Clone, Copy, Debug)]
pub enum ActionOutcome {
    /// The actor folded: move `pot` lamports from the table to the winner's
    /// wallet and report the settlement.
    Folded(GameSettled),
    /// The street closed: report the new street.
    StreetAdvanced(StreetAdvanced),
    /// The actor checked or called as the first to act on the street; the
    /// opponent is to act.
    TurnPassed,
    /// The actor raised; the opponent is to act.
    Raised,
}

/// The turn index of the signer: 0 when the signer is player A, else 1.
pub open spec fn acting_index(t: Table, player: [u8; 32]) -> u8 {
    if player == t.player_a {
        0
    } else {
        1
    }
}

/// The opponent of turn index `who`.
pub open spec fn other(who: u8) -> u8 {
    (1 - who) as u8
}

/// What the actor must add to match the opponent's bet (zero if already matched).
pub open spec fn amount_to_call(t: Table, acting: u8) -> u64 {
    t.bet_of(other(acting)).saturating_sub(t.bet_of(acting))
}

/// What a raise to `raise_to` takes from the actor's stack.
pub open spec fn raise_cost(t: Table, acting: u8, raise_to: u64) -> u64 {
    raise_to.saturating_sub(t.bet_of(acting))
}

/// The smallest total bet a raise may reach: the opponent's bet plus a big blind.
pub open spec fn min_raise(t: Table, acting: u8) -> int {
    t.bet_of(other(acting)) + t.big_blind
}

/// The signer is seated, it is their turn, and a betting street is under way.
pub open spec fn may_act(ctx: SubmitAction) -> bool {
    let t = ctx.table;
    &&& (ctx.player == t.player_a || ctx.player == t.player_b)
    &&& acting_index(t, ctx.player) == t.current_turn
    &&& t.is_betting()
}

/// The error the action is refused with, if any, checked in this order:
/// the signer is not seated or not on turn, no betting street, then the
/// action's own condition.
pub open spec fn submit_action_error(ctx: SubmitAction, action: PlayerAction, raise_to: u64) -> Option<
    HoldemError,
> {
    let t = ctx.table;
    let acting = acting_index(t, ctx.player);
    if !(ctx.player == t.player_a || ctx.player == t.player_b) {
        Some(HoldemError::NotYourTurn)
    } else if acting != t.current_turn {
        Some(HoldemError::NotYourTurn)
    } else if !t.is_betting() {
        Some(HoldemError::InvalidState)
    } else {
        match action {
            PlayerAction::Fold => if ctx.winner_wallet != t.key_of(other(acting)) {
                Some(HoldemError::NotYourTurn)
            } else {
                None
            },
            PlayerAction::Check => if t.bet_of(acting) < t.bet_of(other(acting)) {
                Some(HoldemError::CannotCheck)
            } else {
                None
            },
            PlayerAction::Call => if t.stack_of(acting) < amount_to_call(t, acting) {
                Some(HoldemError::InsufficientStack)
            } else {
                None
            },
            PlayerAction::Raise => if raise_to < min_raise(t, acting) {
                Some(HoldemError::InvalidRaise)
            } else if t.stack_of(acting) < raise_cost(t, acting, raise_to) {
                Some(HoldemError::InsufficientStack)
            } else {
                None
            },
        }
    }
}

/// The inputs on which the action's arithmetic leaves the range of `u64`.
pub open spec fn submit_action_overflows(ctx: SubmitAction, action: PlayerAction, raise_to: u64) -> bool {
    let t = ctx.table;
    let acting = acting_index(t, ctx.player);
    &&& may_act(ctx)
    &&& match action {
        PlayerAction::Call => t.stack_of(acting) >= amount_to_call(t, acting) && t.pot
            + amount_to_call(t, acting) > u64::MAX,
        PlayerAction::Raise => min_raise(t, acting) > u64::MAX || (raise_to >= min_raise(t, acting)
            && t.stack_of(acting) >= raise_cost(t, acting, raise_to) && t.pot + raise_cost(
            t,
            acting,
            raise_to,
        ) > u64::MAX),
        _ => false,
    }
}

/// The table after the street closes with `acting` having acted last: bets
/// cleared, no one having acted on the new street, the next community cards lit
/// and the turn to the opponent of the last actor; and the number reported for
/// the new street (0, with only the bets and the action cleared, when no
/// betting street was under way).
pub open spec fn street_after(t: Table, acting: u8) -> (Table, u8) {
    let t0 = Table { player_a_bet: 0, player_b_bet: 0, acted_this_street: false, ..t };
    match t.state {
        TableState::PreFlop => (
            Table {
                community_flags: t.community_flags | 0b0000_0111u8,
                state: TableState::Flop,
                current_turn: other(acting),
                ..t0
            },
            3,
        ),
        TableState::Flop => (
            Table {
                community_flags: t.community_flags | 0b0000_1000u8,
                state: TableState::Turn,
                current_turn: other(acting),
                ..t0
            },
            4,
        ),
        TableState::Turn => (
            Table {
                community_flags: t.community_flags | 0b0001_0000u8,
                state: TableState::River,
                current_turn: other(acting),
                ..t0
            },
            5,
        ),
        TableState::River => (
            Table { state: TableState::Showdown, current_turn: other(acting), ..t0 },
            6,
        ),
        _ => (t0, 0),
    }
}

/// The table after the actor puts `amount` more into the pot, their bet reaching `new_bet`.
pub open spec fn with_chips_in(t: Table, acting: u8, new_bet: u64, amount: u64) -> Table {
    if acting == 0 {
        Table {
            player_a_bet: new_bet,
            player_a_stack: (t.player_a_stack - amount) as u64,
            pot: (t.pot + amount) as u64,
            ..t
        }
    } else {
        Table {
            player_b_bet: new_bet,
            player_b_stack: (t.player_b_stack - amount) as u64,
            pot: (t.pot + amount) as u64,
            ..t
        }
    }
}

/// The table and what is left to do after an accepted action.
pub open spec fn submit_action_effect(ctx: SubmitAction, action: PlayerAction, raise_to: u64) -> (
    Table,
    ActionOutcome,
) {
    let t = ctx.table;
    let acting = acting_index(t, ctx.player);
    match action {
        PlayerAction::Fold => (
            Table { pot: 0, state: TableState::Settled, ..t },
            ActionOutcome::Folded(
                GameSettled { table: ctx.table_key, winner: other(acting), pot: t.pot },
            ),
        ),
        PlayerAction::Check => close_or_pass(t, acting, ctx.table_key),
        PlayerAction::Call => {
            let c = amount_to_call(t, acting);
            close_or_pass(with_chips_in(t, acting, (t.bet_of(acting) + c) as u64, c), acting, ctx.table_key)
        },
        PlayerAction::Raise => {
            let t2 = with_chips_in(t, acting, raise_to, raise_cost(t, acting, raise_to));
            (
                Table { current_turn: other(acting), acted_this_street: true, ..t2 },
                ActionOutcome::Raised,
            )
        },
    }
}

/// After a check or call by `acting` (with its chips in `t`): the street closes
/// when a player has already acted on it, as the bets now match; otherwise the
/// actor was the first to act and the opponent is to act.
pub open spec fn close_or_pass(t: Table, acting: u8, table_key: [u8; 32]) -> (Table, ActionOutcome) {
    if t.acted_this_street {
        let (t2, s) = street_after(t, acting);
        (t2, ActionOutcome::StreetAdvanced(StreetAdvanced { table: table_key, state: s }))
    } else {
        (Table { acted_this_street: true, current_turn: other(acting), ..t }, ActionOutcome::TurnPassed)
    }
}

/// Whether the action's arithmetic would leave the range of `u64` (the inputs
/// `submit_action` does not take).
pub fn action_overflows(ctx: &SubmitAction, action: PlayerAction, raise_to: u64) -> (o: bool)
    ensures
        o == submit_action_overflows(*ctx, action, raise_to),
{
    let t = &ctx.table;
    let is_player_a = keys_equal(&ctx.player, &t.player_a);
    let is_player_b = keys_equal(&ctx.player, &t.player_b);
    let acting: u8 = if is_player_a {
        0
    } else {
        1
    };
    if !(is_player_a || is_player_b) || acting != t.current_turn || !(t.state == TableState::PreFlop
        || t.state == TableState::Flop || t.state == TableState::Turn || t.state
        == TableState::River) {
        return false;
    }
    let my_bet = if acting == 0 {
        t.player_a_bet
    } else {
        t.player_b_bet
    };
    let opp_bet = if acting == 0 {
        t.player_b_bet
    } else {
        t.player_a_bet
    };
    let my_stack = if acting == 0 {
        t.player_a_stack
    } else {
        t.player_b_stack
    };
    match action {
        PlayerAction::Call => {
            let to_call = opp_bet.saturating_sub(my_bet);
            my_stack >= to_call && t.pot > u64::MAX - to_call
        },
        PlayerAction::Raise => {
            if opp_bet > u64::MAX - t.big_blind {
                return true;
            }
            let additional = raise_to.saturating_sub(my_bet);
            raise_to >= opp_bet + t.big_blind && my_stack >= additional && t.pot > u64::MAX
                - additional
        },
        _ => false,
    }
}

/// Folding changes nothing by itself: the caller pays the pot out and settles.
pub fn fold(table: &mut Table, acting: u8)
    ensures
        *final(table) == *old(table),
{
    let _ = acting;
    let _ = table;
}

/// Closes the street: clears both bets, lights the next community cards, moves
/// to the next phase and gives the turn to the opponent of the last actor.
/// Returns the number of the new phase (3 flop, 4 turn, 5 river, 6 showdown),
/// or 0, with only the bets and the action cleared, outside a betting street.
pub fn advance_street(table: &mut Table, acting: u8) -> (state_u8: u8)
    requires
        old(table).is_betting() ==> acting <= 1,
    ensures
        (*final(table), state_u8) == street_after(*old(table), acting),
        old(table).is_betting() ==> final(table).current_turn == 1 - acting,
{
    table.player_a_bet = 0;
    table.player_b_bet = 0;
    table.acted_this_street = false;

    let (new_state, state_u8) = match table.state {
        TableState::PreFlop => {
            table.community_flags = table.community_flags | 0b00000111;
            (TableState::Flop, 3u8)
        },
        TableState::Flop => {
            table.community_flags = table.community_flags | 0b00001000;
            (TableState::Turn, 4u8)
        },
        TableState::Turn => {
            table.community_flags = table.community_flags | 0b00010000;
            (TableState::River, 5u8)
        },
        TableState::River => (TableState::Showdown, 6u8),
        _ => {
            return 0;
        },
    };

    table.state = new_state;
    table.current_turn = 1 - acting;
    state_u8
}

/// Ends a check or call by `acting`: closes the street if a player has
/// already acted on it, else passes the turn to the opponent.
fn close_street_or_pass(ctx: &mut SubmitAction, acting: u8) -> (o: ActionOutcome)
    requires
        acting <= 1,
        old(ctx).table.is_betting(),
    ensures
        (final(ctx).table, o) == close_or_pass(old(ctx).table, acting, old(ctx).table_key),
        final(ctx).player == old(ctx).player,
        final(ctx).table_key == old(ctx).table_key,
        final(ctx).winner_wallet == old(ctx).winner_wallet,
{
    if ctx.table.acted_this_street {
        let table_key = ctx.table_key;
        let new_state_u8 = advance_street(&mut ctx.table, acting);
        ActionOutcome::StreetAdvanced(StreetAdvanced { table: table_key, state: new_state_u8 })
    } else {
        ctx.table.acted_this_street = true;
        ctx.table.current_turn = 1 - acting;
        ActionOutcome::TurnPassed
    }
}

/// Plays the signer's action: checks that the signer is seated and on turn and
/// that a betting street is under way, then folds, checks, calls or raises.
///
/// A fold settles the hand: the pot, all of it, goes to the opponent, whose
/// wallet must be `winner_wallet`. A check (allowed when the actor's bet is not
/// below the opponent's) or a call (which first matches the opponent's bet)
/// closes the street when a player has already acted on it; as the first
/// action of a street it passes the turn, so the big blind keeps the option
/// after the small blind calls pre-flop, and a check on the flop, turn or river
/// leaves the opponent to act. A raise must reach at least the opponent's bet
/// plus a big blind and passes the turn. On an error the context is unchanged.
pub fn submit_action(ctx: &mut SubmitAction, action: PlayerAction, raise_to: u64) -> (r: Result<
    ActionOutcome,
    HoldemError,
>)
    requires
        !submit_action_overflows(*old(ctx), action, raise_to),
    ensures
        match submit_action_error(*old(ctx), action, raise_to) {
            Some(e) => r == Err::<ActionOutcome, HoldemError>(e) && *final(ctx) == *old(ctx),
            None => {
                let (t2, o) = submit_action_effect(*old(ctx), action, raise_to);
                &&& r == Ok::<ActionOutcome, HoldemError>(o)
                &&& *final(ctx) == (SubmitAction { table: t2, ..*old(ctx) })
            },
        },
        r is Ok && action != PlayerAction::Fold ==> final(ctx).table.chips_on_table() == old(
            ctx,
        ).table.chips_on_table(),
        r matches Ok(ActionOutcome::Folded(settled)) ==> final(ctx).table.pot == 0
            && final(ctx).table.chips_on_table() + settled.pot == old(ctx).table.chips_on_table(),
        r matches Ok(ActionOutcome::Folded(settled)) ==> settled.winner == 1 - old(ctx).table.current_turn
            && old(ctx).winner_wallet == (if old(ctx).player == old(ctx).table.player_a {
            old(ctx).table.player_b
        } else {
            old(ctx).table.player_a
        }),
        r is Ok && action != PlayerAction::Fold ==> final(ctx).table.current_turn == 1 - old(
            ctx,
        ).table.current_turn,
{
    let is_player_a = keys_equal(&ctx.player, &ctx.table.player_a);
    let is_player_b = keys_equal(&ctx.player, &ctx.table.player_b);
    if !(is_player_a || is_player_b) {
        return Err(HoldemError::NotYourTurn);
    }
    let acting: u8 = if is_player_a {
        0
    } else {
        1
    };
    if acting != ctx.table.current_turn {
        return Err(HoldemError::NotYourTurn);
    }
    if !(ctx.table.state == TableState::PreFlop || ctx.table.state == TableState::Flop
        || ctx.table.state == TableState::Turn || ctx.table.state == TableState::River) {
        return Err(HoldemError::InvalidState);
    }
    match action {
        PlayerAction::Fold => {
            fold(&mut ctx.table, acting);
            let winner: u8 = 1 - acting;
            let winner_key = if winner == 0 {
                ctx.table.player_a
            } else {
                ctx.table.player_b
            };
            if !keys_equal(&ctx.winner_wallet, &winner_key) {
                return Err(HoldemError::NotYourTurn);
            }
            let pot = ctx.table.pot;
            ctx.table.pot = 0;
            ctx.table.state = TableState::Settled;
            Ok(ActionOutcome::Folded(GameSettled { table: ctx.table_key, winner, pot }))
        },
        PlayerAction::Check => {
            let my_bet = if acting == 0 {
                ctx.table.player_a_bet
            } else {
                ctx.table.player_b_bet
            };
            let opp_bet = if acting == 0 {
                ctx.table.player_b_bet
            } else {
                ctx.table.player_a_bet
            };
            if my_bet < opp_bet {
                return Err(HoldemError::CannotCheck);
            }
            Ok(close_street_or_pass(ctx, acting))
        },
        PlayerAction::Call => {
            let my_bet = if acting == 0 {
                ctx.table.player_a_bet
            } else {
                ctx.table.player_b_bet
            };
            let opp_bet = if acting == 0 {
                ctx.table.player_b_bet
            } else {
                ctx.table.player_a_bet
            };
            let my_stack = if acting == 0 {
                ctx.table.player_a_stack
            } else {
                ctx.table.player_b_stack
            };
            let to_call = opp_bet.saturating_sub(my_bet);
            if my_stack < to_call {
                return Err(HoldemError::InsufficientStack);
            }
            if acting == 0 {
                ctx.table.player_a_bet = ctx.table.player_a_bet + to_call;
                ctx.table.player_a_stack = ctx.table.player_a_stack - to_call;
            } else {
                ctx.table.player_b_bet = ctx.table.player_b_bet + to_call;
                ctx.table.player_b_stack = ctx.table.player_b_stack - to_call;
            }
            ctx.table.pot = ctx.table.pot + to_call;
            Ok(close_street_or_pass(ctx, acting))
        },
        PlayerAction::Raise => {
            let opp_bet = if acting == 0 {
                ctx.table.player_b_bet
            } else {
                ctx.table.player_a_bet
            };
            let my_bet = if acting == 0 {
                ctx.table.player_a_bet
            } else {
                ctx.table.player_b_bet
            };
            let my_stack = if acting == 0 {
                ctx.table.player_a_stack
            } else {
                ctx.table.player_b_stack
            };
            let min_raise = opp_bet + ctx.table.big_blind;
            if raise_to < min_raise {
                return Err(HoldemError::InvalidRaise);
            }
            let additional = raise_to.saturating_sub(my_bet);
            if my_stack < additional {
                return Err(HoldemError::InsufficientStack);
            }
            if acting == 0 {
                ctx.table.player_a_bet = raise_to;
                ctx.table.player_a_stack = ctx.table.player_a_stack - additional;
            } else {
                ctx.table.player_b_bet = raise_to;
                ctx.table.player_b_stack = ctx.table.player_b_stack - additional;
            }
            ctx.table.pot = ctx.table.pot + additional;
            ctx.table.current_turn = 1 - acting;
            ctx.table.acted_this_street = true;
            Ok(ActionOutcome::Raised)
        },
    }
}

} // verus!
