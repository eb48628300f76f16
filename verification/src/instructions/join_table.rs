//! Player B joins: deposits the buy-in, posts the blinds, and the deal is queued.
use vstd::prelude::*;
use crate::errors::HoldemError;
use crate::state::{is_zero, is_zero_key, keys_equal, Table, TableState};

verus! {

/// What joining reads: the signer, who becomes player B, and the table.
#[derive(Clone, Copy, Debug)]
pub struct JoinTable {
    pub player_b: [u8; 32],
    pub table: Table,
}

/// The error joining is refused with, if any: the table is not waiting, already
/// has a second player, or the signer is player A.
pub open spec fn join_table_error(ctx: JoinTable) -> Option<HoldemError> {
    if ctx.table.state != TableState::WaitingForPlayer {
        Some(HoldemError::InvalidState)
    } else if !is_zero_key(ctx.table.player_b) {
        Some(HoldemError::TableFull)
    } else if ctx.player_b == ctx.table.player_a {
        Some(HoldemError::AlreadySeated)
    } else {
        None
    }
}

/// The inputs on which the blinds leave the range of `u64`.
pub open spec fn join_table_overflows(ctx: JoinTable) -> bool {
    let t = ctx.table;
    &&& join_table_error(ctx) is None
    &&& (t.player_a_stack < t.big_blind / 2 || t.buy_in < t.big_blind || t.big_blind / 2
        + t.big_blind > u64::MAX)
}

/// Whether posting the blinds would leave the range of `u64` (the inputs
/// `join_table` does not take).
pub fn blinds_overflow(ctx: &JoinTable) -> (o: bool)
    ensures
        o == join_table_overflows(*ctx),
{
    let t = &ctx.table;
    if t.state != TableState::WaitingForPlayer || !is_zero(&t.player_b) || keys_equal(
        &ctx.player_b,
        &t.player_a,
    ) {
        return false;
    }
    t.player_a_stack < t.big_blind / 2 || t.buy_in < t.big_blind || t.big_blind / 2 > u64::MAX
        - t.big_blind
}

/// The table once B is seated: A (dealer) posts half a big blind, B a big blind,
/// the deal is pending under `computation_offset`, and A acts first, no one
/// having acted yet.
pub open spec fn joined_table(ctx: JoinTable, salt_b: u64, mask_commit_b: [u8; 32], computation_offset: u64) -> Table {
    let t = ctx.table;
    let small_blind = t.big_blind / 2;
    Table {
        player_b: ctx.player_b,
        player_b_stack: (t.buy_in - t.big_blind) as u64,
        salt_b,
        player_b_mask_commit: mask_commit_b,
        player_a_bet: small_blind,
        player_b_bet: t.big_blind,
        player_a_stack: (t.player_a_stack - small_blind) as u64,
        pot: (small_blind + t.big_blind) as u64,
        arcium_task_id: computation_offset,
        state: TableState::Dealing,
        current_turn: 0,
        acted_this_street: false,
        ..t
    }
}

/// Seats player B, who deposits the buy-in, and posts the blinds (the transfer
/// and the queuing of the deal are made by the caller once this succeeds).
/// On an error the context is unchanged.
pub fn join_table(ctx: &mut JoinTable, salt_b: u64, mask_commit_b: [u8; 32], computation_offset: u64) -> (r:
    Result<(), HoldemError>)
    requires
        !join_table_overflows(*old(ctx)),
    ensures
        match join_table_error(*old(ctx)) {
            Some(e) => r == Err::<(), HoldemError>(e) && *final(ctx) == *old(ctx),
            None => {
                &&& r == Ok::<(), HoldemError>(())
                &&& *final(ctx) == (JoinTable {
                    table: joined_table(*old(ctx), salt_b, mask_commit_b, computation_offset),
                    ..*old(ctx)
                })
            },
        },
{
    if ctx.table.state != TableState::WaitingForPlayer {
        return Err(HoldemError::InvalidState);
    }
    if !is_zero(&ctx.table.player_b) {
        return Err(HoldemError::TableFull);
    }
    if keys_equal(&ctx.player_b, &ctx.table.player_a) {
        return Err(HoldemError::AlreadySeated);
    }

    let buy_in = ctx.table.buy_in;
    let big_blind = ctx.table.big_blind;
    let small_blind = big_blind / 2;

    let table = &mut ctx.table;
    table.player_b = ctx.player_b;
    table.player_b_stack = buy_in;
    table.salt_b = salt_b;
    table.player_b_mask_commit = mask_commit_b;

    table.player_a_bet = small_blind;
    table.player_b_bet = big_blind;
    table.player_a_stack = table.player_a_stack - small_blind;
    table.player_b_stack = table.player_b_stack - big_blind;
    table.pot = small_blind + big_blind;

    table.arcium_task_id = computation_offset;
    table.state = TableState::Dealing;
    table.current_turn = 0;
    table.acted_this_street = false;
    Ok(())
}

} // verus!
