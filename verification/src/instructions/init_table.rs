//! Player A opens a table: sets the buy-in and big blind and commits to a mask.
use vstd::prelude::*;
use crate::errors::HoldemError;
use crate::state::{cleared_commit, no_key, Table, TableState};

verus! {

/// What opening a table reads: the signer, who becomes player A, and the bump of
/// the table's program address.
#[derive(Clone, Copy, Debug)]
pub struct InitTable {
    pub player_a: [u8; 32],
    pub bump: u8,
}

/// The error opening a table is refused with, if any.
pub open spec fn init_table_error(buy_in: u64, big_blind: u64) -> Option<HoldemError> {
    if big_blind == 0 {
        Some(HoldemError::InvalidBlind)
    } else if buy_in < big_blind * 2 {
        Some(HoldemError::InvalidBuyIn)
    } else {
        None
    }
}

/// A freshly opened table: A seated with the whole buy-in as stack, no bets, no
/// pot, no cards, waiting for a second player.
pub open spec fn opened_table(
    ctx: InitTable,
    buy_in: u64,
    big_blind: u64,
    salt_a: u64,
    mask_commit: [u8; 32],
) -> Table {
    Table {
        player_a: ctx.player_a,
        player_b: no_key(),
        player_a_stack: buy_in,
        player_b_stack: 0,
        player_a_bet: 0,
        player_b_bet: 0,
        pot: 0,
        salt_a,
        salt_b: 0,
        buy_in,
        big_blind,
        player_a_card1: 0,
        player_a_card2: 0,
        player_b_card1: 0,
        player_b_card2: 0,
        community: vstd::array::spec_array_fill_for_copy_type::<u8, 5>(0u8),
        community_flags: 0,
        player_a_mask_commit: mask_commit,
        player_b_mask_commit: cleared_commit(),
        state: TableState::WaitingForPlayer,
        current_turn: 0,
        arcium_task_id: 0,
        state_nonce: 0,
        bump: ctx.bump,
        acted_this_street: false,
    }
}

/// Opens a table for player A, who deposits the buy-in (the transfer is made by
/// the caller once this succeeds). The big blind must be positive and the buy-in
/// at least two big blinds.
pub fn init_table(ctx: &InitTable, buy_in: u64, big_blind: u64, salt_a: u64, mask_commit: [u8; 32]) -> (r:
    Result<Table, HoldemError>)
    ensures
        match init_table_error(buy_in, big_blind) {
            Some(e) => r == Err::<Table, HoldemError>(e),
            None => r == Ok::<Table, HoldemError>(
                opened_table(*ctx, buy_in, big_blind, salt_a, mask_commit),
            ),
        },
{
    if !(big_blind > 0) {
        return Err(HoldemError::InvalidBlind);
    }
    // The buy-in covers two big blinds exactly when the big blind is at most
    // half of it (this also answers a big blind beyond half of u64::MAX).
    if big_blind > buy_in / 2 {
        return Err(HoldemError::InvalidBuyIn);
    }
    Ok(
        Table {
            player_a: ctx.player_a,
            player_b: [0u8; 32],
            player_a_stack: buy_in,
            player_b_stack: 0,
            player_a_bet: 0,
            player_b_bet: 0,
            pot: 0,
            salt_a,
            salt_b: 0,
            buy_in,
            big_blind,
            player_a_card1: 0,
            player_a_card2: 0,
            player_b_card1: 0,
            player_b_card2: 0,
            community: [0u8; 5],
            community_flags: 0,
            player_a_mask_commit: mask_commit,
            player_b_mask_commit: [0u8; 32],
            state: TableState::WaitingForPlayer,
            current_turn: 0,
            arcium_task_id: 0,
            state_nonce: 0,
            bump: ctx.bump,
            acted_this_street: false,
        },
    )
}

} // verus!
