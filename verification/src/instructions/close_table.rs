//! Player A closes a settled table: each player's remaining stack goes back to
//! them and A reclaims the account's rent.
use vstd::prelude::*;
use crate::errors::HoldemError;
use crate::state::{keys_equal, Table, TableState};

verus! {

/// What closing reads: the signer, the table, and the wallet that receives
/// player B's remaining stack.
#[derive(Clone, Copy, Debug)]
pub struct CloseTable {
    pub player_a: [u8; 32],
    pub table: Table,
    pub player_b_wallet: [u8; 32],
}

/// Where the table's chips go when it closes: `to_player_b` lamports to B's
/// wallet; `to_player_a`, with the rent (all that is left), to player A as the
/// account is closed.
#[derive(Clone, Copy, Debug, PartialEq, Eq, Structural)]
pub struct CloseRefunds {
    pub to_player_a: u64,
    pub to_player_b: u64,
}

/// Allows closing once the hand is settled, only to player A, and only with
/// player B's wallet named; returns each player's remaining stack to them.
pub fn close_table(ctx: &CloseTable) -> (r: Result<CloseRefunds, HoldemError>)
    ensures
        r == if ctx.table.state != TableState::Settled {
            Err::<CloseRefunds, HoldemError>(HoldemError::InvalidState)
        } else if ctx.table.player_a != ctx.player_a {
            Err::<CloseRefunds, HoldemError>(HoldemError::NotYourTurn)
        } else if ctx.player_b_wallet != ctx.table.player_b {
            Err::<CloseRefunds, HoldemError>(HoldemError::NotYourTurn)
        } else {
            Ok::<CloseRefunds, HoldemError>(
                CloseRefunds {
                    to_player_a: ctx.table.player_a_stack,
                    to_player_b: ctx.table.player_b_stack,
                },
            )
        },
{
    if ctx.table.state != TableState::Settled {
        return Err(HoldemError::InvalidState);
    }
    if !keys_equal(&ctx.table.player_a, &ctx.player_a) {
        return Err(HoldemError::NotYourTurn);
    }
    if !keys_equal(&ctx.player_b_wallet, &ctx.table.player_b) {
        return Err(HoldemError::NotYourTurn);
    }
    Ok(CloseRefunds { to_player_a: ctx.table.player_a_stack, to_player_b: ctx.table.player_b_stack })
}

} // verus!
