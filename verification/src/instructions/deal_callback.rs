//! The deal's result arrives: masked hole cards and community cards are stored.
use vstd::prelude::*;
use crate::errors::HoldemError;
use crate::state::{CardsDealt, Table, TableState};

verus! {

/// The nine values the deal reveals: `[0..2]` player A's masked hole cards,
/// `[2..4]` player B's, `[4..9]` the community cards (0-51).
#[derive(Clone, Copy, Debug)]
pub struct DealCallbackOutput {
    pub field_0: [u64; 9],
}

/// What the callback reads: the table and its key.
#[derive(Clone, Copy, Debug)]
pub struct DealCallback {
    pub table_key: [u8; 32],
    pub table: Table,
}

/// The error the callback is refused with, if any: the output's signature did
/// not verify (`None`), or no deal is pending.
pub open spec fn deal_callback_error(ctx: DealCallback, output: Option<DealCallbackOutput>) -> Option<
    HoldemError,
> {
    if output is None {
        Some(HoldemError::InvalidState)
    } else if ctx.table.state != TableState::Dealing {
        Some(HoldemError::InvalidState)
    } else {
        None
    }
}

/// The table with the deal stored: hole cards as revealed, community cards cut
/// to a byte, and betting open pre-flop.
pub open spec fn dealt_table(t: Table, cards: [u64; 9]) -> Table {
    Table {
        player_a_card1: cards[0],
        player_a_card2: cards[1],
        player_b_card1: cards[2],
        player_b_card2: cards[3],
        community: [cards[4] as u8, cards[5] as u8, cards[6] as u8, cards[7] as u8, cards[8] as u8],
        state: TableState::PreFlop,
        ..t
    }
}

/// Stores the deal once its output is verified (`None` when it did not verify)
/// and opens pre-flop betting. On an error the context is unchanged.
pub fn deal_callback(ctx: &mut DealCallback, output: Option<DealCallbackOutput>) -> (r: Result<
    CardsDealt,
    HoldemError,
>)
    ensures
        match deal_callback_error(*old(ctx), output) {
            Some(e) => r == Err::<CardsDealt, HoldemError>(e) && *final(ctx) == *old(ctx),
            None => {
                &&& r == Ok::<CardsDealt, HoldemError>(CardsDealt { table: old(ctx).table_key })
                &&& *final(ctx) == (DealCallback {
                    table: dealt_table(old(ctx).table, output.unwrap().field_0),
                    ..*old(ctx)
                })
            },
        },
{
    let cards = match output {
        Some(DealCallbackOutput { field_0 }) => field_0,
        None => {
            return Err(HoldemError::InvalidState);
        },
    };

    let table_key = ctx.table_key;
    let table = &mut ctx.table;

    if table.state != TableState::Dealing {
        return Err(HoldemError::InvalidState);
    }

    table.player_a_card1 = cards[0];
    table.player_a_card2 = cards[1];
    table.player_b_card1 = cards[2];
    table.player_b_card2 = cards[3];

    // Community cards are 0-51: each is stored as a byte.
    table.community = [
        cards[4] as u8,
        cards[5] as u8,
        cards[6] as u8,
        cards[7] as u8,
        cards[8] as u8,
    ];

    table.state = TableState::PreFlop;

    Ok(CardsDealt { table: table_key })
}

} // verus!
