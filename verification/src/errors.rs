use vstd::prelude::*;

verus! {

/// Every way an instruction of the table can be refused.
#[derive(Clone, Copy, Debug, PartialEq, Eq, Structural)]
pub enum HoldemError {
    /// Table already has two players.
    TableFull,
    /// Player is already seated at this table.
    AlreadySeated,
    /// Not your turn to act (also: signer or wallet is not a seated player).
    NotYourTurn,
    /// Invalid game state for this instruction.
    InvalidState,
    /// Insufficient stack for this action.
    InsufficientStack,
    /// Raise amount must exceed the current bet by at least one big blind.
    InvalidRaise,
    /// Game must be in Showdown state to reveal cards.
    NotShowdown,
    /// Arcium cluster is not configured.
    ClusterNotSet,
    /// Buy-in must be at least twice the big blind.
    InvalidBuyIn,
    /// Big blind must be greater than zero.
    InvalidBlind,
    /// Cannot check: there is an outstanding bet; call or fold.
    CannotCheck,
    /// Call amount exceeds stack.
    CallExceedsStack,
    /// Mask does not match the committed hash.
    InvalidMaskReveal,
    /// Both players must reveal before the pot can be settled.
    AwaitingOtherReveal,
}

} // verus!
