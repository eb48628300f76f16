//! The table account, its phases, the actions a player can take, and the events
//! the program reports.
use vstd::prelude::*;

verus! {

/// Phase of a hand.
#[derive(Clone, Copy, Debug, PartialEq, Eq, Structural)]
pub enum TableState {
    WaitingForPlayer,
    Dealing,
    PreFlop,
    Flop,
    Turn,
    River,
    Showdown,
    /// Set to Settled once the pot has been paid out.
    Settled,
}

/// What a player does on their turn.
#[derive(Clone, Copy, Debug, PartialEq, Eq, Structural)]
pub enum PlayerAction {
    Fold,
    Check,
    Call,
    Raise,
}

/// The table account of one heads-up hand. Keys are 32-byte public keys; the
/// all-zero key stands for "no one".
#[derive(Clone, Copy, Debug)]
pub struct Table {
    pub player_a: [u8; 32],
    pub player_b: [u8; 32],
    pub player_a_stack: u64,
    pub player_b_stack: u64,
    /// Outstanding bet by each player in the current street.
    pub player_a_bet: u64,
    pub player_b_bet: u64,
    pub pot: u64,
    /// Random salts contributed by each player for deck seed derivation.
    pub salt_a: u64,
    pub salt_b: u64,
    pub buy_in: u64,
    pub big_blind: u64,
    /// Hole cards masked by the owner's secret; unmasked at showdown.
    pub player_a_card1: u64,
    pub player_a_card2: u64,
    pub player_b_card1: u64,
    pub player_b_card2: u64,
    /// Community cards (0-51). Index 0-2 = flop, 3 = turn, 4 = river.
    pub community: [u8; 5],
    /// Which community cards are live: bits 0-2 flop, bit 3 turn, bit 4 river.
    pub community_flags: u8,
    /// Keccak-256 commitments to each player's mask: hash(mask_le || table key).
    /// Zeroed once the player has revealed.
    pub player_a_mask_commit: [u8; 32],
    pub player_b_mask_commit: [u8; 32],
    pub state: TableState,
    /// 0 = player_a's turn, 1 = player_b's turn.
    pub current_turn: u8,
    pub arcium_task_id: u64,
    pub state_nonce: u128,
    pub bump: u8,
    /// A player has acted on the current street (posting a blind is no action):
    /// the next check or call closes the street.
    pub acted_this_street: bool,
}

/// Emitted when the deal has been stored on the table.
#[derive(Clone, Copy, Debug)]
pub struct CardsDealt {
    pub table: [u8; 32],
}

/// Emitted when betting moves to the next street.
#[derive(Clone, Copy, Debug)]
pub struct StreetAdvanced {
    pub table: [u8; 32],
    pub state: u8,
}

/// Emitted when the pot has been paid out.
#[derive(Clone, Copy, Debug)]
pub struct GameSettled {
    pub table: [u8; 32],
    /// 0 = player_a wins, 1 = player_b wins, 2 = split pot.
    pub winner: u8,
    pub pot: u64,
}

/// All 32 bytes are zero: the key of no one, or a cleared commitment.
pub open spec fn is_zero_key(k: [u8; 32]) -> bool {
    forall|i: int| 0 <= i < 32 ==> #[trigger] k@[i] == 0
}

/// The cleared commitment: all 32 bytes zero.
pub open spec fn cleared_commit() -> [u8; 32] {
    vstd::array::spec_array_fill_for_copy_type::<u8, 32>(0u8)
}

/// The key of no one: all 32 bytes zero.
pub open spec fn no_key() -> [u8; 32] {
    vstd::array::spec_array_fill_for_copy_type::<u8, 32>(0u8)
}

/// Whether two keys are the same.
pub fn keys_equal(a: &[u8; 32], b: &[u8; 32]) -> (eq: bool)
    ensures
        eq == (*a == *b),
{
    let mut i: usize = 0;
    while i < 32
        invariant
            i <= 32,
            forall|k: int| 0 <= k < i ==> a@[k] == b@[k],
        decreases 32 - i,
    {
        if a[i] != b[i] {
            return false;
        }
        i = i + 1;
    }
    assert(*a =~= *b);
    true
}

/// Whether a key is the all-zero key.
pub fn is_zero(k: &[u8; 32]) -> (z: bool)
    ensures
        z == is_zero_key(*k),
{
    let mut i: usize = 0;
    while i < 32
        invariant
            i <= 32,
            forall|j: int| 0 <= j < i ==> k@[j] == 0,
        decreases 32 - i,
    {
        if k[i] != 0 {
            return false;
        }
        i = i + 1;
    }
    true
}

impl Table {
    /// Chips in front of the player whose turn index is `who` (0 = A, 1 = B).
    pub open spec fn bet_of(self, who: u8) -> u64 {
        if who == 0 {
            self.player_a_bet
        } else {
            self.player_b_bet
        }
    }

    /// Stack of the player whose turn index is `who` (0 = A, 1 = B).
    pub open spec fn stack_of(self, who: u8) -> u64 {
        if who == 0 {
            self.player_a_stack
        } else {
            self.player_b_stack
        }
    }

    /// Key of the player whose turn index is `who` (0 = A, 1 = B).
    pub open spec fn key_of(self, who: u8) -> [u8; 32] {
        if who == 0 {
            self.player_a
        } else {
            self.player_b
        }
    }

    /// A betting street is under way.
    pub open spec fn is_betting(self) -> bool {
        self.state == TableState::PreFlop || self.state == TableState::Flop || self.state
            == TableState::Turn || self.state == TableState::River
    }

    /// Chips the two players hold between them, in stacks and in the pot.
    pub open spec fn chips_on_table(self) -> int {
        self.player_a_stack + self.player_b_stack + self.pot
    }
}

} // verus!
