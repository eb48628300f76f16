//! Showdown: each player reveals the mask of their hole cards; once both have,
//! the hands are compared and the pot is paid out.
use vstd::prelude::*;
use vstd::bytes::{spec_u64_to_le_bytes, u64_to_le_bytes};
use crate::errors::HoldemError;
use crate::hand::{best_five_score, best_hand_of_seven};
use crate::keccak::{keccak256, keccak_hash};
use crate::state::{cleared_commit, is_zero, is_zero_key, keys_equal, GameSettled, Table, TableState};

verus! {

/// What the reveal reads: the signer, the table and its key, and the two wallets
/// that the pot is paid to.
#[derive(Clone, Copy, Debug)]
pub struct RevealShowdown {
    pub player: [u8; 32],
    pub table: Table,
    pub table_key: [u8; 32],
    pub player_a_wallet: [u8; 32],
    pub player_b_wallet: [u8; 32],
}

/// What is left to do once the table is updated.
#[derive(Clone, Copy, Debug)]
pub enum RevealOutcome {
    /// The other player has yet to reveal.
    AwaitingOther,
    /// The hand is over: move `payout_a` lamports from the table to player A's
    /// wallet and `payout_b` to player B's, and report the settlement.
    Settled { settled: GameSettled, payout_a: u64, payout_b: u64 },
}

/// The bytes a mask commitment is the hash of: the mask in little-endian order,
/// then the table's key.
pub open spec fn mask_preimage(mask: u64, table_key: [u8; 32]) -> Seq<u8> {
    spec_u64_to_le_bytes(mask) + table_key@
}

/// A player's seven cards: the two hole cards, as bytes, then the five community cards.
pub open spec fn seven_cards(card1: u64, card2: u64, community: [u8; 5]) -> Seq<u8> {
    seq![card1 as u8, card2 as u8] + community@
}

/// The table after the signer's mask is applied to their hole cards and their
/// commitment cleared.
pub open spec fn unmasked(t: Table, is_a: bool, mask: u64) -> Table {
    if is_a {
        Table {
            player_a_card1: t.player_a_card1 ^ mask,
            player_a_card2: t.player_a_card2 ^ mask,
            player_a_mask_commit: cleared_commit(),
            ..t
        }
    } else {
        Table {
            player_b_card1: t.player_b_card1 ^ mask,
            player_b_card2: t.player_b_card2 ^ mask,
            player_b_mask_commit: cleared_commit(),
            ..t
        }
    }
}

/// The mask commitment of the signer's opponent: B's when the signer is player
/// A, else A's.
pub open spec fn other_commit(t: Table, player: [u8; 32]) -> [u8; 32] {
    if player == t.player_a {
        t.player_b_mask_commit
    } else {
        t.player_a_mask_commit
    }
}

/// Both commitments are cleared: both players have revealed.
pub open spec fn both_revealed(t: Table) -> bool {
    is_zero_key(t.player_a_mask_commit) && is_zero_key(t.player_b_mask_commit)
}

/// Unmasking clears the signer's commitment and keeps the opponent's: both
/// have then revealed exactly when the opponent's commitment was already
/// cleared.
pub proof fn lemma_unmasked_commits(t: Table, player: [u8; 32], mask: u64)
    ensures
        other_commit(unmasked(t, player == t.player_a, mask), player) == other_commit(t, player),
        both_revealed(unmasked(t, player == t.player_a, mask)) <==> (forall|i: int|
            0 <= i < 32 ==> #[trigger] other_commit(t, player)@[i] == 0),
{
    let c = cleared_commit();
    assert(forall|i: int| 0 <= i < 32 ==> #[trigger] c@[i] == 0);
    let t1 = unmasked(t, player == t.player_a, mask);
    if player == t.player_a {
        assert(is_zero_key(t1.player_a_mask_commit));
        assert(t1.player_b_mask_commit == t.player_b_mask_commit);
    } else {
        assert(is_zero_key(t1.player_b_mask_commit));
        assert(t1.player_a_mask_commit == t.player_a_mask_commit);
    }
}

/// Who wins at showdown: 0 when A's best five cards score higher, 1 when B's
/// do, 2 on a tie.
pub open spec fn showdown_winner(t: Table) -> u8 {
    let a = best_five_score(seven_cards(t.player_a_card1, t.player_a_card2, t.community));
    let b = best_five_score(seven_cards(t.player_b_card1, t.player_b_card2, t.community));
    if a > b {
        0
    } else if b > a {
        1
    } else {
        2
    }
}

/// How the pot is split: all to the winner; on a tie, half each, the odd
/// lamport to player A.
pub open spec fn payouts(winner: u8, pot: u64) -> (u64, u64) {
    if winner == 0 {
        (pot, 0)
    } else if winner == 1 {
        (0, pot)
    } else {
        ((pot - pot / 2) as u64, pot / 2)
    }
}

/// The error the reveal is refused with, if any, given the hash of the revealed
/// mask: not at showdown, signer not seated, hash not the signer's commitment,
/// or, when this reveal completes the showdown, wallets not the players' keys.
pub open spec fn reveal_error(ctx: RevealShowdown, mask: u64, digest: Seq<u8>) -> Option<HoldemError> {
    let t = ctx.table;
    let is_a = ctx.player == t.player_a;
    if t.state != TableState::Showdown {
        Some(HoldemError::NotShowdown)
    } else if !(is_a || ctx.player == t.player_b) {
        Some(HoldemError::NotYourTurn)
    } else if is_a && digest != t.player_a_mask_commit@ {
        Some(HoldemError::InvalidMaskReveal)
    } else if !is_a && digest != t.player_b_mask_commit@ {
        Some(HoldemError::InvalidMaskReveal)
    } else if both_revealed(unmasked(t, is_a, mask)) && (ctx.player_a_wallet != t.player_a
        || ctx.player_b_wallet != t.player_b) {
        Some(HoldemError::NotYourTurn)
    } else {
        None
    }
}

/// The table and what is left to do after an accepted reveal.
pub open spec fn reveal_effect(ctx: RevealShowdown, mask: u64) -> (Table, RevealOutcome) {
    let t1 = unmasked(ctx.table, ctx.player == ctx.table.player_a, mask);
    if !both_revealed(t1) {
        (t1, RevealOutcome::AwaitingOther)
    } else {
        let winner = showdown_winner(t1);
        let (pa, pb) = payouts(winner, t1.pot);
        (
            Table { pot: 0, state: TableState::Settled, ..t1 },
            RevealOutcome::Settled {
                settled: GameSettled { table: ctx.table_key, winner, pot: t1.pot },
                payout_a: pa,
                payout_b: pb,
            },
        )
    }
}

/// The reveal, given `digest`, the hash of the mask preimage.
///
/// Checks that the table is at showdown, that the signer is seated and that
/// `digest` is the signer's commitment; then unmasks the signer's hole cards by
/// XOR and clears the commitment. Once both have revealed, evaluates each
/// player's best five of seven cards and settles the pot (on a tie half each,
/// the odd lamport to A). On an error the context is unchanged.
pub fn reveal_showdown_with_digest(ctx: &mut RevealShowdown, mask: u64, digest: &[u8; 32]) -> (r:
    Result<RevealOutcome, HoldemError>)
    ensures
        match reveal_error(*old(ctx), mask, digest@) {
            Some(e) => r == Err::<RevealOutcome, HoldemError>(e) && *final(ctx) == *old(ctx),
            None => {
                let (t2, o) = reveal_effect(*old(ctx), mask);
                &&& r == Ok::<RevealOutcome, HoldemError>(o)
                &&& *final(ctx) == (RevealShowdown { table: t2, ..*old(ctx) })
            },
        },
        r matches Ok(o) ==> ((o is Settled) <==> forall|i: int|
            0 <= i < 32 ==> #[trigger] other_commit(old(ctx).table, old(ctx).player)@[i] == 0),
        r matches Ok(RevealOutcome::AwaitingOther) ==> final(ctx).table.state == TableState::Showdown
            && final(ctx).table.pot == old(ctx).table.pot,
{
    if ctx.table.state != TableState::Showdown {
        return Err(HoldemError::NotShowdown);
    }
    let player_a_key = ctx.table.player_a;
    let player_b_key = ctx.table.player_b;
    let is_a = keys_equal(&ctx.player, &player_a_key);
    let is_b = keys_equal(&ctx.player, &player_b_key);
    if !(is_a || is_b) {
        return Err(HoldemError::NotYourTurn);
    }
    assert(digest@ == ctx.table.player_a_mask_commit@ <==> *digest == ctx.table.player_a_mask_commit) by {
        if digest@ == ctx.table.player_a_mask_commit@ {
            assert(*digest =~= ctx.table.player_a_mask_commit);
        }
    }
    assert(digest@ == ctx.table.player_b_mask_commit@ <==> *digest == ctx.table.player_b_mask_commit) by {
        if digest@ == ctx.table.player_b_mask_commit@ {
            assert(*digest =~= ctx.table.player_b_mask_commit);
        }
    }

    let mut t = ctx.table;
    if is_a {
        if !keys_equal(digest, &t.player_a_mask_commit) {
            return Err(HoldemError::InvalidMaskReveal);
        }
        t.player_a_card1 = t.player_a_card1 ^ mask;
        t.player_a_card2 = t.player_a_card2 ^ mask;
        t.player_a_mask_commit = [0u8; 32];
    } else {
        if !keys_equal(digest, &t.player_b_mask_commit) {
            return Err(HoldemError::InvalidMaskReveal);
        }
        t.player_b_card1 = t.player_b_card1 ^ mask;
        t.player_b_card2 = t.player_b_card2 ^ mask;
        t.player_b_mask_commit = [0u8; 32];
    }
    assert(t == unmasked(ctx.table, is_a, mask));
    proof {
        lemma_unmasked_commits(ctx.table, ctx.player, mask);
    }

    if !is_zero(&t.player_a_mask_commit) || !is_zero(&t.player_b_mask_commit) {
        ctx.table = t;
        return Ok(RevealOutcome::AwaitingOther);
    }

    let p1_hand = [
        t.player_a_card1 as u8,
        t.player_a_card2 as u8,
        t.community[0],
        t.community[1],
        t.community[2],
        t.community[3],
        t.community[4],
    ];
    let p2_hand = [
        t.player_b_card1 as u8,
        t.player_b_card2 as u8,
        t.community[0],
        t.community[1],
        t.community[2],
        t.community[3],
        t.community[4],
    ];
    assert(p1_hand@ =~= seven_cards(t.player_a_card1, t.player_a_card2, t.community));
    assert(p2_hand@ =~= seven_cards(t.player_b_card1, t.player_b_card2, t.community));
    let p1_rank = best_hand_of_seven(p1_hand);
    let p2_rank = best_hand_of_seven(p2_hand);

    let winner: u8 = if p1_rank > p2_rank {
        0
    } else if p2_rank > p1_rank {
        1
    } else {
        2
    };
    let pot = t.pot;
    t.pot = 0;
    t.state = TableState::Settled;

    if !keys_equal(&ctx.player_a_wallet, &player_a_key) {
        return Err(HoldemError::NotYourTurn);
    }
    if !keys_equal(&ctx.player_b_wallet, &player_b_key) {
        return Err(HoldemError::NotYourTurn);
    }

    let (payout_a, payout_b) = if winner == 0 {
        (pot, 0)
    } else if winner == 1 {
        (0, pot)
    } else {
        let half = pot / 2;
        let remainder = pot - half * 2;
        (half + remainder, half)
    };
    ctx.table = t;
    Ok(
        RevealOutcome::Settled {
            settled: GameSettled { table: ctx.table_key, winner, pot },
            payout_a,
            payout_b,
        },
    )
}

/// The bytes hashed for a mask commitment: the mask in little-endian order,
/// then the table's key.
pub fn mask_preimage_bytes(mask: u64, table_key: &[u8; 32]) -> (bytes: Vec<u8>)
    ensures
        bytes@ == mask_preimage(mask, *table_key),
{
    let mut bytes = u64_to_le_bytes(mask);
    let ghost prefix = bytes@;
    for i in 0..32
        invariant
            bytes@ == prefix + table_key@.take(i as int),
    {
        bytes.push(table_key[i]);
        assert(table_key@.take(i as int + 1) =~= table_key@.take(i as int).push(table_key@[i as int]));
    }
    assert(table_key@.take(32) =~= table_key@);
    bytes
}

/// At showdown, the signer reveals `mask`: the reveal is accepted when the
/// Keccak-256 hash of the mask (little-endian) followed by the table key is
/// the signer's commitment. See `reveal_showdown_with_digest` for the rest.
pub fn reveal_showdown(ctx: &mut RevealShowdown, mask: u64) -> (r: Result<RevealOutcome, HoldemError>)
    ensures
        match reveal_error(*old(ctx), mask, keccak256(mask_preimage(mask, old(ctx).table_key))) {
            Some(e) => r == Err::<RevealOutcome, HoldemError>(e) && *final(ctx) == *old(ctx),
            None => {
                let (t2, o) = reveal_effect(*old(ctx), mask);
                &&& r == Ok::<RevealOutcome, HoldemError>(o)
                &&& *final(ctx) == (RevealShowdown { table: t2, ..*old(ctx) })
            },
        },
        r matches Ok(o) ==> ((o is Settled) <==> forall|i: int|
            0 <= i < 32 ==> #[trigger] other_commit(old(ctx).table, old(ctx).player)@[i] == 0),
        r matches Ok(RevealOutcome::AwaitingOther) ==> final(ctx).table.state == TableState::Showdown
            && final(ctx).table.pot == old(ctx).table.pot,
{
    let preimage = mask_preimage_bytes(mask, &ctx.table_key);
    let digest = keccak_hash(preimage.as_slice());
    reveal_showdown_with_digest(ctx, mask, &digest)
}

} // verus!
