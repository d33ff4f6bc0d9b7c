//! Cross-operation laws of the lifecycle, stated over the same outcome
//! specifications the operations' own contracts use.

use vstd::prelude::*;

verus! {

use crate::state::BetAccount;
use crate::state::BetError;
use crate::state::Identity;

/// Law: a bet that has left the `Open` state is settled for good — every
/// later join, reveal or cancel attempt is rejected with `BetNotOpen`, and
/// every rejected operation leaves the record unchanged, so in particular a
/// recorded winning block never changes.
pub proof fn lemma_settled_bet_rejects_mutation(
    b: BetAccount,
    caller: Identity,
    winning_block: u8,
    chosen_block: u8,
    deposit_amount: u64,
    now: i64,
    slot: u64,
)
    requires
        !(b.status is Open),
    ensures
        b.join_check(caller, chosen_block, deposit_amount) == Err::<(), BetError>(
            BetError::BetNotOpen,
        ),
        b.reveal_check(caller, winning_block) == Err::<(), BetError>(BetError::BetNotOpen),
        b.auto_reveal_check(now, slot) == Err::<u8, BetError>(BetError::BetNotOpen),
        b.cancel_check(now) == Err::<(), BetError>(BetError::BetNotOpen),
{
}

/// Law: resolution matches the bet's mode. A manual reveal of an automatic
/// bet and an automatic reveal of an arbitrated bet are always rejected,
/// whoever calls, whatever the block and whatever the clock reads.
pub proof fn lemma_reveal_matches_mode(
    b: BetAccount,
    caller: Identity,
    winning_block: u8,
    now: i64,
    slot: u64,
)
    ensures
        b.is_automatic ==> b.reveal_check(caller, winning_block) is Err,
        b.is_automatic && b.status is Open ==> b.reveal_check(caller, winning_block) == Err::<
            (),
            BetError,
        >(BetError::AutomaticBetCannotManualReveal),
        !b.is_automatic ==> b.auto_reveal_check(now, slot) is Err,
        !b.is_automatic && b.status is Open ==> b.auto_reveal_check(now, slot) == Err::<
            u8,
            BetError,
        >(BetError::NotAutomaticBet),
{
}

/// Law: once a participant's claim has succeeded — their claim flag is set —
/// every further claim by the same participant is rejected with
/// `AlreadyClaimed`, and so moves nothing.
pub proof fn lemma_second_claim_rejected(b: BetAccount, caller: Identity)
    requires
        b.well_formed(),
        b.status is Revealed,
        b.players@.contains(caller),
        b.claimed@[b.spec_player_index(caller)],
    ensures
        b.claim_check(caller) == Err::<u64, BetError>(BetError::AlreadyClaimed),
{
}

} // verus!
