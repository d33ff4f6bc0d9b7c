//! Escrow accounting: accepting a participant's stake into the pool.

use vstd::prelude::*;

verus! {

use crate::model::lemma_sum_push;
use crate::state::BetAccount;
use crate::state::BetError;
use crate::state::BetStatus;
use crate::state::Identity;
use crate::state::MAX_PLAYERS;
use crate::state::TOTAL_BLOCKS;

impl BetAccount {
    /// Which rejection, if any, this join attempt meets, in the order the
    /// conditions are checked.
    pub open spec fn join_check(self, player: Identity, chosen_block: u8, deposit_amount: u64) -> Result<
        (),
        BetError,
    > {
        if !(self.status is Open) {
            Err(BetError::BetNotOpen)
        } else if chosen_block == 0 || chosen_block > TOTAL_BLOCKS {
            Err(BetError::InvalidBlock)
        } else if deposit_amount < self.min_deposit {
            Err(BetError::InsufficientDeposit)
        } else if self.player_count >= MAX_PLAYERS {
            Err(BetError::BetFull)
        } else if self.players@.contains(player) {
            Err(BetError::AlreadyJoined)
        } else {
            Ok(())
        }
    }

    /// Enter `player` into an open bet with a stake of `deposit_amount` on
    /// `chosen_block`. On success the participant is appended to every
    /// parallel sequence, unclaimed, and the pool grows by the stake; the
    /// host must have moved that stake into escrow in the same atomic step.
    /// On any rejection the record is untouched. The pool-overflow bound is
    /// a machine limit: the host's currency supply keeps every real pool far
    /// below it.
    pub fn join_bet(&mut self, player: Identity, chosen_block: u8, deposit_amount: u64) -> (r:
        Result<(), BetError>)
        requires
            old(self).well_formed(),
            old(self).total_pool + deposit_amount <= u64::MAX,
        ensures
            final(self).well_formed(),
            r == old(self).join_check(player, chosen_block, deposit_amount),
            r is Ok ==> {
                &&& final(self).players@ == old(self).players@.push(player)
                &&& final(self).chosen_blocks@ == old(self).chosen_blocks@.push(chosen_block)
                &&& final(self).deposits@ == old(self).deposits@.push(deposit_amount)
                &&& final(self).claimed@ == old(self).claimed@.push(false)
                &&& final(self).player_count == old(self).player_count + 1
                &&& final(self).total_pool == old(self).total_pool + deposit_amount
                &&& final(self).creator == old(self).creator
                &&& final(self).arbiter == old(self).arbiter
                &&& final(self).min_deposit == old(self).min_deposit
                &&& final(self).lock_time == old(self).lock_time
                &&& final(self).winner_block == old(self).winner_block
                &&& final(self).status == old(self).status
                &&& final(self).is_automatic == old(self).is_automatic
            },
            r is Err ==> *final(self) == *old(self),
    {
        if self.status != BetStatus::Open {
            return Err(BetError::BetNotOpen);
        }
        if chosen_block == 0 || chosen_block > TOTAL_BLOCKS {
            return Err(BetError::InvalidBlock);
        }
        if deposit_amount < self.min_deposit {
            return Err(BetError::InsufficientDeposit);
        }
        if self.player_count >= MAX_PLAYERS {
            return Err(BetError::BetFull);
        }
        if self.contains_player(player) {
            return Err(BetError::AlreadyJoined);
        }
        proof {
            lemma_sum_push(self.deposits@, deposit_amount);
        }
        self.players.push(player);
        self.chosen_blocks.push(chosen_block);
        self.deposits.push(deposit_amount);
        self.claimed.push(false);
        self.player_count = self.player_count + 1;
        self.total_pool = self.total_pool + deposit_amount;
        Ok(())
    }
}

} // verus!
