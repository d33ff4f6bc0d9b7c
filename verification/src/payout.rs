//! The payout calculator: each claimant's entitlement, the once-only claim
//! flag, and the law that a complete claim round conserves the pool up to
//! the floor-division residue.

use vstd::prelude::*;

verus! {

use vstd::arithmetic::div_mod::lemma_fundamental_div_mod;
use vstd::arithmetic::div_mod::lemma_div_is_ordered;
use vstd::arithmetic::div_mod::lemma_div_multiples_vanish;
use vstd::arithmetic::div_mod::lemma_mod_bound;
use vstd::arithmetic::mul::lemma_mul_inequality;
use vstd::arithmetic::mul::lemma_mul_is_commutative;
use vstd::arithmetic::mul::lemma_mul_is_distributive_add;
use crate::model::lemma_winner_count_total;
use crate::model::lemma_winner_elem_le_total;
use crate::model::winner_count;
use crate::model::winner_total;
use crate::state::BetAccount;
use crate::state::BetError;
use crate::state::BetStatus;
use crate::state::Identity;

/// Sum of the proportional payouts `pool * deposit / side`, floored, over
/// every participant who chose `winning`.
pub open spec fn sum_payouts(
    blocks: Seq<u8>,
    deposits: Seq<u64>,
    winning: u8,
    pool: int,
    side: int,
) -> int
    recommends
        blocks.len() == deposits.len(),
        side > 0,
    decreases blocks.len(),
{
    if blocks.len() == 0 || deposits.len() == 0 {
        0
    } else {
        sum_payouts(blocks.drop_last(), deposits.drop_last(), winning, pool, side) + (
        if blocks.last() == winning {
            pool * (deposits.last() as int) / side
        } else {
            0
        })
    }
}

/// Bounds on the payout sum, scaled by the winner-side total: floor division
/// loses less than one unit of `side` per winner.
proof fn lemma_sum_payouts_bounds(blocks: Seq<u8>, deposits: Seq<u64>, winning: u8, pool: int, side: int)
    requires
        blocks.len() == deposits.len(),
        side > 0,
        pool >= 0,
    ensures
        side * sum_payouts(blocks, deposits, winning, pool, side) <= pool * winner_total(
            blocks,
            deposits,
            winning,
        ),
        side * sum_payouts(blocks, deposits, winning, pool, side) >= pool * winner_total(
            blocks,
            deposits,
            winning,
        ) - winner_count(blocks, winning) * (side - 1),
    decreases blocks.len(),
{
    if blocks.len() == 0 {
        assert(side * 0 == 0) by (nonlinear_arith);
        assert(pool * 0 == 0) by (nonlinear_arith);
        assert(0int * (side - 1) == 0) by (nonlinear_arith);
    } else {
        let bs = blocks.drop_last();
        let ds = deposits.drop_last();
        lemma_sum_payouts_bounds(bs, ds, winning, pool, side);
        let s0 = sum_payouts(bs, ds, winning, pool, side);
        let wt0 = winner_total(bs, ds, winning);
        let c0 = winner_count(bs, winning);
        if blocks.last() == winning {
            let d = deposits.last() as int;
            let term = pool * d / side;
            lemma_fundamental_div_mod(pool * d, side);
            lemma_mod_bound(pool * d, side);
            lemma_mul_is_distributive_add(side, s0, term);
            lemma_mul_is_distributive_add(pool, wt0, d);
            lemma_mul_is_distributive_add_right(c0, 1, side - 1);
        } else {
            lemma_mul_is_distributive_add(side, s0, 0);
            lemma_mul_is_distributive_add(pool, wt0, 0);
        }
    }
}

/// `(y + z) * x == y * x + z * x`.
proof fn lemma_mul_is_distributive_add_right(y: int, z: int, x: int)
    ensures
        (y + z) * x == y * x + z * x,
{
    lemma_mul_is_commutative(y + z, x);
    lemma_mul_is_distributive_add(x, y, z);
    lemma_mul_is_commutative(y, x);
    lemma_mul_is_commutative(z, x);
}

/// Law: across a complete claim round of a revealed bet with at least one
/// winner, the payouts the winners draw sum to the whole pool minus a
/// rounding residue that is non-negative and strictly smaller than the
/// number of winners.
pub proof fn lemma_claim_round_conserves_pool(b: BetAccount)
    requires
        b.well_formed(),
        b.status is Revealed,
        winner_count(b.chosen_blocks@, b.winner_block->Some_0) > 0,
    ensures
        ({
            let wb = b.winner_block->Some_0;
            let side = winner_total(b.chosen_blocks@, b.deposits@, wb);
            let paid = sum_payouts(b.chosen_blocks@, b.deposits@, wb, b.total_pool as int, side);
            &&& 0 <= b.total_pool - paid
            &&& b.total_pool - paid < winner_count(b.chosen_blocks@, wb)
        }),
{
    let wb = b.winner_block->Some_0;
    let side = winner_total(b.chosen_blocks@, b.deposits@, wb);
    let count = winner_count(b.chosen_blocks@, wb);
    let pool = b.total_pool as int;
    let paid = sum_payouts(b.chosen_blocks@, b.deposits@, wb, pool, side);
    lemma_winner_count_total(b.chosen_blocks@, b.deposits@, wb);
    lemma_sum_payouts_bounds(b.chosen_blocks@, b.deposits@, wb, pool, side);
    assert(paid <= pool) by (nonlinear_arith)
        requires
            side > 0,
            pool >= 0,
            side * paid <= pool * side,
    ;
    assert(pool - paid < count) by (nonlinear_arith)
        requires
            side > 0,
            count > 0,
            side * paid >= pool * side - count * (side - 1),
    ;
}

impl BetAccount {
    /// The position of `caller` among the participants; meaningful only when
    /// `caller` participates, and then unique because no identity is listed
    /// twice.
    pub open spec fn spec_player_index(self, caller: Identity) -> int {
        choose|i: int| 0 <= i < self.players@.len() && self.players@[i] == caller
    }

    /// The outcome a claim by `caller` meets: the payout on success, else
    /// the rejection, in the order the conditions are checked. When nobody
    /// chose the winning block, every participant is refunded their own
    /// deposit; otherwise only winners draw, proportionally to their stake.
    pub open spec fn claim_check(self, caller: Identity) -> Result<u64, BetError> {
        if !(self.status is Revealed) {
            Err(BetError::WinnerNotRevealed)
        } else if !self.players@.contains(caller) {
            Err(BetError::PlayerNotFound)
        } else {
            let idx = self.spec_player_index(caller);
            let wb = self.winner_block->Some_0;
            let side = winner_total(self.chosen_blocks@, self.deposits@, wb);
            if self.claimed@[idx] {
                Err(BetError::AlreadyClaimed)
            } else if side == 0 {
                Ok(self.deposits@[idx])
            } else if self.chosen_blocks@[idx] != wb {
                Err(BetError::NotAWinner)
            } else {
                Ok((self.total_pool * self.deposits@[idx] / side) as u64)
            }
        }
    }

    /// Pay out `caller`'s entitlement from a revealed bet, exactly once.
    /// Returns the amount the host must move from escrow to the caller in
    /// the same atomic step in which the claim flag is set; a rejection
    /// leaves the record untouched, so a repeated claim always fails with
    /// `AlreadyClaimed` and moves nothing. The winner-side total is
    /// re-derived here defensively: were it zero, every participant would be
    /// refunded their own deposit.
    pub fn claim_winnings(&mut self, caller: Identity) -> (r: Result<u64, BetError>)
        requires
            old(self).well_formed(),
        ensures
            final(self).well_formed(),
            r == old(self).claim_check(caller),
            r is Ok ==> {
                &&& final(self).claimed@ == old(self).claimed@.update(
                    old(self).spec_player_index(caller),
                    true,
                )
                &&& final(self).players == old(self).players
                &&& final(self).chosen_blocks == old(self).chosen_blocks
                &&& final(self).deposits == old(self).deposits
                &&& final(self).creator == old(self).creator
                &&& final(self).arbiter == old(self).arbiter
                &&& final(self).min_deposit == old(self).min_deposit
                &&& final(self).total_pool == old(self).total_pool
                &&& final(self).lock_time == old(self).lock_time
                &&& final(self).winner_block == old(self).winner_block
                &&& final(self).status == old(self).status
                &&& final(self).is_automatic == old(self).is_automatic
            },
            r is Err ==> *final(self) == *old(self),
    {
        if self.status != BetStatus::Revealed {
            return Err(BetError::WinnerNotRevealed);
        }
        let idx = match self.player_index(caller) {
            Some(i) => i,
            None => {
                return Err(BetError::PlayerNotFound);
            },
        };
        proof {
            assert(self.players@.contains(caller));
            let chosen_idx = self.spec_player_index(caller);
            assert(0 <= chosen_idx < self.players@.len() && self.players@[chosen_idx] == caller);
            assert(idx as int == chosen_idx);
        }
        if self.claimed[idx] {
            return Err(BetError::AlreadyClaimed);
        }
        let winning_block = match self.winner_block {
            Some(w) => w,
            None => {
                return Err(BetError::WinnerNotRevealed);
            },
        };
        let player_deposit = self.deposits[idx];
        let (_count, side) = self.winner_side(winning_block);
        let payout: u64;
        if side == 0 {
            payout = player_deposit;
        } else {
            if self.chosen_blocks[idx] != winning_block {
                return Err(BetError::NotAWinner);
            }
            proof {
                lemma_winner_elem_le_total(
                    self.chosen_blocks@,
                    self.deposits@,
                    winning_block,
                    idx as int,
                );
                lemma_mul_inequality(
                    self.total_pool as int,
                    u64::MAX as int,
                    player_deposit as int,
                );
                lemma_mul_inequality(player_deposit as int, u64::MAX as int, u64::MAX as int);
                lemma_mul_is_commutative(self.total_pool as int, player_deposit as int);
                lemma_mul_is_commutative(player_deposit as int, u64::MAX as int);
                lemma_mul_inequality(player_deposit as int, side as int, self.total_pool as int);
                lemma_mul_is_commutative(side as int, self.total_pool as int);
                lemma_div_is_ordered(
                    (self.total_pool as int) * (player_deposit as int),
                    (side as int) * (self.total_pool as int),
                    side as int,
                );
                lemma_div_multiples_vanish(self.total_pool as int, side as int);
            }
            let numerator: u128 = (self.total_pool as u128) * (player_deposit as u128);
            let quotient: u128 = numerator / (side as u128);
            payout = quotient as u64;
        }
        self.claimed[idx] = true;
        Ok(payout)
    }
}

} // verus!
