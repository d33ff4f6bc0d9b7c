//! Winner resolution: the arbiter's manual disclosure for arbitrated bets,
//! and the permissionless pseudo-random draw for automatic bets.

use vstd::prelude::*;

verus! {

use vstd::arithmetic::div_mod::lemma_fundamental_div_mod;
use vstd::arithmetic::div_mod::lemma_mod_bound;
use crate::model::lemma_sum_take_le;
use crate::model::lemma_winner_count_push;
use crate::model::lemma_winner_count_total;
use crate::model::lemma_winner_total_le_sum;
use crate::model::lemma_winner_total_push;
use crate::model::winner_count;
use crate::model::winner_total;
use crate::state::BetAccount;
use crate::state::BetError;
use crate::state::BetStatus;
use crate::state::Identity;
use crate::state::TOTAL_BLOCKS;

/// The width of the two's-complement window the pseudo-random seed wraps in.
pub open spec fn seed_modulus() -> int {
    0x1_0000_0000_0000_0000
}

/// `x` brought into the 64-bit two's-complement window by wrap-around.
pub open spec fn wrap_i64(x: int) -> int {
    let m = x % seed_modulus();
    if m > i64::MAX {
        m - seed_modulus()
    } else {
        m
    }
}

pub open spec fn abs_i(x: int) -> int {
    if x < 0 {
        -x
    } else {
        x
    }
}

/// The block an automatic reveal draws: timestamp, slot counter, pool and
/// player count folded together by wrap-around addition, then the absolute
/// value taken modulo the block count and mapped into 1..=TOTAL_BLOCKS.
/// Deterministic in its four inputs, and predictable by anyone who can
/// predict them — by design this is not cryptographic randomness.
pub open spec fn derived_block(now: i64, slot: u64, pool: u64, count: u8) -> int {
    abs_i(wrap_i64(now + slot + pool + count)) % (TOTAL_BLOCKS as int) + 1
}

/// Any value congruent to `x` modulo the seed window that lies inside the
/// window is exactly `wrap_i64(x)`.
proof fn lemma_wrap_i64_congruent(x: int, y: int)
    requires
        y == x || y == x - seed_modulus() || y == x - 2 * seed_modulus() || y == x - 3
            * seed_modulus(),
        i64::MIN <= y <= i64::MAX,
    ensures
        y == wrap_i64(x),
{
    let n = seed_modulus();
    lemma_fundamental_div_mod(x, n);
    lemma_mod_bound(x, n);
    let q = x / n;
    let m = x % n;
    let w = wrap_i64(x);
    // `y` and `w` differ by a multiple of `n` yet lie in one window of
    // width `n`, so they coincide.
    if y == x {
        assert(y - w == if m > i64::MAX {
            n * q + n
        } else {
            n * q
        });
    } else if y == x - n {
        assert(y - w == if m > i64::MAX {
            n * q
        } else {
            n * q - n
        });
    } else if y == x - 2 * n {
        assert(y - w == if m > i64::MAX {
            n * q - n
        } else {
            n * q - 2 * n
        });
    } else {
        assert(y - w == if m > i64::MAX {
            n * q - 2 * n
        } else {
            n * q - 3 * n
        });
    }
    assert(-n < y - w < n);
    let c = (y - w) / n;
    lemma_fundamental_div_mod(y - w, n);
    assert(y == w) by {
        assert((y - w) % n == 0) by {
            if m > i64::MAX {
                assert(y - w == n * (q + 1) || y - w == n * q || y - w == n * (q - 1) || y - w == n
                    * (q - 2));
            } else {
                assert(y - w == n * q || y - w == n * (q - 1) || y - w == n * (q - 2) || y - w == n
                    * (q - 3));
            }
            assert(forall|k: int| #[trigger] ((n * k) % n) == 0) by {
                assert forall|k: int| #[trigger] ((n * k) % n) == 0 by {
                    vstd::arithmetic::div_mod::lemma_mod_multiples_basic(k, n);
                }
            }
        }
        assert(y - w == n * c);
    }
}

impl BetAccount {
    /// Winner count and winner-side deposit total for the candidate block
    /// `winning`, scanned over every participant.
    pub fn winner_side(&self, winning: u8) -> (r: (u64, u64))
        requires
            self.well_formed(),
        ensures
            r.0 == winner_count(self.chosen_blocks@, winning),
            r.1 == winner_total(self.chosen_blocks@, self.deposits@, winning),
    {
        let n = self.chosen_blocks.len();
        let mut count: u64 = 0;
        let mut total: u64 = 0;
        let mut i: usize = 0;
        while i < n
            invariant
                self.well_formed(),
                n == self.chosen_blocks@.len(),
                n == self.deposits@.len(),
                n <= 100,
                i <= n,
                count == winner_count(self.chosen_blocks@.take(i as int), winning),
                count <= i,
                total == winner_total(
                    self.chosen_blocks@.take(i as int),
                    self.deposits@.take(i as int),
                    winning,
                ),
            decreases n - i,
        {
            proof {
                let bt = self.chosen_blocks@.take(i as int);
                let dt = self.deposits@.take(i as int);
                assert(self.chosen_blocks@.take(i as int + 1) =~= bt.push(
                    self.chosen_blocks@[i as int],
                ));
                assert(self.deposits@.take(i as int + 1) =~= dt.push(self.deposits@[i as int]));
                lemma_winner_count_push(bt, winning, self.chosen_blocks@[i as int]);
                lemma_winner_total_push(
                    bt,
                    dt,
                    winning,
                    self.chosen_blocks@[i as int],
                    self.deposits@[i as int],
                );
                lemma_winner_total_le_sum(
                    self.chosen_blocks@.take(i as int + 1),
                    self.deposits@.take(i as int + 1),
                    winning,
                );
                lemma_sum_take_le(self.deposits@, i as int + 1);
            }
            if self.chosen_blocks[i] == winning {
                count = count + 1;
                total = total + self.deposits[i];
            }
            i = i + 1;
        }
        proof {
            assert(self.chosen_blocks@.take(n as int) =~= self.chosen_blocks@);
            assert(self.deposits@.take(n as int) =~= self.deposits@);
        }
        (count, total)
    }

    /// Which rejection, if any, a manual reveal by `caller` of
    /// `winning_block` meets, in the order the conditions are checked.
    pub open spec fn reveal_check(self, caller: Identity, winning_block: u8) -> Result<
        (),
        BetError,
    > {
        if !(self.status is Open) {
            Err(BetError::BetNotOpen)
        } else if self.is_automatic {
            Err(BetError::AutomaticBetCannotManualReveal)
        } else if self.arbiter != caller {
            Err(BetError::UnauthorizedArbiter)
        } else if winning_block == 0 || winning_block > TOTAL_BLOCKS {
            Err(BetError::InvalidBlock)
        } else if self.player_count < 2 {
            Err(BetError::NotEnoughPlayers)
        } else if winner_count(self.chosen_blocks@, winning_block) == 0 {
            Err(BetError::NoWinners)
        } else {
            Ok(())
        }
    }

    /// Disclose the winning block of an arbitrated bet. Only the arbiter may
    /// do so, only while the bet is open and has at least two players, and
    /// only with a block someone actually chose — a drawless block is
    /// rejected with `NoWinners` and leaves the bet open for a retry. There
    /// is no lock-time condition: the arbiter may resolve at any time. On
    /// success the winning block is recorded and the bet becomes `Revealed`,
    /// both for good.
    pub fn reveal_winner(&mut self, caller: Identity, winning_block: u8) -> (r: Result<
        (),
        BetError,
    >)
        requires
            old(self).well_formed(),
        ensures
            final(self).well_formed(),
            r == old(self).reveal_check(caller, winning_block),
            r is Ok ==> *final(self) == (BetAccount {
                winner_block: Some(winning_block),
                status: BetStatus::Revealed,
                ..*old(self)
            }),
            r is Ok ==> winner_total(old(self).chosen_blocks@, old(self).deposits@, winning_block)
                > 0,
            r is Err ==> *final(self) == *old(self),
    {
        if self.status != BetStatus::Open {
            return Err(BetError::BetNotOpen);
        }
        if self.is_automatic {
            return Err(BetError::AutomaticBetCannotManualReveal);
        }
        if self.arbiter != caller {
            return Err(BetError::UnauthorizedArbiter);
        }
        if winning_block == 0 || winning_block > TOTAL_BLOCKS {
            return Err(BetError::InvalidBlock);
        }
        if self.player_count < 2 {
            return Err(BetError::NotEnoughPlayers);
        }
        let (count, _total) = self.winner_side(winning_block);
        if count == 0 {
            return Err(BetError::NoWinners);
        }
        proof {
            lemma_winner_count_total(self.chosen_blocks@, self.deposits@, winning_block);
        }
        self.winner_block = Some(winning_block);
        self.status = BetStatus::Revealed;
        Ok(())
    }

    /// Which outcome an automatic reveal at time `now` and slot `slot`
    /// meets: the drawn block on success, else the rejection, in the order
    /// the conditions are checked.
    pub open spec fn auto_reveal_check(self, now: i64, slot: u64) -> Result<u8, BetError> {
        let wb = derived_block(now, slot, self.total_pool, self.player_count) as u8;
        if !(self.status is Open) {
            Err(BetError::BetNotOpen)
        } else if !self.is_automatic {
            Err(BetError::NotAutomaticBet)
        } else if now < self.lock_time {
            Err(BetError::BetNotLocked)
        } else if self.player_count < 2 {
            Err(BetError::NotEnoughPlayers)
        } else if winner_count(self.chosen_blocks@, wb) == 0 {
            Err(BetError::NoWinners)
        } else {
            Ok(wb)
        }
    }

    /// Resolve an automatic bet. Anyone may trigger it once the lock time
    /// has passed and at least two players joined. The winning block is
    /// `derived_block` of the clock readings and the pool state; if nobody
    /// chose it the attempt is rejected with `NoWinners` and the bet stays
    /// open, so a later trigger may draw differently. On success the drawn
    /// block is recorded and returned, and the bet becomes `Revealed`.
    pub fn auto_reveal_winner(&mut self, now: i64, slot: u64) -> (r: Result<u8, BetError>)
        requires
            old(self).well_formed(),
        ensures
            final(self).well_formed(),
            r == old(self).auto_reveal_check(now, slot),
            r is Ok ==> *final(self) == (BetAccount {
                winner_block: Some(r->Ok_0),
                status: BetStatus::Revealed,
                ..*old(self)
            }),
            r is Ok ==> winner_total(old(self).chosen_blocks@, old(self).deposits@, r->Ok_0) > 0,
            r is Err ==> *final(self) == *old(self),
    {
        if self.status != BetStatus::Open {
            return Err(BetError::BetNotOpen);
        }
        if !self.is_automatic {
            return Err(BetError::NotAutomaticBet);
        }
        if now < self.lock_time {
            return Err(BetError::BetNotLocked);
        }
        if self.player_count < 2 {
            return Err(BetError::NotEnoughPlayers);
        }
        let winning_block = derive_block(now, slot, self.total_pool, self.player_count);
        let (count, _total) = self.winner_side(winning_block);
        if count == 0 {
            return Err(BetError::NoWinners);
        }
        proof {
            lemma_winner_count_total(self.chosen_blocks@, self.deposits@, winning_block);
        }
        self.winner_block = Some(winning_block);
        self.status = BetStatus::Revealed;
        Ok(winning_block)
    }
}

/// Compute `derived_block` of the four inputs: fold them by wrap-around
/// addition in the 64-bit window, then map the absolute value into
/// `1..=TOTAL_BLOCKS`.
pub fn derive_block(now: i64, slot: u64, pool: u64, count: u8) -> (r: u8)
    ensures
        r == derived_block(now, slot, pool, count),
        1 <= r <= TOTAL_BLOCKS,
{
    let exact: i128 = now as i128 + slot as i128 + pool as i128 + count as i128;
    let mut s: i128 = exact;
    if s > i64::MAX as i128 {
        s = s - 0x1_0000_0000_0000_0000i128;
    }
    if s > i64::MAX as i128 {
        s = s - 0x1_0000_0000_0000_0000i128;
    }
    if s > i64::MAX as i128 {
        s = s - 0x1_0000_0000_0000_0000i128;
    }
    proof {
        lemma_wrap_i64_congruent(exact as int, s as int);
    }
    let a: i128 = if s < 0 {
        -s
    } else {
        s
    };
    let rem: i128 = a % (TOTAL_BLOCKS as i128);
    proof {
        lemma_mod_bound(a as int, TOTAL_BLOCKS as int);
    }
    (rem + 1) as u8
}

} // verus!
