//! The bet ledger: the record of one wager, its participants and their
//! stakes, together with its well-formedness invariant and the lifecycle
//! operations that create and cancel a record.

use vstd::prelude::*;

verus! {

use crate::model::sum_deposits;

/// Most participants a single bet accepts.
pub const MAX_PLAYERS: u8 = 100;

/// Blocks are numbered 1 through this bound.
pub const TOTAL_BLOCKS: u8 = 25;

/// A caller identity: an opaque 256-bit token handed in by the host after it
/// has verified the caller. The ledger only ever compares identities for
/// equality; it never looks inside one.
#[derive(PartialEq, Eq, Structural, Clone, Copy, Debug)]
pub struct Identity {
    pub w0: u64,
    pub w1: u64,
    pub w2: u64,
    pub w3: u64,
}

/// Lifecycle state of a bet. `Revealed` and `Cancelled` are terminal.
#[derive(PartialEq, Eq, Structural, Clone, Copy, Debug)]
pub enum BetStatus {
    Open,
    Revealed,
    Cancelled,
}

/// Every way an operation can be rejected. Each rejection leaves the record
/// exactly as it was.
#[derive(PartialEq, Eq, Structural, Clone, Copy, Debug)]
pub enum BetError {
    InvalidDepositAmount,
    InvalidLockTime,
    BetNotOpen,
    InvalidBlock,
    InsufficientDeposit,
    BetFull,
    AlreadyJoined,
    UnauthorizedArbiter,
    BetNotLocked,
    NotEnoughPlayers,
    NoWinners,
    WinnerNotRevealed,
    PlayerNotFound,
    AlreadyClaimed,
    NotAWinner,
    Unauthorized,
    BetAlreadyLocked,
    AutomaticBetCannotManualReveal,
    NotAutomaticBet,
}

/// The persistent record of one wager. The four sequences run in parallel:
/// entry `i` of each describes the `i`-th participant.
#[derive(Clone)]
pub struct BetAccount {
    pub creator: Identity,
    pub arbiter: Identity,
    pub min_deposit: u64,
    pub total_pool: u64,
    pub lock_time: i64,
    pub winner_block: Option<u8>,
    pub status: BetStatus,
    pub player_count: u8,
    pub is_automatic: bool,
    pub players: Vec<Identity>,
    pub chosen_blocks: Vec<u8>,
    pub deposits: Vec<u64>,
    pub claimed: Vec<bool>,
}

impl BetAccount {
    /// The record's invariant: parallel sequences of one length bounded by
    /// `MAX_PLAYERS`, every chosen block in range, every deposit at or above
    /// the minimum, no identity listed twice, the pool equal to the sum of
    /// the deposits, a winning block recorded exactly when the bet is
    /// revealed, and no claim recorded while the bet is still open.
    pub open spec fn well_formed(self) -> bool {
        &&& self.players@.len() == self.player_count
        &&& self.chosen_blocks@.len() == self.player_count
        &&& self.deposits@.len() == self.player_count
        &&& self.claimed@.len() == self.player_count
        &&& self.player_count <= MAX_PLAYERS
        &&& self.min_deposit > 0
        &&& (forall|i: int|
            0 <= i < self.chosen_blocks@.len() ==> 1 <= #[trigger] self.chosen_blocks@[i]
                <= TOTAL_BLOCKS)
        &&& (forall|i: int|
            0 <= i < self.deposits@.len() ==> #[trigger] self.deposits@[i] >= self.min_deposit)
        &&& (forall|i: int, j: int|
            0 <= i < j < self.players@.len() ==> self.players@[i] != self.players@[j])
        &&& self.total_pool == sum_deposits(self.deposits@)
        &&& (self.winner_block is Some <==> self.status is Revealed)
        &&& (self.winner_block is Some ==> 1 <= self.winner_block->Some_0 <= TOTAL_BLOCKS)
        &&& (self.status is Open ==> forall|i: int|
            0 <= i < self.claimed@.len() ==> !(#[trigger] self.claimed@[i]))
    }

    /// Which rejection, if any, creating a bet with these parameters meets.
    pub open spec fn create_check(min_deposit: u64, lock_time: i64, now: i64) -> Result<
        (),
        BetError,
    > {
        if min_deposit == 0 {
            Err(BetError::InvalidDepositAmount)
        } else if lock_time <= now {
            Err(BetError::InvalidLockTime)
        } else {
            Ok(())
        }
    }

    /// Open a fresh bet. `now` is the host clock's current timestamp; the
    /// lock time must lie strictly after it and the minimum stake must be
    /// positive, each rejected with its own error. The new record is open,
    /// empty, and holds no winning block.
    pub fn create_bet(
        creator: Identity,
        min_deposit: u64,
        arbiter: Identity,
        lock_time: i64,
        is_automatic: bool,
        now: i64,
    ) -> (r: Result<BetAccount, BetError>)
        ensures
            r is Ok <==> Self::create_check(min_deposit, lock_time, now) is Ok,
            r is Err ==> r->Err_0 == Self::create_check(min_deposit, lock_time, now)->Err_0,
            r is Ok ==> {
                let b = r->Ok_0;
                &&& b.well_formed()
                &&& b.creator == creator
                &&& b.arbiter == arbiter
                &&& b.min_deposit == min_deposit
                &&& b.total_pool == 0
                &&& b.lock_time == lock_time
                &&& b.winner_block is None
                &&& b.status is Open
                &&& b.player_count == 0
                &&& b.is_automatic == is_automatic
                &&& b.players@.len() == 0
            },
    {
        if min_deposit == 0 {
            return Err(BetError::InvalidDepositAmount);
        }
        if lock_time <= now {
            return Err(BetError::InvalidLockTime);
        }
        Ok(
            BetAccount {
                creator,
                arbiter,
                min_deposit,
                total_pool: 0,
                lock_time,
                winner_block: None,
                status: BetStatus::Open,
                player_count: 0,
                is_automatic,
                players: Vec::new(),
                chosen_blocks: Vec::new(),
                deposits: Vec::new(),
                claimed: Vec::new(),
            },
        )
    }

    /// True exactly when `who` already participates in this bet.
    pub fn contains_player(&self, who: Identity) -> (r: bool)
        ensures
            r == self.players@.contains(who),
    {
        let n = self.players.len();
        let mut i: usize = 0;
        while i < n
            invariant
                n == self.players@.len(),
                i <= n,
                forall|j: int| 0 <= j < i ==> self.players@[j] != who,
            decreases n - i,
        {
            if self.players[i] == who {
                assert(self.players@[i as int] == who);
                return true;
            }
            i = i + 1;
        }
        false
    }

    /// Position of `who` in the participant sequence, if present.
    pub fn player_index(&self, who: Identity) -> (r: Option<usize>)
        ensures
            match r {
                Some(i) => i < self.players@.len() && self.players@[i as int] == who,
                None => !self.players@.contains(who),
            },
    {
        let n = self.players.len();
        let mut i: usize = 0;
        while i < n
            invariant
                n == self.players@.len(),
                i <= n,
                forall|j: int| 0 <= j < i ==> self.players@[j] != who,
            decreases n - i,
        {
            if self.players[i] == who {
                return Some(i);
            }
            i = i + 1;
        }
        None
    }

    /// Decide `well_formed` at run time. The host re-validates every record
    /// it brings back from storage with this before trusting it, so no
    /// operation ever works on a corrupted ledger.
    pub fn check_well_formed(&self) -> (r: bool)
        ensures
            r == self.well_formed(),
    {
        let n = self.players.len();
        if self.chosen_blocks.len() != n || self.deposits.len() != n || self.claimed.len() != n {
            return false;
        }
        if n != self.player_count as usize {
            return false;
        }
        if self.player_count > MAX_PLAYERS {
            return false;
        }
        if self.min_deposit == 0 {
            return false;
        }
        let open = self.status == BetStatus::Open;
        let mut i: usize = 0;
        while i < n
            invariant
                n == self.players@.len(),
                n == self.chosen_blocks@.len(),
                n == self.deposits@.len(),
                n == self.claimed@.len(),
                i <= n,
                open == (self.status is Open),
                forall|j: int| 0 <= j < i ==> 1 <= #[trigger] self.chosen_blocks@[j] <= TOTAL_BLOCKS,
                forall|j: int| 0 <= j < i ==> #[trigger] self.deposits@[j] >= self.min_deposit,
                forall|j: int| 0 <= j < i ==> (open ==> !(#[trigger] self.claimed@[j])),
            decreases n - i,
        {
            if self.chosen_blocks[i] == 0 || self.chosen_blocks[i] > TOTAL_BLOCKS {
                return false;
            }
            if self.deposits[i] < self.min_deposit {
                return false;
            }
            if open && self.claimed[i] {
                return false;
            }
            i = i + 1;
        }
        let mut i: usize = 0;
        while i < n
            invariant
                n == self.players@.len(),
                i <= n,
                forall|a: int, b: int|
                    0 <= a < b < n && a < i ==> self.players@[a] != self.players@[b],
            decreases n - i,
        {
            let mut j: usize = i + 1;
            while j < n
                invariant
                    n == self.players@.len(),
                    i < j || i + 1 == j,
                    i < n,
                    j <= n,
                    forall|a: int, b: int|
                        0 <= a < b < n && a < i ==> self.players@[a] != self.players@[b],
                    forall|b: int| i < b < j ==> self.players@[i as int] != self.players@[b],
                decreases n - j,
            {
                if self.players[i] == self.players[j] {
                    return false;
                }
                j = j + 1;
            }
            i = i + 1;
        }
        let mut acc: u128 = 0;
        let mut i: usize = 0;
        while i < n
            invariant
                n == self.deposits@.len(),
                n <= 100,
                i <= n,
                acc == sum_deposits(self.deposits@.take(i as int)),
                acc <= i * 0xFFFF_FFFF_FFFF_FFFFu128,
            decreases n - i,
        {
            proof {
                assert(self.deposits@.take(i as int + 1) =~= self.deposits@.take(i as int).push(
                    self.deposits@[i as int],
                ));
                crate::model::lemma_sum_push(self.deposits@.take(i as int), self.deposits@[i as int]);
            }
            acc = acc + self.deposits[i] as u128;
            i = i + 1;
        }
        proof {
            assert(self.deposits@.take(n as int) =~= self.deposits@);
        }
        if acc != self.total_pool as u128 {
            return false;
        }
        match self.winner_block {
            Some(w) => self.status == BetStatus::Revealed && 1 <= w && w <= TOTAL_BLOCKS,
            None => self.status != BetStatus::Revealed,
        }
    }

    /// Which rejection, if any, cancelling this bet at time `now` meets.
    pub open spec fn cancel_check(self, now: i64) -> Result<(), BetError> {
        if !(self.status is Open) {
            Err(BetError::BetNotOpen)
        } else if now >= self.lock_time && self.player_count >= 2 {
            Err(BetError::BetAlreadyLocked)
        } else {
            Ok(())
        }
    }

    /// Close an open bet and mark it cancelled. Before the lock time any
    /// open bet may be cancelled; from the lock time on, only one that could
    /// never resolve (fewer than two players). The caller must be the
    /// creator — the storage host checks record ownership before handing the
    /// call through, and this function consumes that check as a
    /// precondition. The host then returns all escrowed funds to the creator
    /// and reclaims the record.
    pub fn cancel_bet(&mut self, caller: Identity, now: i64) -> (r: Result<(), BetError>)
        requires
            old(self).well_formed(),
            caller == old(self).creator,
        ensures
            final(self).well_formed(),
            r == old(self).cancel_check(now),
            r is Ok ==> *final(self) == (BetAccount {
                status: BetStatus::Cancelled,
                ..*old(self)
            }),
            r is Err ==> *final(self) == *old(self),
    {
        if self.status != BetStatus::Open {
            return Err(BetError::BetNotOpen);
        }
        if now >= self.lock_time && self.player_count >= 2 {
            return Err(BetError::BetAlreadyLocked);
        }
        self.status = BetStatus::Cancelled;
        Ok(())
    }
}

} // verus!
