//! A pooled block-selection wager: participants deposit funds against a
//! chosen block number, a winning block is disclosed by an arbiter or drawn
//! from observable chain state, and winners split the pool in proportion to
//! their stakes. This crate holds the full lifecycle state machine and its
//! escrow accounting; identity verification, clock reads, balance transfers
//! and record storage are the host runtime's job and are handed in as plain
//! values.


mod escrow;
mod laws;
mod model;
mod payout;
mod resolve;
mod state;

pub use laws::lemma_reveal_matches_mode;
pub use laws::lemma_second_claim_rejected;
pub use laws::lemma_settled_bet_rejects_mutation;
pub use model::sum_deposits;
pub use model::winner_count;
pub use model::winner_total;
pub use payout::lemma_claim_round_conserves_pool;
pub use payout::sum_payouts;
pub use resolve::derive_block;
pub use resolve::derived_block;
pub use resolve::wrap_i64;
pub use state::BetAccount;
pub use state::BetError;
pub use state::BetStatus;
pub use state::Identity;
pub use state::MAX_PLAYERS;
pub use state::TOTAL_BLOCKS;
