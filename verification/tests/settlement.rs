use block_battle::derive_block;
use block_battle::BetAccount;
use block_battle::BetError;
use block_battle::BetStatus;
use block_battle::Identity;

fn id(n: u64) -> Identity {
    Identity { w0: n, w1: 0, w2: 0, w3: 0 }
}

// An arbitrated bet: creator 1, arbiter 9, minimum stake 10, lock time 500.
fn manual_bet() -> BetAccount {
    BetAccount::create_bet(id(1), 10, id(9), 500, false, 0).unwrap()
}

// An automatic bet with the same parameters.
fn automatic_bet() -> BetAccount {
    BetAccount::create_bet(id(1), 10, id(9), 500, true, 0).unwrap()
}

#[test]
fn proportional_payouts_are_exact_when_shares_divide() {
    let mut b = manual_bet();
    assert_eq!(b.join_bet(id(2), 3, 10), Ok(()));
    assert_eq!(b.join_bet(id(3), 3, 30), Ok(()));
    assert_eq!(b.reveal_winner(id(9), 3), Ok(()));
    assert_eq!(b.status, BetStatus::Revealed);
    assert_eq!(b.winner_block, Some(3));
    // Pool 40, winner side 40: each winner draws exactly their stake's share.
    assert_eq!(b.claim_winnings(id(2)), Ok(10));
    assert_eq!(b.claim_winnings(id(3)), Ok(30));
}

#[test]
fn reveal_of_unchosen_block_fails_and_leaves_bet_open() {
    let mut b = manual_bet();
    assert_eq!(b.join_bet(id(2), 3, 10), Ok(()));
    assert_eq!(b.join_bet(id(3), 3, 30), Ok(()));
    assert_eq!(b.reveal_winner(id(9), 5), Err(BetError::NoWinners));
    assert_eq!(b.status, BetStatus::Open);
    assert_eq!(b.winner_block, None);
    // The deliberate retry path: the same arbiter may try again.
    assert_eq!(b.reveal_winner(id(9), 3), Ok(()));
    assert_eq!(b.status, BetStatus::Revealed);
}

#[test]
fn reveal_needs_two_players() {
    let mut b = manual_bet();
    assert_eq!(b.join_bet(id(2), 1, 15), Ok(()));
    // Even the block the sole player chose is rejected.
    assert_eq!(b.reveal_winner(id(9), 1), Err(BetError::NotEnoughPlayers));
    assert_eq!(b.reveal_winner(id(9), 7), Err(BetError::NotEnoughPlayers));
    assert_eq!(b.status, BetStatus::Open);
}

#[test]
fn reveal_is_for_the_arbiter_alone() {
    let mut b = manual_bet();
    assert_eq!(b.join_bet(id(2), 3, 10), Ok(()));
    assert_eq!(b.join_bet(id(3), 3, 30), Ok(()));
    assert_eq!(b.reveal_winner(id(2), 3), Err(BetError::UnauthorizedArbiter));
    assert_eq!(b.reveal_winner(id(1), 3), Err(BetError::UnauthorizedArbiter));
    assert_eq!(b.status, BetStatus::Open);
}

#[test]
fn reveal_rejects_out_of_range_block() {
    let mut b = manual_bet();
    assert_eq!(b.join_bet(id(2), 3, 10), Ok(()));
    assert_eq!(b.join_bet(id(3), 3, 30), Ok(()));
    assert_eq!(b.reveal_winner(id(9), 0), Err(BetError::InvalidBlock));
    assert_eq!(b.reveal_winner(id(9), 26), Err(BetError::InvalidBlock));
}

#[test]
fn manual_reveal_of_automatic_bet_fails_without_mutation() {
    let mut b = automatic_bet();
    assert_eq!(b.join_bet(id(2), 3, 10), Ok(()));
    assert_eq!(b.join_bet(id(3), 3, 30), Ok(()));
    assert_eq!(b.reveal_winner(id(9), 3), Err(BetError::AutomaticBetCannotManualReveal));
    assert_eq!(b.status, BetStatus::Open);
    assert_eq!(b.winner_block, None);
}

#[test]
fn automatic_reveal_of_arbitrated_bet_fails_without_mutation() {
    let mut b = manual_bet();
    assert_eq!(b.join_bet(id(2), 3, 10), Ok(()));
    assert_eq!(b.join_bet(id(3), 3, 30), Ok(()));
    assert_eq!(b.auto_reveal_winner(600, 0), Err(BetError::NotAutomaticBet));
    assert_eq!(b.status, BetStatus::Open);
    assert_eq!(b.winner_block, None);
}

#[test]
fn second_reveal_finds_the_bet_settled() {
    let mut b = manual_bet();
    assert_eq!(b.join_bet(id(2), 3, 10), Ok(()));
    assert_eq!(b.join_bet(id(3), 3, 30), Ok(()));
    assert_eq!(b.reveal_winner(id(9), 3), Ok(()));
    assert_eq!(b.reveal_winner(id(9), 7), Err(BetError::BetNotOpen));
    assert_eq!(b.reveal_winner(id(9), 3), Err(BetError::BetNotOpen));
    assert_eq!(b.winner_block, Some(3));
}

#[test]
fn derived_block_is_deterministic_and_in_range() {
    // 3 + 4 + 40 + 2 = 49; 49 mod 25 = 24; block 25.
    assert_eq!(derive_block(3, 4, 40, 2), 25);
    // 1000 + 0 + 40 + 2 = 1042; 1042 mod 25 = 17; block 18.
    assert_eq!(derive_block(1000, 0, 40, 2), 18);
    assert_eq!(derive_block(1000, 0, 40, 2), 18);
    // Wrap-around inputs still land in 1..=25, reproducibly.
    let w = derive_block(i64::MAX, u64::MAX, u64::MAX, 100);
    assert!((1..=25).contains(&w));
    assert_eq!(derive_block(i64::MAX, u64::MAX, u64::MAX, 100), w);
    let w = derive_block(i64::MIN, 0, 0, 0);
    assert!((1..=25).contains(&w));
}

#[test]
fn automatic_reveal_draws_the_derived_block() {
    let mut b = automatic_bet();
    // Pool 40 and two players: a trigger at time 1000, slot 0 draws block 18.
    assert_eq!(b.join_bet(id(2), 18, 10), Ok(()));
    assert_eq!(b.join_bet(id(3), 4, 30), Ok(()));
    assert_eq!(b.auto_reveal_winner(1000, 0), Ok(18));
    assert_eq!(b.status, BetStatus::Revealed);
    assert_eq!(b.winner_block, Some(18));
    // Sole winner on the winning side draws the whole pool.
    assert_eq!(b.claim_winnings(id(2)), Ok(40));
    assert_eq!(b.claim_winnings(id(3)), Err(BetError::NotAWinner));
}

#[test]
fn automatic_reveal_waits_for_the_lock_time() {
    let mut b = automatic_bet();
    assert_eq!(b.join_bet(id(2), 18, 10), Ok(()));
    assert_eq!(b.join_bet(id(3), 4, 30), Ok(()));
    assert_eq!(b.auto_reveal_winner(499, 0), Err(BetError::BetNotLocked));
    // The lock time itself is already eligible: the seed 500 + 0 + 40 + 2
    // draws block 18.
    assert_eq!(b.auto_reveal_winner(500, 0), Ok(18));
}

#[test]
fn automatic_reveal_needs_two_players() {
    let mut b = automatic_bet();
    assert_eq!(b.join_bet(id(2), 18, 10), Ok(()));
    assert_eq!(b.auto_reveal_winner(1000, 0), Err(BetError::NotEnoughPlayers));
}

#[test]
fn drawless_automatic_reveal_may_be_retried_at_another_time() {
    let mut b = automatic_bet();
    // Neither player chose block 18, the draw at time 1000.
    assert_eq!(b.join_bet(id(2), 1, 10), Ok(()));
    assert_eq!(b.join_bet(id(3), 4, 30), Ok(()));
    assert_eq!(b.auto_reveal_winner(1000, 0), Err(BetError::NoWinners));
    assert_eq!(b.status, BetStatus::Open);
    // At time 1958 the seed is 2000, which draws block 1.
    assert_eq!(b.auto_reveal_winner(1958, 0), Ok(1));
    assert_eq!(b.claim_winnings(id(2)), Ok(40));
}

#[test]
fn rounding_residue_stays_below_winner_count() {
    let mut b = manual_bet();
    assert_eq!(b.join_bet(id(2), 3, 10), Ok(()));
    assert_eq!(b.join_bet(id(3), 3, 10), Ok(()));
    assert_eq!(b.join_bet(id(4), 7, 13), Ok(()));
    assert_eq!(b.reveal_winner(id(9), 3), Ok(()));
    // Pool 33, winner side 20: each winner draws floor(33 * 10 / 20) = 16.
    let p1 = b.claim_winnings(id(2)).unwrap();
    let p2 = b.claim_winnings(id(3)).unwrap();
    assert_eq!(p1, 16);
    assert_eq!(p2, 16);
    // One unit stays in escrow: the residue, strictly below the two winners.
    assert_eq!(b.total_pool - p1 - p2, 1);
    assert_eq!(b.claim_winnings(id(4)), Err(BetError::NotAWinner));
}

#[test]
fn second_claim_always_fails_with_already_claimed() {
    let mut b = manual_bet();
    assert_eq!(b.join_bet(id(2), 3, 10), Ok(()));
    assert_eq!(b.join_bet(id(3), 3, 30), Ok(()));
    assert_eq!(b.reveal_winner(id(9), 3), Ok(()));
    assert_eq!(b.claim_winnings(id(2)), Ok(10));
    let snapshot_claimed = b.claimed.clone();
    let snapshot_pool = b.total_pool;
    assert_eq!(b.claim_winnings(id(2)), Err(BetError::AlreadyClaimed));
    assert_eq!(b.claim_winnings(id(2)), Err(BetError::AlreadyClaimed));
    assert_eq!(b.claimed, snapshot_claimed);
    assert_eq!(b.total_pool, snapshot_pool);
    // The other winner is unaffected.
    assert_eq!(b.claim_winnings(id(3)), Ok(30));
}

#[test]
fn claim_needs_a_revealed_bet() {
    let mut b = manual_bet();
    assert_eq!(b.join_bet(id(2), 3, 10), Ok(()));
    assert_eq!(b.claim_winnings(id(2)), Err(BetError::WinnerNotRevealed));
    let mut b2 = manual_bet();
    assert_eq!(b2.cancel_bet(id(1), 10), Ok(()));
    assert_eq!(b2.claim_winnings(id(2)), Err(BetError::WinnerNotRevealed));
}

#[test]
fn claim_by_a_stranger_is_rejected() {
    let mut b = manual_bet();
    assert_eq!(b.join_bet(id(2), 3, 10), Ok(()));
    assert_eq!(b.join_bet(id(3), 3, 30), Ok(()));
    assert_eq!(b.reveal_winner(id(9), 3), Ok(()));
    assert_eq!(b.claim_winnings(id(5)), Err(BetError::PlayerNotFound));
}

#[test]
fn claims_flag_each_participant_exactly_once() {
    let mut b = manual_bet();
    assert_eq!(b.join_bet(id(2), 3, 10), Ok(()));
    assert_eq!(b.join_bet(id(3), 3, 30), Ok(()));
    assert_eq!(b.reveal_winner(id(9), 3), Ok(()));
    assert_eq!(b.claimed, vec![false, false]);
    assert_eq!(b.claim_winnings(id(3)), Ok(30));
    assert_eq!(b.claimed, vec![false, true]);
    assert_eq!(b.claim_winnings(id(2)), Ok(10));
    assert_eq!(b.claimed, vec![true, true]);
}

#[test]
fn drawless_winner_block_refunds_every_participant() {
    // Neither reveal operation records a block nobody chose, but the payout
    // calculator re-derives the winner side defensively; a record in that
    // state refunds each participant their own deposit.
    let b = BetAccount {
        creator: id(1),
        arbiter: id(9),
        min_deposit: 10,
        total_pool: 40,
        lock_time: 500,
        winner_block: Some(7),
        status: BetStatus::Revealed,
        player_count: 2,
        is_automatic: false,
        players: vec![id(2), id(3)],
        chosen_blocks: vec![3, 4],
        deposits: vec![10, 30],
        claimed: vec![false, false],
    };
    let mut b = b;
    assert_eq!(b.claim_winnings(id(2)), Ok(10));
    assert_eq!(b.claim_winnings(id(3)), Ok(30));
    assert_eq!(b.claim_winnings(id(2)), Err(BetError::AlreadyClaimed));
}

#[test]
fn full_pool_goes_to_winners_across_a_claim_round() {
    let mut b = manual_bet();
    assert_eq!(b.join_bet(id(2), 5, 11), Ok(()));
    assert_eq!(b.join_bet(id(3), 5, 17), Ok(()));
    assert_eq!(b.join_bet(id(4), 5, 23), Ok(()));
    assert_eq!(b.join_bet(id(5), 9, 49), Ok(()));
    assert_eq!(b.reveal_winner(id(9), 5), Ok(()));
    // Pool 100, winner side 51.
    let p1 = b.claim_winnings(id(2)).unwrap();
    let p2 = b.claim_winnings(id(3)).unwrap();
    let p3 = b.claim_winnings(id(4)).unwrap();
    assert_eq!(p1, 100 * 11 / 51);
    assert_eq!(p2, 100 * 17 / 51);
    assert_eq!(p3, 100 * 23 / 51);
    let residue = b.total_pool - p1 - p2 - p3;
    assert!(residue < 3);
}
