//! The mathematical model of the ledger: sums over the deposit sequence,
//! the winner-side total and count for a candidate winning block, and the
//! lemmas that relate them.

use vstd::prelude::*;

verus! {

/// Sum of a sequence of deposits, as an unbounded integer.
pub open spec fn sum_deposits(s: Seq<u64>) -> int
    decreases s.len(),
{
    if s.len() == 0 {
        0
    } else {
        sum_deposits(s.drop_last()) + s.last()
    }
}

/// Sum of the deposits of the participants who chose `winning`.
pub open spec fn winner_total(blocks: Seq<u8>, deposits: Seq<u64>, winning: u8) -> int
    recommends
        blocks.len() == deposits.len(),
    decreases blocks.len(),
{
    if blocks.len() == 0 || deposits.len() == 0 {
        0
    } else {
        winner_total(blocks.drop_last(), deposits.drop_last(), winning) + (
        if blocks.last() == winning {
            deposits.last() as int
        } else {
            0
        })
    }
}

/// How many participants chose `winning`.
pub open spec fn winner_count(blocks: Seq<u8>, winning: u8) -> int
    decreases blocks.len(),
{
    if blocks.len() == 0 {
        0
    } else {
        winner_count(blocks.drop_last(), winning) + (
        if blocks.last() == winning {
            1int
        } else {
            0int
        })
    }
}

pub proof fn lemma_sum_push(s: Seq<u64>, x: u64)
    ensures
        sum_deposits(s.push(x)) == sum_deposits(s) + x,
{
    assert(s.push(x).drop_last() =~= s);
    assert(s.push(x).last() == x);
}

pub proof fn lemma_winner_total_push(blocks: Seq<u8>, deposits: Seq<u64>, winning: u8, b: u8, d: u64)
    requires
        blocks.len() == deposits.len(),
    ensures
        winner_total(blocks.push(b), deposits.push(d), winning) == winner_total(
            blocks,
            deposits,
            winning,
        ) + (if b == winning {
            d as int
        } else {
            0
        }),
{
    assert(blocks.push(b).drop_last() =~= blocks);
    assert(deposits.push(d).drop_last() =~= deposits);
}

pub proof fn lemma_winner_count_push(blocks: Seq<u8>, winning: u8, b: u8)
    ensures
        winner_count(blocks.push(b), winning) == winner_count(blocks, winning) + (
        if b == winning {
            1int
        } else {
            0int
        }),
{
    assert(blocks.push(b).drop_last() =~= blocks);
}

/// A prefix of the deposit sequence sums to no more than the whole.
pub proof fn lemma_sum_take_le(s: Seq<u64>, i: int)
    requires
        0 <= i <= s.len(),
    ensures
        sum_deposits(s.take(i)) <= sum_deposits(s),
    decreases s.len() - i,
{
    if i == s.len() {
        assert(s.take(i) =~= s);
    } else {
        assert(s.take(i + 1).drop_last() =~= s.take(i));
        assert(s.take(i + 1).last() == s[i]);
        lemma_sum_take_le(s, i + 1);
    }
}

/// The winner-side total never exceeds the sum of all deposits.
pub proof fn lemma_winner_total_le_sum(blocks: Seq<u8>, deposits: Seq<u64>, winning: u8)
    requires
        blocks.len() == deposits.len(),
    ensures
        0 <= winner_total(blocks, deposits, winning) <= sum_deposits(deposits),
    decreases blocks.len(),
{
    if blocks.len() > 0 {
        lemma_winner_total_le_sum(blocks.drop_last(), deposits.drop_last(), winning);
    }
}

/// A winner's own deposit never exceeds the winner-side total.
pub proof fn lemma_winner_elem_le_total(blocks: Seq<u8>, deposits: Seq<u64>, winning: u8, i: int)
    requires
        blocks.len() == deposits.len(),
        0 <= i < blocks.len(),
        blocks[i] == winning,
    ensures
        deposits[i] <= winner_total(blocks, deposits, winning),
    decreases blocks.len(),
{
    lemma_winner_total_le_sum(blocks.drop_last(), deposits.drop_last(), winning);
    if i < blocks.len() - 1 {
        lemma_winner_elem_le_total(blocks.drop_last(), deposits.drop_last(), winning, i);
    }
}

/// With every deposit positive, a block has winners exactly when the
/// winner-side total is positive.
pub proof fn lemma_winner_count_total(blocks: Seq<u8>, deposits: Seq<u64>, winning: u8)
    requires
        blocks.len() == deposits.len(),
        forall|i: int| 0 <= i < deposits.len() ==> #[trigger] deposits[i] >= 1,
    ensures
        winner_count(blocks, winning) >= 0,
        winner_total(blocks, deposits, winning) >= 0,
        (winner_count(blocks, winning) == 0) <==> (winner_total(blocks, deposits, winning) == 0),
    decreases blocks.len(),
{
    if blocks.len() > 0 {
        lemma_winner_count_total(blocks.drop_last(), deposits.drop_last(), winning);
    }
}

} // verus!
