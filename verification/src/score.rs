//! Scoring a hand.

use crate::card::Card;
use vstd::prelude::*;

verus! {

/// The highest total that does not count as a bust.
pub const BLACKJACK: u128 = 21;

/// The total of a hand with every Ace counted as 11.
pub open spec fn high_total(hand: Seq<Card>) -> int
    decreases hand.len(),
{
    if hand.len() == 0 {
        0
    } else {
        high_total(hand.drop_last()) + hand.last().points()
    }
}

/// The number of Aces in a hand.
pub open spec fn ace_count(hand: Seq<Card>) -> int
    decreases hand.len(),
{
    if hand.len() == 0 {
        0
    } else {
        ace_count(hand.drop_last()) + if hand.last().is_ace() {
            1int
        } else {
            0int
        }
    }
}

/// How many Aces are counted as 1 instead of 11: none while the high total
/// is at most 21; otherwise as many as it takes to come down to 21, and all
/// of them when even that is not enough.
pub open spec fn low_aces(high: int, aces: int) -> int {
    if high <= 21 {
        0
    } else {
        let needed = (high - 21 + 9) / 10;
        if needed <= aces {
            needed
        } else {
            aces
        }
    }
}

/// The score of a hand: its high total, less 10 for each Ace counted low.
pub open spec fn score(hand: Seq<Card>) -> int {
    high_total(hand) - 10 * low_aces(high_total(hand), ace_count(hand))
}

/// A hand has no fewer than zero Aces and no more Aces than cards, and each
/// card counts for at most 11.
pub proof fn lemma_totals_bounded(hand: Seq<Card>)
    ensures
        0 <= ace_count(hand) <= hand.len(),
        0 <= high_total(hand) <= 11 * hand.len(),
        11 * ace_count(hand) <= high_total(hand),
    decreases hand.len(),
{
    if hand.len() > 0 {
        lemma_totals_bounded(hand.drop_last());
    }
}

/// The score is one of the totals that the hand can be counted as, and the
/// best of them: among the totals of at most 21 it is the highest, and where
/// it is a bust every other way of counting the Aces gives no less.
pub proof fn lemma_score_is_best(hand: Seq<Card>, low: int)
    requires
        0 <= low <= ace_count(hand),
    ensures
        0 <= low_aces(high_total(hand), ace_count(hand)) <= ace_count(hand),
        high_total(hand) - 10 * low <= 21 ==> high_total(hand) - 10 * low <= score(hand) <= 21,
        score(hand) > 21 ==> score(hand) <= high_total(hand) - 10 * low,
{
    lemma_totals_bounded(hand);
}

/// The score of a hand: the highest total of at most 21 that the hand can be
/// counted as, each Ace as 11 or as 1, and the lowest total where none is.
pub fn sum_points(hand: &Vec<Card>) -> (total: u128)
    ensures
        total == score(hand@),
{
    let mut num_aces: usize = 0;
    let mut sum: u128 = 0;
    let mut i: usize = 0;
    while i < hand.len()
        invariant
            0 <= i <= hand@.len(),
            num_aces == ace_count(hand@.take(i as int)),
            sum == high_total(hand@.take(i as int)),
            num_aces <= i,
            sum <= 11 * i,
        decreases hand@.len() - i,
    {
        let card = hand[i];
        proof {
            let next = hand@.take(i + 1);
            assert(next.drop_last() =~= hand@.take(i as int));
            assert(next.last() == card);
        }
        if card.value == 1 {
            num_aces += 1;
            sum += 11;
        } else if card.value > 10 {
            sum += 10;
        } else {
            sum += card.value as u128;
        }
        i += 1;
    }
    proof {
        assert(hand@.take(i as int) =~= hand@);
    }
    let ghost high: int = sum as int;
    let ghost aces: int = num_aces as int;
    while sum > BLACKJACK && num_aces > 0
        invariant
            0 <= num_aces <= aces,
            sum == high - 10 * (aces - num_aces),
            num_aces < aces ==> high - 10 * (aces - num_aces - 1) > 21,
        decreases num_aces,
    {
        sum -= 10;
        num_aces -= 1;
    }
    sum
}

} // verus!
