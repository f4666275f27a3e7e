//! How a game ends.

use crate::text::{decimal, decimal_text};
use vstd::prelude::*;
use vstd::string::*;

verus! {

/// The result of a game, from the two final scores.
#[derive(Clone, Copy, Debug, PartialEq, Eq, Structural)]
pub enum GameOutcome {
    /// Both scores are equal, whether or not they are over 21.
    Tie,
    /// Nobody is over 21 and the player's score is the higher.
    PlayerWins,
    /// Nobody is over 21 and the dealer's score is the higher.
    DealerWins,
    /// Only the player is over 21: the dealer wins.
    PlayerBusts,
    /// Only the dealer is over 21: the player wins.
    DealerBusts,
    /// Both are over 21, with different scores: nobody wins.
    BothBust,
}

/// Who takes the game.
#[derive(Clone, Copy, Debug, PartialEq, Eq, Structural)]
pub enum Winner {
    Player,
    Dealer,
    Nobody,
}

/// The outcome that two final scores give. Equal scores tie before anything
/// else is looked at; then a bust on one side only loses, a bust on both sides
/// is a tie, and otherwise the higher score wins.
pub open spec fn outcome_of(player: int, dealer: int) -> GameOutcome {
    if player == dealer {
        GameOutcome::Tie
    } else if player > 21 && dealer <= 21 {
        GameOutcome::PlayerBusts
    } else if dealer > 21 && player <= 21 {
        GameOutcome::DealerBusts
    } else if player > 21 && dealer > 21 {
        GameOutcome::BothBust
    } else if player > dealer {
        GameOutcome::PlayerWins
    } else {
        GameOutcome::DealerWins
    }
}

impl GameOutcome {
    /// Who takes the game on this outcome.
    pub open spec fn spec_winner(self) -> Winner {
        match self {
            GameOutcome::Tie | GameOutcome::BothBust => Winner::Nobody,
            GameOutcome::PlayerWins | GameOutcome::DealerBusts => Winner::Player,
            GameOutcome::DealerWins | GameOutcome::PlayerBusts => Winner::Dealer,
        }
    }

    /// Who takes the game on this outcome.
    #[verifier::when_used_as_spec(spec_winner)]
    pub fn winner(self) -> (w: Winner)
        ensures
            w == self.spec_winner(),
    {
        match self {
            GameOutcome::Tie | GameOutcome::BothBust => Winner::Nobody,
            GameOutcome::PlayerWins | GameOutcome::DealerBusts => Winner::Player,
            GameOutcome::DealerWins | GameOutcome::PlayerBusts => Winner::Dealer,
        }
    }
}

/// A side takes the game exactly when it is not over 21 and the other side
/// either is, or has the lower score. With the sides exchanged the winner is
/// exchanged too.
pub proof fn lemma_winner(player: int, dealer: int)
    ensures
        outcome_of(player, dealer).winner() == Winner::Player <==> player <= 21 && (dealer > 21
            || dealer < player),
        outcome_of(player, dealer).winner() == Winner::Dealer <==> dealer <= 21 && (player > 21
            || player < dealer),
        outcome_of(player, dealer).winner() == Winner::Nobody <==> player == dealer || (player > 21
            && dealer > 21),
        outcome_of(player, dealer).winner() == Winner::Player <==> outcome_of(
            dealer,
            player,
        ).winner() == Winner::Dealer,
{
}

/// Classifies the end of a game from the final scores.
pub fn resolve(player_score: u128, dealer_score: u128) -> (outcome: GameOutcome)
    ensures
        outcome == outcome_of(player_score as int, dealer_score as int),
{
    if player_score == dealer_score {
        GameOutcome::Tie
    } else if player_score > 21 && dealer_score <= 21 {
        GameOutcome::PlayerBusts
    } else if dealer_score > 21 && player_score <= 21 {
        GameOutcome::DealerBusts
    } else if player_score > 21 && dealer_score > 21 {
        GameOutcome::BothBust
    } else if player_score > dealer_score {
        GameOutcome::PlayerWins
    } else {
        GameOutcome::DealerWins
    }
}

/// The opening words of the closing message for each outcome.
pub open spec fn headline(outcome: GameOutcome) -> Seq<char> {
    match outcome {
        GameOutcome::Tie => "Tie with a score of "@,
        GameOutcome::PlayerBusts => "Player busts! Dealer wins with a score of "@,
        GameOutcome::DealerBusts => "Dealer busts! Player wins with a score of "@,
        GameOutcome::BothBust => "Both players bust! Tie with a score of "@,
        GameOutcome::PlayerWins => "Player wins with score of "@,
        GameOutcome::DealerWins => "Dealer wins with score of "@,
    }
}

/// The closing message: the headline of the outcome, then the two scores
/// joined by " to " and closed by "!". The winner's score comes first; where
/// nobody wins, the player's.
pub open spec fn message_of(player: nat, dealer: nat) -> Seq<char> {
    let outcome = outcome_of(player as int, dealer as int);
    if outcome.winner() == Winner::Dealer {
        headline(outcome) + decimal(dealer) + " to "@ + decimal(player) + "!"@
    } else {
        headline(outcome) + decimal(player) + " to "@ + decimal(dealer) + "!"@
    }
}

fn headline_text(outcome: GameOutcome) -> (text: &'static str)
    ensures
        text@ == headline(outcome),
{
    match outcome {
        GameOutcome::Tie => "Tie with a score of ",
        GameOutcome::PlayerBusts => "Player busts! Dealer wins with a score of ",
        GameOutcome::DealerBusts => "Dealer busts! Player wins with a score of ",
        GameOutcome::BothBust => "Both players bust! Tie with a score of ",
        GameOutcome::PlayerWins => "Player wins with score of ",
        GameOutcome::DealerWins => "Dealer wins with score of ",
    }
}

/// The closing message of a game with these final scores.
pub fn result_message(player_score: u128, dealer_score: u128) -> (message: String)
    ensures
        message@ == message_of(player_score as nat, dealer_score as nat),
{
    let outcome = resolve(player_score, dealer_score);
    let player_text = decimal_text(player_score);
    let dealer_text = decimal_text(dealer_score);
    let mut message = String::from_str(headline_text(outcome));
    match outcome.winner() {
        Winner::Dealer => {
            message.append(dealer_text.as_str());
            message.append(" to ");
            message.append(player_text.as_str());
        },
        _ => {
            message.append(player_text.as_str());
            message.append(" to ");
            message.append(dealer_text.as_str());
        },
    }
    message.append("!");
    message
}

} // verus!
