//! Playing cards.

use vstd::prelude::*;

verus! {

/// The four suits. They carry no order; a suit only tells cards of one rank apart.
#[derive(Clone, Copy, Debug, PartialEq, Eq, Structural)]
pub enum Suit {
    Hearts,
    Spades,
    Clubs,
    Diamonds,
}

/// A card: a suit and a rank. Rank 1 is the Ace, 11 to 13 are Jack, Queen and King.
#[derive(Clone, Copy, Debug, PartialEq, Eq, Structural)]
pub struct Card {
    pub suit: Suit,
    pub value: u8,
}

impl Card {
    /// A card of a real deck has a rank from 1 to 13.
    pub open spec fn wf(&self) -> bool {
        1 <= self.value <= 13
    }

    /// Whether the card is an Ace.
    pub open spec fn is_ace(&self) -> bool {
        self.value == 1
    }

    /// What the card counts for with every Ace taken high: 11 for an Ace,
    /// 10 for a face card, the rank itself otherwise.
    pub open spec fn points(&self) -> int {
        if self.value == 1 {
            11
        } else if self.value > 10 {
            10
        } else {
            self.value as int
        }
    }
}

} // verus!
