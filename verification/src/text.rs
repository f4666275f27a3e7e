//! What the game shows of its cards: a label for each.

use crate::card::{Card, Suit};
use vstd::prelude::*;
use vstd::string::*;

verus! {

/// The numeral of one decimal digit.
pub open spec fn digit(d: int) -> Seq<char> {
    if d == 0 {
        "0"@
    } else if d == 1 {
        "1"@
    } else if d == 2 {
        "2"@
    } else if d == 3 {
        "3"@
    } else if d == 4 {
        "4"@
    } else if d == 5 {
        "5"@
    } else if d == 6 {
        "6"@
    } else if d == 7 {
        "7"@
    } else if d == 8 {
        "8"@
    } else {
        "9"@
    }
}

/// A number written in decimal, without leading zeros.
pub open spec fn decimal(n: nat) -> Seq<char>
    decreases n,
{
    if n < 10 {
        digit(n as int)
    } else {
        decimal(n / 10) + digit((n % 10) as int)
    }
}

fn digit_text(d: u128) -> (text: &'static str)
    requires
        d < 10,
    ensures
        text@ == digit(d as int),
{
    if d == 0 {
        "0"
    } else if d == 1 {
        "1"
    } else if d == 2 {
        "2"
    } else if d == 3 {
        "3"
    } else if d == 4 {
        "4"
    } else if d == 5 {
        "5"
    } else if d == 6 {
        "6"
    } else if d == 7 {
        "7"
    } else if d == 8 {
        "8"
    } else {
        "9"
    }
}

/// Writes a number in decimal.
pub fn decimal_text(n: u128) -> (text: String)
    ensures
        text@ == decimal(n as nat),
    decreases n,
{
    if n < 10 {
        String::from_str(digit_text(n))
    } else {
        let mut text = decimal_text(n / 10);
        text.append(digit_text(n % 10));
        text
    }
}

/// The name of a suit.
pub open spec fn suit_label(suit: Suit) -> Seq<char> {
    match suit {
        Suit::Hearts => "Hearts"@,
        Suit::Spades => "Spades"@,
        Suit::Clubs => "Clubs"@,
        Suit::Diamonds => "Diamonds"@,
    }
}

/// The name of a rank: Ace, Jack, Queen and King for 1, 11, 12 and 13, the
/// numeral for every other rank.
pub open spec fn rank_label(value: u8) -> Seq<char> {
    if value == 1 {
        "Ace"@
    } else if value == 11 {
        "Jack"@
    } else if value == 12 {
        "Queen"@
    } else if value == 13 {
        "King"@
    } else {
        decimal(value as nat)
    }
}

/// The label of a card: its rank, " of ", its suit.
pub open spec fn card_label(card: Card) -> Seq<char> {
    rank_label(card.value) + " of "@ + suit_label(card.suit)
}

/// The name of a suit.
pub fn suit_name(suit: Suit) -> (name: &'static str)
    ensures
        name@ == suit_label(suit),
{
    match suit {
        Suit::Hearts => "Hearts",
        Suit::Spades => "Spades",
        Suit::Clubs => "Clubs",
        Suit::Diamonds => "Diamonds",
    }
}

/// The name of a rank.
pub fn rank_name(value: u8) -> (name: String)
    ensures
        name@ == rank_label(value),
{
    if value == 1 {
        String::from_str("Ace")
    } else if value == 11 {
        String::from_str("Jack")
    } else if value == 12 {
        String::from_str("Queen")
    } else if value == 13 {
        String::from_str("King")
    } else {
        decimal_text(value as u128)
    }
}

/// The label of a card, such as "Ace of Spades" or "7 of Hearts".
pub fn card_name(card: &Card) -> (name: String)
    ensures
        name@ == card_label(*card),
{
    let mut name = rank_name(card.value);
    name.append(" of ");
    name.append(suit_name(card.suit));
    name
}

/// The labels of the cards of a hand, in the hand's order.
pub fn hand_names(hand: &Vec<Card>) -> (names: Vec<String>)
    ensures
        names@.len() == hand@.len(),
        forall|i: int| 0 <= i < hand@.len() ==> (#[trigger] names@[i])@ == card_label(hand@[i]),
{
    let mut names: Vec<String> = Vec::new();
    let mut i: usize = 0;
    while i < hand.len()
        invariant
            i <= hand@.len(),
            names@.len() == i,
            forall|k: int| 0 <= k < i ==> (#[trigger] names@[k])@ == card_label(hand@[k]),
        decreases hand@.len() - i,
    {
        names.push(card_name(&hand[i]));
        i += 1;
    }
    names
}

} // verus!
