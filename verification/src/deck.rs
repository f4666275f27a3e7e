//! The deck: building it and dealing from it.

use crate::card::{Card, Suit};
use rand::rngs::StdRng;
use rand::seq::SliceRandom;
use vstd::prelude::*;
use vstd::seq_lib::to_multiset_build;

verus! {

/// The suit at place `k` (0 to 3) within one rank of a fresh deck.
pub open spec fn suit_at(k: int) -> Suit {
    if k == 0 {
        Suit::Spades
    } else if k == 1 {
        Suit::Hearts
    } else if k == 2 {
        Suit::Diamonds
    } else {
        Suit::Clubs
    }
}

/// The place (0 to 3) of a suit within one rank of a fresh deck.
pub open spec fn suit_place(s: Suit) -> int {
    match s {
        Suit::Spades => 0,
        Suit::Hearts => 1,
        Suit::Diamonds => 2,
        Suit::Clubs => 3,
    }
}

/// The card at position `i` of a fresh deck: ranks ascend, and within a rank
/// the suits come as Spades, Hearts, Diamonds, Clubs.
pub open spec fn fresh_card(i: int) -> Card {
    Card { suit: suit_at(i % 4), value: (i / 4 + 1) as u8 }
}

/// A fresh, unshuffled deck.
pub open spec fn fresh_deck() -> Seq<Card> {
    Seq::new(52, |i: int| fresh_card(i))
}

/// A fresh deck holds 52 well-formed cards, no card twice, and every
/// combination of a suit and a rank from 1 to 13.
pub proof fn lemma_fresh_deck_complete()
    ensures
        fresh_deck().len() == 52,
        fresh_deck().no_duplicates(),
        forall|i: int| 0 <= i < 52 ==> (#[trigger] fresh_deck()[i]).wf(),
        forall|suit: Suit, rank: u8|
            1 <= rank <= 13 ==> #[trigger] fresh_deck().contains(Card { suit, value: rank }),
{
    assert forall|i: int, j: int| 0 <= i < 52 && 0 <= j < 52 && i != j implies fresh_deck()[i]
        != fresh_deck()[j] by {
        if fresh_deck()[i] == fresh_deck()[j] {
            assert(i / 4 == j / 4);
            assert(suit_at(i % 4) == suit_at(j % 4));
            assert(i % 4 == j % 4);
        }
    }
    assert forall|suit: Suit, rank: u8| 1 <= rank <= 13 implies #[trigger] fresh_deck().contains(
        Card { suit, value: rank },
    ) by {
        let i = (rank - 1) * 4 + suit_place(suit);
        assert(i / 4 == rank - 1);
        assert(i % 4 == suit_place(suit));
        assert(fresh_deck()[i] == Card { suit, value: rank });
    }
}

/// Builds a fresh, unshuffled deck of 52 cards.
pub fn create_deck() -> (deck: Vec<Card>)
    ensures
        deck@ == fresh_deck(),
        deck@.len() == 52,
        deck@.no_duplicates(),
        forall|i: int| 0 <= i < 52 ==> (#[trigger] deck@[i]).wf(),
        forall|suit: Suit, rank: u8|
            1 <= rank <= 13 ==> #[trigger] deck@.contains(Card { suit, value: rank }),
{
    let mut deck: Vec<Card> = Vec::new();
    let mut rank: u8 = 1;
    while rank <= 13
        invariant
            1 <= rank <= 14,
            deck@.len() == 4 * (rank - 1),
            forall|i: int| 0 <= i < deck@.len() ==> deck@[i] == fresh_card(i),
        decreases 14 - rank,
    {
        deck.push(Card { suit: Suit::Spades, value: rank });
        deck.push(Card { suit: Suit::Hearts, value: rank });
        deck.push(Card { suit: Suit::Diamonds, value: rank });
        deck.push(Card { suit: Suit::Clubs, value: rank });
        rank += 1;
    }
    proof {
        assert(deck@ =~= fresh_deck());
        lemma_fresh_deck_complete();
    }
    deck
}

/// Why a draw failed.
#[derive(Clone, Copy, Debug, PartialEq, Eq, Structural)]
pub enum DrawError {
    /// The deck holds fewer cards than were asked for.
    InsufficientCards,
}

/// The last `n` cards of a deck in the order in which they leave it: the
/// card at the end first.
pub open spec fn dealt(deck: Seq<Card>, n: int) -> Seq<Card> {
    Seq::new(n as nat, |i: int| deck[deck.len() - 1 - i])
}

/// No card of `hand` is also in `deck`.
pub open spec fn apart(hand: Seq<Card>, deck: Seq<Card>) -> bool {
    forall|i: int, j: int| 0 <= i < hand.len() && 0 <= j < deck.len() ==> hand[i] != deck[j]
}

/// Moves `n` cards from the end of `deck` to the end of `hand`, one by one,
/// so that the card that was last in the deck is the first to arrive. With
/// fewer than `n` cards in the deck nothing moves and the draw fails.
///
/// Where the deck held no card twice and none of the hand's, the same is
/// true afterwards: no card is in both.
pub fn draw_cards(n: usize, hand: &mut Vec<Card>, deck: &mut Vec<Card>) -> (r: Result<
    (),
    DrawError,
>)
    ensures
        n <= old(deck)@.len() ==> r == Ok::<(), DrawError>(()),
        n > old(deck)@.len() ==> r == Err::<(), DrawError>(DrawError::InsufficientCards),
        r is Err ==> final(hand)@ == old(hand)@ && final(deck)@ == old(deck)@,
        r is Ok ==> final(deck)@ == old(deck)@.take(old(deck)@.len() - n),
        r is Ok ==> final(hand)@ == old(hand)@ + dealt(old(deck)@, n as int),
        r is Ok ==> final(deck)@.len() == old(deck)@.len() - n,
        r is Ok ==> final(hand)@.len() == old(hand)@.len() + n,
        final(hand)@.to_multiset().add(final(deck)@.to_multiset()) == old(hand)@.to_multiset().add(
            old(deck)@.to_multiset(),
        ),
        old(deck)@.no_duplicates() && apart(old(hand)@, old(deck)@) ==> apart(
            final(hand)@,
            final(deck)@,
        ) && final(deck)@.no_duplicates(),
        old(deck)@.no_duplicates() && apart(old(hand)@, old(deck)@) && old(hand)@.no_duplicates()
            ==> final(hand)@.no_duplicates(),
{
    if n > deck.len() {
        return Err(DrawError::InsufficientCards);
    }
    let mut moved: usize = 0;
    while moved < n
        invariant
            moved <= n <= old(deck)@.len(),
            deck@ == old(deck)@.take(old(deck)@.len() - moved),
            hand@ == old(hand)@ + dealt(old(deck)@, moved as int),
            hand@.to_multiset().add(deck@.to_multiset()) == old(hand)@.to_multiset().add(
                old(deck)@.to_multiset(),
            ),
        decreases n - moved,
    {
        let ghost hand_before = hand@;
        let ghost deck_before = deck@;
        let top = deck.pop();
        if let Some(card) = top {
            hand.push(card);
        }
        moved += 1;
        proof {
            let card = deck_before.last();
            assert(deck_before =~= deck@.push(card));
            to_multiset_build(deck@, card);
            to_multiset_build(hand_before, card);
            assert(hand@.to_multiset().add(deck@.to_multiset()) =~= hand_before.to_multiset().add(
                deck_before.to_multiset(),
            ));
            assert(deck@ =~= old(deck)@.take(old(deck)@.len() - moved));
            assert(hand@ =~= old(hand)@ + dealt(old(deck)@, moved as int));
        }
    }
    Ok(())
}

/// The random number generator that drives a shuffle: `rand::rngs::StdRng`,
/// which can be seeded from the system or from a fixed number.
#[verifier::external_type_specification]
#[verifier::external_body]
pub struct ExStdRng(rand::rngs::StdRng);

/// Calls `rand::seq::SliceRandom::shuffle` on the cards. That function only
/// swaps elements of the slice, so the contract claims that the cards after
/// the call are the cards before it, each as often as before. Nothing is
/// claimed of their order.
#[verifier::external_body]
fn shuffle_slice(cards: &mut Vec<Card>, rng: &mut StdRng)
    ensures
        final(cards)@.to_multiset() == old(cards)@.to_multiset(),
{
    cards.shuffle(rng);
}

/// Shuffles the deck with the given generator. The deck keeps its cards,
/// each as often as before; only their order changes.
pub fn shuffle(deck: &mut Vec<Card>, rng: &mut StdRng)
    ensures
        final(deck)@.to_multiset() == old(deck)@.to_multiset(),
        final(deck)@.len() == old(deck)@.len(),
        forall|card: Card| final(deck)@.contains(card) <==> old(deck)@.contains(card),
        old(deck)@.no_duplicates() ==> final(deck)@.no_duplicates(),
{
    shuffle_slice(deck, rng);
    proof {
        old(deck)@.to_multiset_ensures();
        deck@.to_multiset_ensures();
        assert forall|card: Card| deck@.contains(card) <==> old(deck)@.contains(card) by {
            assert(deck@.contains(card) <==> deck@.to_multiset().count(card) > 0);
            assert(old(deck)@.contains(card) <==> old(deck)@.to_multiset().count(card) > 0);
        }
        if old(deck)@.no_duplicates() {
            old(deck)@.lemma_multiset_has_no_duplicates();
            deck@.lemma_multiset_has_no_duplicates_conv();
        }
    }
}

} // verus!
