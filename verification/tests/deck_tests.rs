use blackjack::deck::{create_deck, draw_cards, shuffle, DrawError};
use blackjack::{Card, Suit};
use rand::rngs::StdRng;
use rand::SeedableRng;

fn suit_index(suit: Suit) -> u8 {
    match suit {
        Suit::Hearts => 0,
        Suit::Spades => 1,
        Suit::Clubs => 2,
        Suit::Diamonds => 3,
    }
}

fn keys(cards: &[Card]) -> Vec<(u8, u8)> {
    let mut out: Vec<(u8, u8)> = cards.iter().map(|c| (suit_index(c.suit), c.value)).collect();
    out.sort();
    out
}

fn card(suit: Suit, value: u8) -> Card {
    Card { suit, value }
}

#[test]
fn deck_has_fifty_two_cards() {
    assert_eq!(create_deck().len(), 52);
}

#[test]
fn deck_has_every_card_once() {
    let deck = create_deck();
    let got = keys(&deck);
    let mut want: Vec<(u8, u8)> = Vec::new();
    for s in 0..4u8 {
        for r in 1..=13u8 {
            want.push((s, r));
        }
    }
    assert_eq!(got, want);
}

#[test]
fn deck_order_is_fixed() {
    let deck = create_deck();
    assert_eq!(deck[0], card(Suit::Spades, 1));
    assert_eq!(deck[1], card(Suit::Hearts, 1));
    assert_eq!(deck[2], card(Suit::Diamonds, 1));
    assert_eq!(deck[3], card(Suit::Clubs, 1));
    assert_eq!(deck[4], card(Suit::Spades, 2));
    assert_eq!(deck[48], card(Suit::Spades, 13));
    assert_eq!(deck[51], card(Suit::Clubs, 13));
    assert_eq!(create_deck(), deck);
}

#[test]
fn shuffle_keeps_the_cards() {
    let mut deck = create_deck();
    let mut rng = StdRng::seed_from_u64(7);
    shuffle(&mut deck, &mut rng);
    assert_eq!(deck.len(), 52);
    assert_eq!(keys(&deck), keys(&create_deck()));
}

#[test]
fn shuffle_changes_the_order() {
    let mut deck = create_deck();
    let mut rng = StdRng::seed_from_u64(7);
    shuffle(&mut deck, &mut rng);
    assert_ne!(deck, create_deck());
}

#[test]
fn shuffle_with_one_seed_repeats() {
    let mut first = create_deck();
    let mut second = create_deck();
    shuffle(&mut first, &mut StdRng::seed_from_u64(2024));
    shuffle(&mut second, &mut StdRng::seed_from_u64(2024));
    assert_eq!(first, second);
    let mut third = create_deck();
    shuffle(&mut third, &mut StdRng::seed_from_u64(2025));
    assert_ne!(first, third);
}

#[test]
fn shuffle_spreads_a_card_over_positions() {
    let target = card(Suit::Spades, 1);
    let mut seen = [0usize; 52];
    let mut rng = StdRng::seed_from_u64(99);
    let trials = 5200;
    for _ in 0..trials {
        let mut deck = create_deck();
        shuffle(&mut deck, &mut rng);
        let at = deck.iter().position(|c| *c == target).unwrap();
        seen[at] += 1;
    }
    for count in seen.iter() {
        assert!(*count > 40 && *count < 180);
    }
}

#[test]
fn shuffle_of_small_decks() {
    let mut none: Vec<Card> = Vec::new();
    shuffle(&mut none, &mut StdRng::seed_from_u64(1));
    assert!(none.is_empty());
    let mut one = vec![card(Suit::Hearts, 5)];
    shuffle(&mut one, &mut StdRng::seed_from_u64(1));
    assert_eq!(one, vec![card(Suit::Hearts, 5)]);
}

#[test]
fn draw_moves_cards_from_the_end() {
    let mut deck = create_deck();
    let mut hand: Vec<Card> = Vec::new();
    assert_eq!(draw_cards(3, &mut hand, &mut deck), Ok(()));
    assert_eq!(deck.len(), 49);
    assert_eq!(hand.len(), 3);
    assert_eq!(
        hand,
        vec![card(Suit::Clubs, 13), card(Suit::Diamonds, 13), card(Suit::Hearts, 13)]
    );
    assert_eq!(deck[..], create_deck()[..49]);
}

#[test]
fn draw_appends_to_the_hand() {
    let mut deck = vec![card(Suit::Hearts, 2), card(Suit::Hearts, 3), card(Suit::Hearts, 4)];
    let mut hand = vec![card(Suit::Clubs, 9)];
    assert_eq!(draw_cards(2, &mut hand, &mut deck), Ok(()));
    assert_eq!(hand, vec![card(Suit::Clubs, 9), card(Suit::Hearts, 4), card(Suit::Hearts, 3)]);
    assert_eq!(deck, vec![card(Suit::Hearts, 2)]);
}

#[test]
fn draw_leaves_no_card_in_both() {
    let mut deck = create_deck();
    let mut hand: Vec<Card> = Vec::new();
    assert_eq!(draw_cards(5, &mut hand, &mut deck), Ok(()));
    assert_eq!(draw_cards(7, &mut hand, &mut deck), Ok(()));
    for c in hand.iter() {
        assert!(!deck.contains(c));
    }
    let mut all = hand.clone();
    all.extend(deck.iter().copied());
    assert_eq!(keys(&all), keys(&create_deck()));
}

#[test]
fn draw_nothing_changes_nothing() {
    let mut deck = create_deck();
    let mut hand: Vec<Card> = Vec::new();
    assert_eq!(draw_cards(0, &mut hand, &mut deck), Ok(()));
    assert_eq!(deck, create_deck());
    assert!(hand.is_empty());
}

#[test]
fn draw_the_whole_deck() {
    let mut deck = create_deck();
    let mut hand: Vec<Card> = Vec::new();
    assert_eq!(draw_cards(52, &mut hand, &mut deck), Ok(()));
    assert!(deck.is_empty());
    let mut reversed = create_deck();
    reversed.reverse();
    assert_eq!(hand, reversed);
}

#[test]
fn draw_more_than_the_deck_holds_fails() {
    let mut deck = vec![card(Suit::Hearts, 2), card(Suit::Hearts, 3)];
    let mut hand = vec![card(Suit::Clubs, 9)];
    assert_eq!(draw_cards(3, &mut hand, &mut deck), Err(DrawError::InsufficientCards));
    assert_eq!(deck, vec![card(Suit::Hearts, 2), card(Suit::Hearts, 3)]);
    assert_eq!(hand, vec![card(Suit::Clubs, 9)]);
    let mut empty: Vec<Card> = Vec::new();
    assert_eq!(draw_cards(1, &mut hand, &mut empty), Err(DrawError::InsufficientCards));
}
