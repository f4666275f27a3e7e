use blackjack::text::{card_name, decimal_text, hand_names, rank_name, suit_name};
use blackjack::{Card, Suit};

#[test]
fn decimal_of_small_and_large_numbers() {
    assert_eq!(decimal_text(0), "0");
    assert_eq!(decimal_text(7), "7");
    assert_eq!(decimal_text(10), "10");
    assert_eq!(decimal_text(21), "21");
    assert_eq!(decimal_text(1234567890), "1234567890");
    assert_eq!(decimal_text(u128::MAX), u128::MAX.to_string());
}

#[test]
fn suits_have_their_names() {
    assert_eq!(suit_name(Suit::Hearts), "Hearts");
    assert_eq!(suit_name(Suit::Spades), "Spades");
    assert_eq!(suit_name(Suit::Clubs), "Clubs");
    assert_eq!(suit_name(Suit::Diamonds), "Diamonds");
}

#[test]
fn ranks_have_their_names() {
    assert_eq!(rank_name(1), "Ace");
    assert_eq!(rank_name(2), "2");
    assert_eq!(rank_name(10), "10");
    assert_eq!(rank_name(11), "Jack");
    assert_eq!(rank_name(12), "Queen");
    assert_eq!(rank_name(13), "King");
    assert_eq!(rank_name(0), "0");
    assert_eq!(rank_name(14), "14");
}

#[test]
fn cards_are_rank_of_suit() {
    assert_eq!(card_name(&Card { suit: Suit::Spades, value: 1 }), "Ace of Spades");
    assert_eq!(card_name(&Card { suit: Suit::Hearts, value: 7 }), "7 of Hearts");
    assert_eq!(card_name(&Card { suit: Suit::Clubs, value: 13 }), "King of Clubs");
    assert_eq!(card_name(&Card { suit: Suit::Diamonds, value: 10 }), "10 of Diamonds");
}

#[test]
fn hands_are_listed_in_order() {
    let hand = vec![
        Card { suit: Suit::Diamonds, value: 12 },
        Card { suit: Suit::Hearts, value: 11 },
        Card { suit: Suit::Clubs, value: 3 },
    ];
    assert_eq!(
        hand_names(&hand),
        vec!["Queen of Diamonds".to_string(), "Jack of Hearts".to_string(), "3 of Clubs".to_string()]
    );
    assert!(hand_names(&Vec::new()).is_empty());
}
