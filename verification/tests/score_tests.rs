use blackjack::score::sum_points;
use blackjack::{Card, Suit};

fn hand(ranks: &[u8]) -> Vec<Card> {
    ranks.iter().map(|r| Card { suit: Suit::Hearts, value: *r }).collect()
}

#[test]
fn ace_and_king_is_twenty_one() {
    assert_eq!(sum_points(&hand(&[1, 13])), 21);
}

#[test]
fn two_aces_are_twelve() {
    assert_eq!(sum_points(&hand(&[1, 1])), 12);
}

#[test]
fn king_queen_ace_is_twenty_one() {
    assert_eq!(sum_points(&hand(&[13, 12, 1])), 21);
}

#[test]
fn three_fives_are_fifteen() {
    assert_eq!(sum_points(&hand(&[5, 5, 5])), 15);
}

#[test]
fn two_kings_are_twenty() {
    assert_eq!(sum_points(&hand(&[13, 13])), 20);
}

#[test]
fn empty_hand_is_zero() {
    assert_eq!(sum_points(&hand(&[])), 0);
}

#[test]
fn each_rank_alone() {
    let want: [u128; 13] = [11, 2, 3, 4, 5, 6, 7, 8, 9, 10, 10, 10, 10];
    for r in 1..=13u8 {
        assert_eq!(sum_points(&hand(&[r])), want[(r - 1) as usize]);
    }
}

#[test]
fn aces_go_low_only_as_far_as_needed() {
    assert_eq!(sum_points(&hand(&[1, 1, 9])), 21);
    assert_eq!(sum_points(&hand(&[1, 1, 1])), 13);
    assert_eq!(sum_points(&hand(&[1, 1, 1, 1])), 14);
    assert_eq!(sum_points(&hand(&[1, 5, 6])), 12);
    assert_eq!(sum_points(&hand(&[1, 10])), 21);
    assert_eq!(sum_points(&hand(&[1, 9, 1])), 21);
}

#[test]
fn bust_counts_every_ace_low() {
    assert_eq!(sum_points(&hand(&[13, 12, 11])), 30);
    assert_eq!(sum_points(&hand(&[13, 12, 1, 1])), 22);
    assert_eq!(sum_points(&hand(&[10, 9, 1, 1, 1])), 22);
}

#[test]
fn suit_does_not_count() {
    let mixed = vec![
        Card { suit: Suit::Spades, value: 1 },
        Card { suit: Suit::Diamonds, value: 13 },
    ];
    assert_eq!(sum_points(&mixed), 21);
}

#[test]
fn scoring_twice_gives_the_same() {
    let h = hand(&[1, 7, 1, 4]);
    let before = h.clone();
    let first = sum_points(&h);
    let second = sum_points(&h);
    assert_eq!(first, second);
    assert_eq!(first, 13);
    assert_eq!(h, before);
}

#[test]
fn whole_deck_scores_past_a_byte() {
    let deck = blackjack::create_deck();
    assert_eq!(sum_points(&deck), 340);
}
