//! Single-player blackjack against a scripted dealer: the deck, dealing,
//! hand scoring, the two turn rules and the final outcome.

pub mod card;
pub mod deck;
pub mod outcome;
pub mod score;
pub mod text;
pub mod turn;

pub use card::{Card, Suit};
pub use deck::{create_deck, draw_cards, shuffle, DrawError};
pub use outcome::{resolve, result_message, GameOutcome, Winner};
pub use score::sum_points;
pub use turn::{
    deal_opening, dealer_should_hit, dealer_step, dealer_turn, parse_move, player_step, DealerMove, PlayerMove,
    PlayerState,
};
