//! The two turns: what the player's answer does, and how the dealer plays.

use crate::card::Card;
use crate::deck::{dealt, draw_cards, DrawError};
use crate::outcome::{outcome_of, GameOutcome, Winner};
use crate::score::{score, sum_points};
use vstd::prelude::*;
use vstd::string::*;

verus! {

/// What the player answered at the prompt.
#[derive(Clone, Copy, Debug, PartialEq, Eq, Structural)]
pub enum PlayerMove {
    /// "h": take one more card.
    Hit,
    /// "s": take no more cards.
    Stand,
    /// Anything else: the prompt is repeated.
    Unrecognized,
}

/// Where the player's turn is after an answer.
#[derive(Clone, Copy, Debug, PartialEq, Eq, Structural)]
pub enum PlayerState {
    /// The turn goes on: the player is asked again.
    AwaitingInput,
    /// The player has stood: the turn is over.
    Stand,
    /// The player's score is over 21: the turn is over.
    Busted,
}

/// What the dealer did in one step of its turn.
#[derive(Clone, Copy, Debug, PartialEq, Eq, Structural)]
pub enum DealerMove {
    /// The dealer drew a card; its turn goes on.
    Hit,
    /// The dealer drew nothing; its turn is over.
    Stand,
}

/// What `str::trim` makes of a text: the text without the whitespace at its
/// start and at its end.
pub uninterp spec fn trimmed(text: Seq<char>) -> Seq<char>;

/// Calls `str::trim`, and names what it returns.
#[verifier::external_body]
fn trim_text(text: &str) -> (inner: &str)
    ensures
        inner@ == trimmed(text@),
{
    text.trim()
}

/// The move that an answer stands for: exactly "h" hits, exactly "s" stands.
pub open spec fn move_of(answer: Seq<char>) -> PlayerMove {
    if answer == seq!['h'] {
        PlayerMove::Hit
    } else if answer == seq!['s'] {
        PlayerMove::Stand
    } else {
        PlayerMove::Unrecognized
    }
}

/// Reads a move from an answer that has no whitespace around it.
pub fn move_from_answer(answer: &str) -> (mv: PlayerMove)
    ensures
        mv == move_of(answer@),
{
    if answer.unicode_len() != 1 {
        return PlayerMove::Unrecognized;
    }
    let letter = answer.get_char(0);
    proof {
        assert(letter == 'h' ==> answer@ =~= seq!['h']);
        assert(letter == 's' ==> answer@ =~= seq!['s']);
        assert(answer@ == seq!['h'] ==> answer@[0] == 'h');
        assert(answer@ == seq!['s'] ==> answer@[0] == 's');
    }
    if letter == 'h' {
        PlayerMove::Hit
    } else if letter == 's' {
        PlayerMove::Stand
    } else {
        PlayerMove::Unrecognized
    }
}

/// Reads a move from a line of input, whatever whitespace stands around it.
pub fn parse_move(line: &str) -> (mv: PlayerMove)
    ensures
        mv == move_of(trimmed(line@)),
{
    move_from_answer(trim_text(line))
}

/// Where the player's turn is with this hand after a hit.
pub open spec fn state_after_hit(hand: Seq<Card>) -> PlayerState {
    if score(hand) > 21 {
        PlayerState::Busted
    } else {
        PlayerState::AwaitingInput
    }
}

/// One step of the player's turn. A hit moves the last card of the deck to
/// the hand, and the turn ends there if the hand is then over 21. A stand
/// ends the turn. Any other answer changes nothing and the turn goes on.
/// A hit on an empty deck fails and changes nothing.
pub fn player_step(mv: PlayerMove, hand: &mut Vec<Card>, deck: &mut Vec<Card>) -> (r: Result<
    PlayerState,
    DrawError,
>)
    ensures
        mv == PlayerMove::Hit && old(deck)@.len() > 0 ==> {
            &&& final(hand)@ == old(hand)@.push(old(deck)@.last())
            &&& final(deck)@ == old(deck)@.drop_last()
            &&& r == Ok::<PlayerState, DrawError>(state_after_hit(final(hand)@))
        },
        mv == PlayerMove::Hit && old(deck)@.len() == 0 ==> r == Err::<PlayerState, DrawError>(
            DrawError::InsufficientCards,
        ),
        mv == PlayerMove::Stand ==> r == Ok::<PlayerState, DrawError>(PlayerState::Stand),
        mv == PlayerMove::Unrecognized ==> r == Ok::<PlayerState, DrawError>(
            PlayerState::AwaitingInput,
        ),
        mv != PlayerMove::Hit || old(deck)@.len() == 0 ==> final(hand)@ == old(hand)@
            && final(deck)@ == old(deck)@,
{
    match mv {
        PlayerMove::Hit => {
            match draw_cards(1, hand, deck) {
                Err(e) => Err(e),
                Ok(()) => {
                    proof {
                        assert(hand@ =~= old(hand)@.push(old(deck)@.last()));
                        assert(deck@ =~= old(deck)@.drop_last());
                    }
                    if sum_points(hand) > 21 {
                        Ok(PlayerState::Busted)
                    } else {
                        Ok(PlayerState::AwaitingInput)
                    }
                },
            }
        },
        PlayerMove::Stand => Ok(PlayerState::Stand),
        PlayerMove::Unrecognized => Ok(PlayerState::AwaitingInput),
    }
}

/// The opening deal: four cards leave the end of the deck one by one, to the
/// dealer, the player, the dealer and the player. The result is the
/// dealer's hand, then the player's. With fewer than four cards in the deck
/// nothing is dealt.
pub fn deal_opening(deck: &mut Vec<Card>) -> (r: Result<(Vec<Card>, Vec<Card>), DrawError>)
    ensures
        old(deck)@.len() < 4 ==> r == Err::<(Vec<Card>, Vec<Card>), DrawError>(
            DrawError::InsufficientCards,
        ) && final(deck)@ == old(deck)@,
        old(deck)@.len() >= 4 ==> r is Ok && final(deck)@ == old(deck)@.take(old(deck)@.len() - 4),
        match r {
            Ok((dealer_hand, player_hand)) => {
                let n = old(deck)@.len() as int;
                &&& dealer_hand@ == seq![old(deck)@[n - 1], old(deck)@[n - 3]]
                &&& player_hand@ == seq![old(deck)@[n - 2], old(deck)@[n - 4]]
            },
            Err(_) => true,
        },
{
    if deck.len() < 4 {
        return Err(DrawError::InsufficientCards);
    }
    let mut dealer_hand: Vec<Card> = Vec::new();
    let mut player_hand: Vec<Card> = Vec::new();
    let mut round: usize = 0;
    while round < 2
        invariant
            round <= 2,
            old(deck)@.len() >= 4,
            deck@ == old(deck)@.take(old(deck)@.len() - 2 * round),
            dealer_hand@.len() == round,
            player_hand@.len() == round,
            forall|k: int|
                0 <= k < round ==> dealer_hand@[k] == old(deck)@[old(deck)@.len() - 1 - 2 * k],
            forall|k: int|
                0 <= k < round ==> player_hand@[k] == old(deck)@[old(deck)@.len() - 2 - 2 * k],
        decreases 2 - round,
    {
        match draw_cards(1, &mut dealer_hand, deck) {
            Err(e) => {
                return Err(e);
            },
            Ok(()) => {},
        }
        match draw_cards(1, &mut player_hand, deck) {
            Err(e) => {
                return Err(e);
            },
            Ok(()) => {},
        }
        round += 1;
        proof {
            assert(deck@ =~= old(deck)@.take(old(deck)@.len() - 2 * round));
        }
    }
    proof {
        let n = old(deck)@.len() as int;
        assert(dealer_hand@ =~= seq![old(deck)@[n - 1], old(deck)@[n - 3]]);
        assert(player_hand@ =~= seq![old(deck)@[n - 2], old(deck)@[n - 4]]);
    }
    Ok((dealer_hand, player_hand))
}

/// The dealer's rule: it hits while it is not over 21, behind a player who is
/// not over 21, and not at 21 itself.
pub open spec fn dealer_hits(dealer: int, player: int) -> bool {
    dealer <= 21 && dealer < player && player <= 21 && dealer != 21
}

/// The dealer never hits with at least the player's score, nor at 21 or
/// over, nor against a player who is over 21.
pub proof fn lemma_dealer_holds(dealer: int, player: int)
    requires
        dealer >= player || dealer >= 21 || player > 21,
    ensures
        !dealer_hits(dealer, player),
{
}

/// A dealer that stands is never beaten on points: once its rule says stand,
/// the player takes the game only where the dealer is over 21.
pub proof fn lemma_dealer_stands_safe(dealer: int, player: int)
    requires
        !dealer_hits(dealer, player),
    ensures
        outcome_of(player, dealer) != GameOutcome::PlayerWins,
        outcome_of(player, dealer).winner() == Winner::Player ==> dealer > 21,
{
}

/// Whether the dealer hits at these scores. It never does when it has at
/// least the player's score, when it stands at 21 or over, or when the
/// player is over 21.
pub fn dealer_should_hit(dealer_score: u128, player_score: u128) -> (hit: bool)
    ensures
        hit == dealer_hits(dealer_score as int, player_score as int),
        dealer_score >= player_score ==> !hit,
        dealer_score >= 21 ==> !hit,
        player_score > 21 ==> !hit,
        hit <==> dealer_score < player_score <= 21,
{
    dealer_score <= 21 && dealer_score < player_score && player_score <= 21 && dealer_score != 21
}

/// One step of the dealer's turn against a player with `player_score`: where
/// the rule says hit, the last card of the deck moves to the dealer's hand;
/// otherwise nothing changes and the dealer stands. A hit on an empty deck
/// fails and changes nothing.
pub fn dealer_step(player_score: u128, hand: &mut Vec<Card>, deck: &mut Vec<Card>) -> (r: Result<
    DealerMove,
    DrawError,
>)
    ensures
        !dealer_hits(score(old(hand)@), player_score as int) ==> r == Ok::<DealerMove, DrawError>(
            DealerMove::Stand,
        ),
        dealer_hits(score(old(hand)@), player_score as int) && old(deck)@.len() == 0 ==> r == Err::<
            DealerMove,
            DrawError,
        >(DrawError::InsufficientCards),
        dealer_hits(score(old(hand)@), player_score as int) && old(deck)@.len() > 0 ==> {
            &&& r == Ok::<DealerMove, DrawError>(DealerMove::Hit)
            &&& final(hand)@ == old(hand)@.push(old(deck)@.last())
            &&& final(deck)@ == old(deck)@.drop_last()
        },
        !(r == Ok::<DealerMove, DrawError>(DealerMove::Hit)) ==> final(hand)@ == old(hand)@
            && final(deck)@ == old(deck)@,
{
    let dealer_score = sum_points(hand);
    if !dealer_should_hit(dealer_score, player_score) {
        return Ok(DealerMove::Stand);
    }
    match draw_cards(1, hand, deck) {
        Err(e) => Err(e),
        Ok(()) => {
            proof {
                assert(hand@ =~= old(hand)@.push(old(deck)@.last()));
                assert(deck@ =~= old(deck)@.drop_last());
            }
            Ok(DealerMove::Hit)
        },
    }
}

/// The dealer's whole turn against a player with `player_score`. The dealer
/// draws from the end of the deck for as long as its rule says hit, and
/// returns its final score. The number of cards drawn is the first at which
/// the rule says stand. Where the deck runs out before that, the turn fails
/// with all of the deck in the dealer's hand.
pub fn dealer_turn(player_score: u128, hand: &mut Vec<Card>, deck: &mut Vec<Card>) -> (r: Result<
    u128,
    DrawError,
>)
    ensures
        ({
            let drawn = final(hand)@.len() - old(hand)@.len();
            &&& 0 <= drawn <= old(deck)@.len()
            &&& final(hand)@ == old(hand)@ + dealt(old(deck)@, drawn)
            &&& final(deck)@ == old(deck)@.take(old(deck)@.len() - drawn)
            &&& forall|j: int|
                0 <= j < drawn ==> dealer_hits(
                    #[trigger] score(old(hand)@ + dealt(old(deck)@, j)),
                    player_score as int,
                )
            &&& match r {
                Ok(dealer_score) => dealer_score == score(final(hand)@) && !dealer_hits(
                    dealer_score as int,
                    player_score as int,
                ),
                Err(e) => e == DrawError::InsufficientCards && drawn == old(deck)@.len()
                    && dealer_hits(score(final(hand)@), player_score as int),
            }
        }),
{
    let mut dealer_score = sum_points(hand);
    let ghost mut drawn: int = 0;
    proof {
        assert(hand@ =~= old(hand)@ + dealt(old(deck)@, 0));
        assert(deck@ =~= old(deck)@.take(old(deck)@.len() - 0));
    }
    while dealer_should_hit(dealer_score, player_score)
        invariant
            0 <= drawn <= old(deck)@.len(),
            hand@ == old(hand)@ + dealt(old(deck)@, drawn),
            deck@ == old(deck)@.take(old(deck)@.len() - drawn),
            dealer_score == score(hand@),
            forall|j: int|
                0 <= j < drawn ==> dealer_hits(
                    #[trigger] score(old(hand)@ + dealt(old(deck)@, j)),
                    player_score as int,
                ),
        decreases deck@.len(),
    {
        match draw_cards(1, hand, deck) {
            Err(e) => {
                return Err(e);
            },
            Ok(()) => {},
        }
        proof {
            drawn = drawn + 1;
            assert(hand@ =~= old(hand)@ + dealt(old(deck)@, drawn));
            assert(deck@ =~= old(deck)@.take(old(deck)@.len() - drawn));
        }
        dealer_score = sum_points(hand);
    }
    Ok(dealer_score)
}

} // verus!
