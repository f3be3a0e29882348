//! The policy by which a player chooses the card to play.
//!
//! A side follows suit when it can, and otherwise plays any card of its hand.
//! Among the cards that it may play, the choice is made at random, by the
//! `rand` crate.

use rand::seq::IteratorRandom;
use vstd::prelude::*;

use crate::cards::lemma_cards_are_finite;
use crate::cards::Card;
use crate::cards::Suit;
use crate::error::SelectionError;
use crate::hand::Hand;
use crate::hand::in_suit;
use crate::hand::is_listing;
use crate::hand::lemma_listing_counts;
use crate::hand::lemma_listing_is_unique;
use crate::hand::lemma_listing_of;
use crate::hand::listing_of;
use crate::side::Side;
use crate::situation::Situation;
use crate::situation::SituationView;

verus! {

/// `IteratorRandom::choose` on the range `0..n`, with the generator of the
/// current thread: one of the numbers of the range, and nothing if and only
/// if the range is empty.
#[verifier::external_body]
fn random_below(n: usize) -> (pick: Option<usize>)
    ensures
        n == 0 <==> pick is None,
        pick matches Some(i) ==> i < n,
{
    (0..n).choose(&mut rand::thread_rng())
}

/// Whether `hand` holds a card of `suit`.
pub open spec fn holds_suit(hand: Set<Card>, suit: Suit) -> bool {
    exists|c: Card| hand.contains(c) && c.suit == suit
}

/// The cards of `hand` that may be played when the suit `called` was led: the
/// cards of that suit, if the hand holds any; all its cards, if it holds none
/// or no card was led yet.
pub open spec fn candidates(hand: Set<Card>, called: Option<Suit>) -> Set<Card> {
    match called {
        Some(suit) => if holds_suit(hand, suit) {
            in_suit(hand, suit)
        } else {
            hand
        },
        None => hand,
    }
}

/// The hand from which `side` plays, as far as the view sees it; a hand that
/// the view does not see counts as empty.
pub open spec fn acting_hand(view: SituationView, side: Side) -> Set<Card> {
    match view.hand_of(side) {
        Some(hand) => hand,
        None => Set::empty(),
    }
}

/// The cards among which `side` chooses in the situation `view`.
pub open spec fn choices(view: SituationView, side: Side) -> Set<Card> {
    candidates(acting_hand(view, side), view.trick.called_suit())
}

/// The card that is played from `hand` when the suit `called` was led and the
/// draw among the cards that may be played gives `pick`: those cards are
/// counted by ascending deck index, starting at zero and wrapping around.
pub open spec fn selection_among(hand: Set<Card>, called: Option<Suit>, pick: int) -> Result<
    Card,
    SelectionError,
> {
    let cards = candidates(hand, called);
    if cards.len() == 0 {
        Err(SelectionError::EmptyHand)
    } else {
        Ok(listing_of(cards)[pick % (cards.len() as int)])
    }
}

/// The card that `side` plays when the draw among its choices gives `pick`.
pub open spec fn selection(view: SituationView, side: Side, pick: int) -> Result<
    Card,
    SelectionError,
> {
    selection_among(acting_hand(view, side), view.trick.called_suit(), pick)
}

/// The cards of `hand` that may be played when the suit `called` was led, by
/// ascending deck index.
pub fn candidate_list(hand: &Hand, called: Option<Suit>) -> (list: Vec<Card>)
    ensures
        is_listing(list@, candidates(hand@, called)),
        list@ == listing_of(candidates(hand@, called)),
        list.len() == candidates(hand@, called).len(),
{
    let list = match called {
        Some(suit) => {
            let following = hand.cards_in_suit(suit);
            if following.len() > 0 {
                proof {
                    assert(following@.contains(following[0]));
                    assert(in_suit(hand@, suit).contains(following[0]));
                }
                following
            } else {
                proof {
                    assert forall|c: Card| hand@.contains(c) implies c.suit != suit by {
                        if c.suit == suit {
                            assert(in_suit(hand@, suit).contains(c));
                            assert(following@.contains(c));
                        }
                    }
                }
                hand.cards()
            }
        },
        None => hand.cards(),
    };
    proof {
        lemma_listing_counts(list@, candidates(hand@, called));
        lemma_listing_is_unique(list@, list@, candidates(hand@, called));
    }
    list
}

/// Chooses the card to play from `hand` when the suit `called` was led, given
/// the outcome `pick` of the draw.
pub fn select_from_at(hand: &Hand, called: Option<Suit>, pick: usize) -> (result: Result<
    Card,
    SelectionError,
>)
    ensures
        result == selection_among(hand@, called, pick as int),
        result is Err <==> hand@ == Set::<Card>::empty(),
        result matches Ok(card) ==> candidates(hand@, called).contains(card),
{
    let list = candidate_list(hand, called);
    proof {
        lemma_candidates(hand@, called);
    }
    if list.len() == 0 {
        Err(SelectionError::EmptyHand)
    } else {
        let card = list[pick % list.len()];
        assert(list@.contains(card));
        Ok(card)
    }
}

/// Draws at random among the cards of `hand` that may be played when the suit
/// `called` was led: the number of one of them, counted from zero, or zero
/// where there is none.
pub fn draw_from(hand: &Hand, called: Option<Suit>) -> (pick: usize)
    ensures
        pick < candidates(hand@, called).len() || (candidates(hand@, called).len() == 0 && pick
            == 0),
{
    let list = candidate_list(hand, called);
    match random_below(list.len()) {
        Some(pick) => pick,
        None => 0,
    }
}

/// The hand from which `side` plays, as far as the view sees it; the empty
/// hand where the view does not see it.
fn seen_hand(view: &Situation, side: Side) -> (hand: Hand)
    ensures
        hand@ == acting_hand(view@, side),
{
    match view.hand_of(side) {
        Some(hand) => hand,
        None => Hand::new(),
    }
}

/// The cards among which `side` chooses, by ascending deck index.
pub fn choice_list(view: &Situation, side: Side) -> (list: Vec<Card>)
    ensures
        is_listing(list@, choices(view@, side)),
        list@ == listing_of(choices(view@, side)),
        list.len() == choices(view@, side).len(),
{
    candidate_list(&seen_hand(view, side), view.called_suit())
}

/// Chooses the card that `side` plays, given the outcome `pick` of the draw.
pub fn select_at(view: &Situation, side: Side, pick: usize) -> (result: Result<
    Card,
    SelectionError,
>)
    ensures
        result == selection(view@, side, pick as int),
        result is Err <==> acting_hand(view@, side) == Set::<Card>::empty(),
        result matches Ok(card) ==> choices(view@, side).contains(card),
{
    select_from_at(&seen_hand(view, side), view.called_suit(), pick)
}

/// Draws at random among the choices of `side`: the number of one of them,
/// counted from zero, or zero where there is none.
pub fn draw(view: &Situation, side: Side) -> (pick: usize)
    ensures
        pick < choices(view@, side).len() || (choices(view@, side).len() == 0 && pick == 0),
{
    draw_from(&seen_hand(view, side), view.called_suit())
}

/// Chooses at random the card that `side` plays: a card of the suit that was
/// led, if the hand of `side` holds one, and else any card of the hand. Fails
/// if and only if the hand is empty.
pub fn select(view: &Situation, side: Side) -> (result: Result<Card, SelectionError>)
    ensures
        result is Err <==> acting_hand(view@, side) == Set::<Card>::empty(),
        result is Err ==> result == Err::<Card, SelectionError>(SelectionError::EmptyHand),
        result matches Ok(card) ==> choices(view@, side).contains(card),
        result matches Ok(card) ==> acting_hand(view@, side).contains(card),
        forall|card: Card, suit: Suit|
            result == Ok::<Card, SelectionError>(card) && view@.trick.called_suit() == Some(suit)
                && holds_suit(acting_hand(view@, side), suit) ==> card.suit == suit,
        exists|pick: int| result == selection(view@, side, pick),
{
    proof {
        lemma_choices(view@, side);
    }
    select_at(view, side, draw(view, side))
}

/// The cards that may be played from a hand are cards of the hand; there is
/// one exactly when the hand is not empty; and where the hand holds the suit
/// that was led, each of them is of that suit.
pub proof fn lemma_candidates(hand: Set<Card>, called: Option<Suit>)
    ensures
        candidates(hand, called).finite(),
        candidates(hand, called).subset_of(hand),
        candidates(hand, called).len() == 0 <==> hand == Set::<Card>::empty(),
        forall|suit: Suit, card: Card|
            called == Some(suit) && holds_suit(hand, suit) && candidates(hand, called).contains(
                card,
            ) ==> card.suit == suit,
{
    let cards = candidates(hand, called);
    lemma_cards_are_finite(cards);
    if cards.len() == 0 {
        assert(cards =~= Set::<Card>::empty());
        match called {
            Some(suit) => {
                if holds_suit(hand, suit) {
                    let c = choose|c: Card| hand.contains(c) && c.suit == suit;
                    assert(in_suit(hand, suit).contains(c));
                }
            },
            None => {},
        }
        assert(hand =~= Set::<Card>::empty());
    }
    if hand =~= Set::<Card>::empty() {
        assert(cards =~= Set::<Card>::empty());
    }
}

/// A card is chosen from a hand exactly when the hand is not empty, and it is
/// one of the cards that may be played, whatever the draw gives.
pub proof fn lemma_selection_among(hand: Set<Card>, called: Option<Suit>, pick: int)
    ensures
        selection_among(hand, called, pick) is Err <==> hand == Set::<Card>::empty(),
        selection_among(hand, called, pick) matches Ok(card) ==> candidates(
            hand,
            called,
        ).contains(card) && hand.contains(card),
{
    let cards = candidates(hand, called);
    lemma_candidates(hand, called);
    lemma_listing_of(cards);
    lemma_listing_counts(listing_of(cards), cards);
    if cards.len() > 0 {
        let n = cards.len() as int;
        assert(0 <= pick % n < n) by (nonlinear_arith)
            requires
                n > 0,
        ;
        assert(listing_of(cards).contains(listing_of(cards)[pick % n]));
    }
}

/// The choices of a side are cards of its hand; there is a choice exactly
/// when the hand is not empty; and where the hand holds the suit that was
/// led, every choice is of that suit.
pub proof fn lemma_choices(view: SituationView, side: Side)
    ensures
        choices(view, side).finite(),
        choices(view, side).subset_of(acting_hand(view, side)),
        choices(view, side).len() == 0 <==> acting_hand(view, side) == Set::<Card>::empty(),
        forall|suit: Suit, card: Card|
            view.trick.called_suit() == Some(suit) && holds_suit(acting_hand(view, side), suit)
                && choices(view, side).contains(card) ==> card.suit == suit,
{
    lemma_candidates(acting_hand(view, side), view.trick.called_suit());
}

/// A card is chosen exactly when the hand is not empty, and it is one of the
/// choices, whatever the draw gives.
pub proof fn lemma_selection_is_a_choice(view: SituationView, side: Side, pick: int)
    ensures
        selection(view, side, pick) is Err <==> acting_hand(view, side) == Set::<Card>::empty(),
        selection(view, side, pick) matches Ok(card) ==> choices(view, side).contains(card)
            && acting_hand(view, side).contains(card),
{
    lemma_selection_among(acting_hand(view, side), view.trick.called_suit(), pick);
}

/// A side that holds a card of the suit that was led plays a card of that
/// suit, and never one of another suit.
pub proof fn lemma_selection_follows_suit(view: SituationView, side: Side, suit: Suit, pick: int)
    requires
        view.trick.called_suit() == Some(suit),
        holds_suit(acting_hand(view, side), suit),
    ensures
        selection(view, side, pick) matches Ok(card) && card.suit == suit && acting_hand(
            view,
            side,
        ).contains(card),
{
    lemma_selection_is_a_choice(view, side, pick);
    lemma_choices(view, side);
    let witness = choose|c: Card| acting_hand(view, side).contains(c) && c.suit == suit;
    assert(acting_hand(view, side).contains(witness));
}

/// A side that holds cards, but none of the suit that was led, plays some
/// card of its hand: the choice never fails.
pub proof fn lemma_selection_when_void(view: SituationView, side: Side, suit: Suit, pick: int)
    requires
        view.trick.called_suit() == Some(suit),
        !holds_suit(acting_hand(view, side), suit),
        acting_hand(view, side) != Set::<Card>::empty(),
    ensures
        selection(view, side, pick) matches Ok(card) && acting_hand(view, side).contains(card),
        choices(view, side) == acting_hand(view, side),
{
    lemma_selection_is_a_choice(view, side, pick);
}

/// A side that opens a trick plays some card of its hand, unless the hand is empty.
pub proof fn lemma_selection_when_leading(view: SituationView, side: Side, pick: int)
    requires
        view.trick.called_suit() is None,
        acting_hand(view, side) != Set::<Card>::empty(),
    ensures
        selection(view, side, pick) matches Ok(card) && acting_hand(view, side).contains(card),
        choices(view, side) == acting_hand(view, side),
{
    lemma_selection_is_a_choice(view, side, pick);
}

} // verus!
