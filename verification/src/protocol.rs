//! The messages that a player exchanges with the game service.
//!
//! The message types are generic in how a hand is given: the messages that are
//! sent and received carry a `Hand`, their views carry the set of its cards.

use vstd::prelude::*;

use crate::cards::Card;
use crate::error::BotError;
use crate::hand::Hand;
use crate::side::Side;

verus! {

/// What the game service tells a player about the deal being played.
#[derive(Clone, Copy, Debug, PartialEq, Eq)]
pub enum DealNotify<H = Hand> {
    /// A side played a card.
    CardPlayed(Side, Card),
    /// Four cards were played and the trick was taken.
    TrickClosed,
    /// The player is asked to act.
    YourMove,
    /// The card that the player submitted was accepted.
    CardAccepted(Card),
    /// The card that the player submitted was refused.
    CardDeclined(Card),
    /// The dummy's hand was placed on the table.
    DummyPlacedHand(H),
    /// The deal is over.
    DealClosed,
}

/// What the game service sends.
#[derive(Clone, Copy, Debug, PartialEq, Eq)]
pub enum ServerMessage<H = Hand> {
    /// A notification about the deal being played.
    Deal(DealNotify<H>),
    /// A notification about the auction.
    Bidding,
    /// A player left the table.
    PlayerLeft(Side),
    /// Information about the deal.
    DealInfo,
    /// Information about the auction.
    BiddingInfo,
    /// The game is over.
    GameOver,
    /// The service reports an error.
    Error(BotError),
    /// The service is not ready yet.
    ServerNotReady,
    /// The service is stopping.
    ServerStopping,
}

/// What a player does in the deal.
#[derive(Clone, Copy, Debug, PartialEq, Eq)]
pub enum DealAction<H = Hand> {
    /// Play a card.
    PlayCard(Card),
    /// Place the hand on the table, as the dummy does.
    ShowHand(H),
    /// Decline to act: it is another side's turn.
    NotMyTurn,
}

/// What a player sends.
#[derive(Clone, Copy, Debug, PartialEq, Eq)]
pub enum ClientMessage<H = Hand> {
    /// The player is ready for the deal.
    Ready,
    /// The player acts in the deal.
    Dealing(DealAction<H>),
    /// The player reports an error.
    Error(BotError),
    /// The player leaves.
    Quit,
}

impl View for DealNotify<Hand> {
    type V = DealNotify<Set<Card>>;

    open spec fn view(&self) -> DealNotify<Set<Card>> {
        match *self {
            DealNotify::CardPlayed(side, card) => DealNotify::CardPlayed(side, card),
            DealNotify::TrickClosed => DealNotify::TrickClosed,
            DealNotify::YourMove => DealNotify::YourMove,
            DealNotify::CardAccepted(card) => DealNotify::CardAccepted(card),
            DealNotify::CardDeclined(card) => DealNotify::CardDeclined(card),
            DealNotify::DummyPlacedHand(hand) => DealNotify::DummyPlacedHand(hand@),
            DealNotify::DealClosed => DealNotify::DealClosed,
        }
    }
}

impl View for ServerMessage<Hand> {
    type V = ServerMessage<Set<Card>>;

    open spec fn view(&self) -> ServerMessage<Set<Card>> {
        match *self {
            ServerMessage::Deal(notify) => ServerMessage::Deal(notify@),
            ServerMessage::Bidding => ServerMessage::Bidding,
            ServerMessage::PlayerLeft(side) => ServerMessage::PlayerLeft(side),
            ServerMessage::DealInfo => ServerMessage::DealInfo,
            ServerMessage::BiddingInfo => ServerMessage::BiddingInfo,
            ServerMessage::GameOver => ServerMessage::GameOver,
            ServerMessage::Error(error) => ServerMessage::Error(error),
            ServerMessage::ServerNotReady => ServerMessage::ServerNotReady,
            ServerMessage::ServerStopping => ServerMessage::ServerStopping,
        }
    }
}

impl View for DealAction<Hand> {
    type V = DealAction<Set<Card>>;

    open spec fn view(&self) -> DealAction<Set<Card>> {
        match *self {
            DealAction::PlayCard(card) => DealAction::PlayCard(card),
            DealAction::ShowHand(hand) => DealAction::ShowHand(hand@),
            DealAction::NotMyTurn => DealAction::NotMyTurn,
        }
    }
}

impl View for ClientMessage<Hand> {
    type V = ClientMessage<Set<Card>>;

    open spec fn view(&self) -> ClientMessage<Set<Card>> {
        match *self {
            ClientMessage::Ready => ClientMessage::Ready,
            ClientMessage::Dealing(action) => ClientMessage::Dealing(action@),
            ClientMessage::Error(error) => ClientMessage::Error(error),
            ClientMessage::Quit => ClientMessage::Quit,
        }
    }
}

} // verus!
