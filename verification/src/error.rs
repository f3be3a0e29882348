//! What can go wrong in a session.

use vstd::prelude::*;

use crate::cards::Card;
use crate::side::Side;

verus! {

/// Two sides that should have been the same.
#[derive(Clone, Copy, Debug, PartialEq, Eq, Structural, Hash)]
pub struct Mismatch {
    /// The side whose turn it is.
    pub expected: Side,
    /// The side that acted, or was asked to act.
    pub found: Side,
}

/// The channel to the game service failed. Always fatal.
#[derive(Clone, Copy, Debug, PartialEq, Eq, Structural, Hash)]
pub enum TransportError {
    /// A message could not be sent.
    SendFailed,
    /// No message could be received; the channel is closed.
    ReceiveFailed,
}

/// The game service and the player disagree about the course of the deal.
#[derive(Clone, Copy, Debug, PartialEq, Eq, Structural, Hash)]
pub enum ProtocolViolation {
    /// It is the turn of another side than the one that acted or was asked to act.
    DifferentSideExpected(Mismatch),
    /// The dummy's hand was placed on the table a second time.
    DuplicateReveal,
    /// The card is not legal to play, or was played before.
    IllegalOrDuplicateCard(Card),
    /// The deal is over: it is nobody's turn.
    DealFinished,
}

/// A notification could not be applied to the player's view of the deal.
#[derive(Clone, Copy, Debug, PartialEq, Eq, Structural, Hash)]
pub enum LocalStateError {
    /// A card was played that the hand it should come from does not hold.
    CardNotFound,
}

/// No card could be chosen.
#[derive(Clone, Copy, Debug, PartialEq, Eq, Structural, Hash)]
pub enum SelectionError {
    /// A move was asked of a hand without cards.
    EmptyHand,
}

/// Any error of a session.
#[derive(Clone, Copy, Debug, PartialEq, Eq, Structural, Hash)]
pub enum BotError {
    Transport(TransportError),
    Protocol(ProtocolViolation),
    LocalState(LocalStateError),
    Selection(SelectionError),
    /// The game service announced that it is stopping.
    ServerDead,
}

} // verus!
