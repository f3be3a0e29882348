//! Automated players for the card-play phase of contract bridge.
//!
//! A player sits at one side of the table, as declarer, defender or dummy,
//! and talks to a game service that deals, judges the plays and keeps the
//! score. The library holds what a player decides:
//!
//! - [`situation`]: the player's own view of the deal, kept up to date by the
//!   notifications of the service;
//! - [`selector`]: the policy that chooses the card to play;
//! - [`agent`]: the protocol loop as a state machine, from a message of the
//!   service to the messages to send back.
//!
//! Hands are kept in the card sets of the `karty` crate, full tricks are
//! resolved by the trick solver of `brydz_core`, and random choices are drawn
//! by `rand`; the modules [`hand`], [`trick`] and [`selector`] say what is
//! taken on trust of each. Sending and receiving is left to the caller.

pub mod agent;
pub mod cards;
pub mod error;
pub mod hand;
pub mod protocol;
pub mod selector;
pub mod side;
pub mod situation;
pub mod trick;
