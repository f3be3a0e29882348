//! A player's own view of the deal being played.
//!
//! The view mirrors what the player can see: its own hand, the dummy's hand
//! once it lies on the table, and the open trick, from which the side to play
//! is derived. It is updated by the notifications of the game service alone.

use vstd::prelude::*;

use crate::cards::lemma_cards_are_finite;
use crate::cards::Card;
use crate::cards::Suit;
use crate::cards::Trump;
use crate::error::BotError;
use crate::error::LocalStateError;
use crate::error::ProtocolViolation;
use crate::hand::Hand;
use crate::protocol::DealNotify;
use crate::side::Side;
use crate::trick::lemma_play_keeps_trick_open;
use crate::trick::Trick;
use crate::trick::TrickView;

verus! {

/// What a player's view of the deal holds.
pub struct SituationView {
    /// The side of the player.
    pub side: Side,
    /// The cards that the player holds.
    pub hand: Set<Card>,
    /// The side that declared the contract.
    pub declarer: Side,
    /// The trump of the contract.
    pub trump: Trump,
    /// The cards of the dummy, once its hand lies on the table.
    pub dummy_hand: Option<Set<Card>>,
    /// The open trick.
    pub trick: TrickView,
    /// Whether the deal is over for the player.
    pub terminal: bool,
}

impl SituationView {
    /// The view at the start of the play: the side after the declarer opens
    /// the first trick, and the dummy's hand is not yet on the table.
    pub open spec fn initial(side: Side, hand: Set<Card>, declarer: Side, trump: Trump)
        -> SituationView {
        SituationView {
            side,
            hand,
            declarer,
            trump,
            dummy_hand: None,
            trick: TrickView { leader: declarer.spec_next(), plays: Seq::empty() },
            terminal: false,
        }
    }

    /// The open trick is well formed.
    pub open spec fn wf(self) -> bool {
        self.trick.wf()
    }

    /// The side of the dummy: the declarer's partner.
    pub open spec fn dummy_side(self) -> Side {
        self.declarer.spec_partner()
    }

    /// The side whose turn it is; nobody's once the deal is over.
    pub open spec fn current_turn(self) -> Option<Side> {
        if self.terminal {
            None
        } else {
            Some(self.trick.turn())
        }
    }

    /// The hand of `side`, as far as the player sees it: its own hand, and the
    /// dummy's once it lies on the table.
    pub open spec fn hand_of(self, side: Side) -> Option<Set<Card>> {
        if side == self.side {
            Some(self.hand)
        } else if side == self.dummy_side() {
            self.dummy_hand
        } else {
            None
        }
    }

    /// The view knows that `side` does not hold `card`: the hand of `side` is
    /// seen and lacks the card.
    pub open spec fn lacks(self, side: Side, card: Card) -> bool {
        self.hand_of(side) matches Some(hand) && !hand.contains(card)
    }

    /// The view once `card` has left the hand of `side`, as far as that hand is seen.
    pub open spec fn without(self, side: Side, card: Card) -> SituationView {
        if side == self.side {
            SituationView { hand: self.hand.remove(card), ..self }
        } else if side == self.dummy_side() && self.dummy_hand is Some {
            SituationView { dummy_hand: Some(self.dummy_hand->0.remove(card)), ..self }
        } else {
            self
        }
    }

    /// `side` played `card`: the card leaves the hand of `side` and is laid on
    /// the table, unless the view knows that `side` does not hold it.
    pub open spec fn card_played(self, side: Side, card: Card) -> (SituationView, Result<(), BotError>) {
        if self.lacks(side, card) {
            (self, Err(BotError::LocalState(LocalStateError::CardNotFound)))
        } else {
            (
                SituationView {
                    trick: self.trick.play(self.trump, side, card),
                    ..self.without(side, card)
                },
                Ok(()),
            )
        }
    }

    /// The dummy placed `hand` on the table: accepted once.
    pub open spec fn dummy_placed(self, hand: Set<Card>) -> (SituationView, Result<(), BotError>) {
        if self.dummy_hand is Some {
            (self, Err(BotError::Protocol(ProtocolViolation::DuplicateReveal)))
        } else {
            (SituationView { dummy_hand: Some(hand), ..self }, Ok(()))
        }
    }

    /// The view with the deal over.
    pub open spec fn closed(self) -> SituationView {
        SituationView { terminal: true, ..self }
    }

    /// The view after a notification, and whether the notification could be applied.
    pub open spec fn apply(self, notify: DealNotify<Set<Card>>) -> (
        SituationView,
        Result<(), BotError>,
    ) {
        match notify {
            DealNotify::CardPlayed(side, card) => self.card_played(side, card),
            DealNotify::DummyPlacedHand(hand) => self.dummy_placed(hand),
            DealNotify::DealClosed => (self.closed(), Ok(())),
            DealNotify::TrickClosed => (self, Ok(())),
            DealNotify::YourMove => (self, Ok(())),
            DealNotify::CardAccepted(_) => (self, Ok(())),
            DealNotify::CardDeclined(_) => (self, Ok(())),
        }
    }
}

/// The view after a sequence of notifications, applied in order; those that
/// cannot be applied leave the view as it is.
pub open spec fn apply_all(view: SituationView, notes: Seq<DealNotify<Set<Card>>>) -> SituationView
    decreases notes.len(),
{
    if notes.len() == 0 {
        view
    } else {
        apply_all(view, notes.drop_last()).apply(notes.last()).0
    }
}

/// What no notification changes: a notification that cannot be applied leaves
/// the view as it is; the player's hand never grows and loses at most one
/// card; the dummy's hand, once on the table, stays there and never grows; a
/// deal that is over stays over; the side, the declarer and the trump stay;
/// and it is somebody's turn exactly as long as the deal is not over.
pub proof fn lemma_apply_keeps(view: SituationView, notify: DealNotify<Set<Card>>)
    requires
        view.wf(),
    ensures
        view.apply(notify).0.wf(),
        view.apply(notify).1 is Err ==> view.apply(notify).0 == view,
        view.apply(notify).0.hand.subset_of(view.hand),
        forall|a: Card, b: Card|
            view.hand.contains(a) && view.hand.contains(b) && !view.apply(notify).0.hand.contains(
                a,
            ) && !view.apply(notify).0.hand.contains(b) ==> a == b,
        view.dummy_hand is Some ==> view.apply(notify).0.dummy_hand is Some && view.apply(
            notify,
        ).0.dummy_hand->0.subset_of(view.dummy_hand->0),
        view.terminal ==> view.apply(notify).0.terminal,
        view.apply(notify).0.side == view.side,
        view.apply(notify).0.declarer == view.declarer,
        view.apply(notify).0.trump == view.trump,
        view.apply(notify).0.current_turn() is Some <==> !view.apply(notify).0.terminal,
{
    match notify {
        DealNotify::CardPlayed(side, card) => {
            lemma_play_keeps_trick_open(view.trick, view.trump, side, card);
        },
        _ => {},
    }
}

/// The same, after any sequence of notifications.
pub proof fn lemma_apply_all_keeps(view: SituationView, notes: Seq<DealNotify<Set<Card>>>)
    requires
        view.wf(),
    ensures
        apply_all(view, notes).wf(),
        apply_all(view, notes).hand.subset_of(view.hand),
        view.dummy_hand is Some ==> apply_all(view, notes).dummy_hand is Some && apply_all(
            view,
            notes,
        ).dummy_hand->0.subset_of(view.dummy_hand->0),
        view.terminal ==> apply_all(view, notes).terminal,
        apply_all(view, notes).side == view.side,
        apply_all(view, notes).declarer == view.declarer,
        apply_all(view, notes).trump == view.trump,
    decreases notes.len(),
{
    if notes.len() > 0 {
        lemma_apply_all_keeps(view, notes.drop_last());
        lemma_apply_keeps(apply_all(view, notes.drop_last()), notes.last());
    }
}

/// A card that was played from a hand that the view sees has left that hand,
/// and nothing else has: the hand is one card smaller, and the other hand is
/// as it was. The same notification, applied again, fails: the card is not
/// found.
pub proof fn lemma_card_played_once(view: SituationView, side: Side, card: Card)
    requires
        view.wf(),
        view.hand_of(side) is Some,
        view.card_played(side, card).1 is Ok,
    ensures
        view.hand_of(side)->0.contains(card),
        view.card_played(side, card).0.hand_of(side) == Some(view.hand_of(side)->0.remove(card)),
        view.card_played(side, card).0.hand_of(side)->0.len() + 1 == view.hand_of(side)->0.len(),
        forall|other: Side|
            other != side ==> view.card_played(side, card).0.hand_of(other) == view.hand_of(other),
        view.card_played(side, card).0.card_played(side, card) == (
            view.card_played(side, card).0,
            Err::<(), BotError>(BotError::LocalState(LocalStateError::CardNotFound)),
        ),
{
    lemma_cards_are_finite(view.hand_of(side)->0);
}

/// A card leaves a hand that the view sees exactly when the hand holds it;
/// else the view stays as it is, and the card is reported as not found. The
/// play of a side whose hand the view does not see is always taken.
pub proof fn lemma_card_played_or_not_found(view: SituationView, side: Side, card: Card)
    ensures
        view.hand_of(side) matches Some(hand) ==> (view.card_played(side, card).1 is Ok
            <==> hand.contains(card)),
        view.hand_of(side) is None ==> view.card_played(side, card).1 is Ok,
        view.card_played(side, card).1 is Err ==> view.card_played(side, card) == (
            view,
            Err::<(), BotError>(BotError::LocalState(LocalStateError::CardNotFound)),
        ),
        view.card_played(side, card).1 is Ok ==> view.card_played(side, card).0.trick
            == view.trick.play(view.trump, side, card),
{
}

/// The dummy's hand is placed on the table once: it is accepted if none lies
/// there, and from then on, whatever else happens, placing a hand fails as a
/// second reveal and changes nothing.
pub proof fn lemma_dummy_revealed_once(
    view: SituationView,
    hand: Set<Card>,
    later: Seq<DealNotify<Set<Card>>>,
    again: Set<Card>,
)
    requires
        view.wf(),
        view.dummy_hand is None,
    ensures
        view.apply(DealNotify::DummyPlacedHand(hand)) == (
            SituationView { dummy_hand: Some(hand), ..view },
            Ok::<(), BotError>(()),
        ),
        apply_all(view.apply(DealNotify::DummyPlacedHand(hand)).0, later).apply(
            DealNotify::DummyPlacedHand(again),
        ) == (
            apply_all(view.apply(DealNotify::DummyPlacedHand(hand)).0, later),
            Err::<(), BotError>(BotError::Protocol(ProtocolViolation::DuplicateReveal)),
        ),
{
    lemma_apply_all_keeps(view.apply(DealNotify::DummyPlacedHand(hand)).0, later);
}

/// As long as no hand was placed on the table, none lies there: the first
/// reveal of a deal is accepted.
pub proof fn lemma_first_reveal_is_accepted(
    view: SituationView,
    earlier: Seq<DealNotify<Set<Card>>>,
    hand: Set<Card>,
)
    requires
        view.dummy_hand is None,
        forall|i: int| 0 <= i < earlier.len() ==> !(earlier[i] is DummyPlacedHand),
    ensures
        apply_all(view, earlier).dummy_hand is None,
        apply_all(view, earlier).apply(DealNotify::DummyPlacedHand(hand)).1 is Ok,
    decreases earlier.len(),
{
    if earlier.len() > 0 {
        lemma_first_reveal_is_accepted(view, earlier.drop_last(), hand);
    }
}

/// A player's view of the deal being played.
#[derive(Clone, Copy, Debug, PartialEq, Eq)]
pub struct Situation {
    side: Side,
    hand: Hand,
    declarer: Side,
    trump: Trump,
    dummy_hand: Option<Hand>,
    trick: Trick,
    terminal: bool,
}

impl View for Situation {
    type V = SituationView;

    closed spec fn view(&self) -> SituationView {
        SituationView {
            side: self.side,
            hand: self.hand@,
            declarer: self.declarer,
            trump: self.trump,
            dummy_hand: match self.dummy_hand {
                Some(hand) => Some(hand@),
                None => None,
            },
            trick: self.trick@,
            terminal: self.terminal,
        }
    }
}

impl Situation {
    #[verifier::type_invariant]
    spec fn well_formed(self) -> bool {
        self@.wf()
    }

    /// The view of the player at `side`, holding `hand`, at the start of the
    /// play of a contract declared by `declarer` with trump `trump`.
    pub fn new(side: Side, hand: Hand, declarer: Side, trump: Trump) -> (view: Situation)
        ensures
            view@ == SituationView::initial(side, hand@, declarer, trump),
            view@.wf(),
    {
        Situation {
            side,
            hand,
            declarer,
            trump,
            dummy_hand: None,
            trick: Trick::new(declarer.next()),
            terminal: false,
        }
    }

    /// The side of the player.
    pub fn side(&self) -> (side: Side)
        ensures
            side == self@.side,
    {
        self.side
    }

    /// The side that declared the contract.
    pub fn declarer(&self) -> (side: Side)
        ensures
            side == self@.declarer,
    {
        self.declarer
    }

    /// The side of the dummy.
    pub fn dummy_side(&self) -> (side: Side)
        ensures
            side == self@.dummy_side(),
    {
        self.declarer.partner()
    }

    /// The trump of the contract.
    pub fn trump(&self) -> (trump: Trump)
        ensures
            trump == self@.trump,
    {
        self.trump
    }

    /// The hand of the player.
    pub fn hand(&self) -> (hand: Hand)
        ensures
            hand@ == self@.hand,
    {
        self.hand
    }

    /// The hand of the dummy, once it lies on the table.
    pub fn dummy_hand(&self) -> (hand: Option<Hand>)
        ensures
            hand is Some <==> self@.dummy_hand is Some,
            hand matches Some(h) ==> h@ == self@.dummy_hand->0,
    {
        self.dummy_hand
    }

    /// The hand of `side`, as far as the player sees it.
    pub fn hand_of(&self, side: Side) -> (hand: Option<Hand>)
        ensures
            hand is Some <==> self@.hand_of(side) is Some,
            hand matches Some(h) ==> h@ == self@.hand_of(side)->0,
    {
        if side == self.side {
            Some(self.hand)
        } else if side == self.declarer.partner() {
            self.dummy_hand
        } else {
            None
        }
    }

    /// The cards of the player's hand, by ascending deck index.
    pub fn cards_hand(&self) -> (cards: Vec<Card>)
        ensures
            crate::hand::is_listing(cards@, self@.hand),
    {
        self.hand.cards()
    }

    /// The cards of the dummy's hand, by ascending deck index; none while the
    /// hand is not on the table.
    pub fn cards_dummy(&self) -> (cards: Vec<Card>)
        ensures
            self@.dummy_hand matches Some(hand) ==> crate::hand::is_listing(cards@, hand),
            self@.dummy_hand is None ==> cards@ == Seq::<Card>::empty(),
    {
        match self.dummy_hand {
            Some(hand) => hand.cards(),
            None => Vec::new(),
        }
    }

    /// The open trick.
    pub fn trick(&self) -> (trick: Trick)
        ensures
            trick@ == self@.trick,
            self@.wf(),
    {
        proof {
            use_type_invariant(self);
        }
        self.trick
    }

    /// The suit that was led to the open trick, if a card was played to it.
    pub fn called_suit(&self) -> (suit: Option<Suit>)
        ensures
            suit == self@.trick.called_suit(),
    {
        self.trick.called_suit()
    }

    /// Whether the deal is over for the player.
    pub fn is_terminal(&self) -> (terminal: bool)
        ensures
            terminal == self@.terminal,
    {
        self.terminal
    }

    /// The side whose turn it is; nobody's once the deal is over.
    pub fn current_turn(&self) -> (turn: Option<Side>)
        ensures
            turn == self@.current_turn(),
            turn is None <==> self@.terminal,
            self@.wf(),
    {
        proof {
            use_type_invariant(self);
        }
        if self.terminal {
            None
        } else {
            Some(self.trick.current_side())
        }
    }

    /// Marks the deal as over. There is no way back.
    pub fn close(&mut self)
        ensures
            final(self)@ == old(self)@.closed(),
            final(self)@.wf(),
    {
        proof {
            use_type_invariant(&*self);
        }
        self.terminal = true;
    }

    /// Records that `side` played `card`.
    pub fn card_played(&mut self, side: Side, card: Card) -> (result: Result<(), BotError>)
        ensures
            (final(self)@, result) == old(self)@.card_played(side, card),
            old(self)@.wf(),
            final(self)@.wf(),
    {
        proof {
            use_type_invariant(&*self);
        }
        let absent = match self.hand_of(side) {
            Some(hand) => !hand.contains(card),
            None => false,
        };
        if absent {
            return Err(BotError::LocalState(LocalStateError::CardNotFound));
        }
        let mut trick = self.trick;
        trick.play(self.trump, side, card);
        if side == self.side {
            let mut rest = self.hand;
            rest.remove(card);
            self.hand = rest;
        } else if side == self.declarer.partner() {
            match self.dummy_hand {
                Some(hand) => {
                    let mut rest = hand;
                    rest.remove(card);
                    self.dummy_hand = Some(rest);
                },
                None => {},
            }
        }
        self.trick = trick;
        Ok(())
    }

    /// Places the dummy's hand on the table. Fails if it lies there already.
    pub fn set_dummy(&mut self, hand: Hand) -> (result: Result<(), BotError>)
        ensures
            (final(self)@, result) == old(self)@.dummy_placed(hand@),
            old(self)@.wf(),
            final(self)@.wf(),
    {
        proof {
            use_type_invariant(&*self);
        }
        if self.dummy_hand.is_some() {
            return Err(BotError::Protocol(ProtocolViolation::DuplicateReveal));
        }
        self.dummy_hand = Some(hand);
        Ok(())
    }

    /// Updates the view by a notification about the deal.
    pub fn apply(&mut self, notify: DealNotify) -> (result: Result<(), BotError>)
        ensures
            (final(self)@, result) == old(self)@.apply(notify@),
            old(self)@.wf(),
            final(self)@.wf(),
    {
        proof {
            use_type_invariant(&*self);
        }
        match notify {
            DealNotify::CardPlayed(side, card) => self.card_played(side, card),
            DealNotify::DummyPlacedHand(hand) => self.set_dummy(hand),
            DealNotify::DealClosed => {
                self.close();
                Ok(())
            },
            DealNotify::TrickClosed => Ok(()),
            DealNotify::YourMove => Ok(()),
            DealNotify::CardAccepted(_) => Ok(()),
            DealNotify::CardDeclined(_) => Ok(()),
        }
    }
}

} // verus!
