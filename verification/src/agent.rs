//! The protocol loop of a player, as a state machine.
//!
//! The player reacts to each message of the game service: it updates its view
//! of the deal, plays a card when it is asked to, and ends the session when
//! the deal is over or the two sides disagree. The state machine decides what
//! is sent; sending and receiving are left to the caller.

use vstd::prelude::*;

use crate::cards::Card;
use crate::error::BotError;
use crate::error::Mismatch;
use crate::error::ProtocolViolation;
use crate::error::TransportError;
use crate::hand::Hand;
use crate::protocol::ClientMessage;
use crate::protocol::DealAction;
use crate::protocol::DealNotify;
use crate::protocol::ServerMessage;
use crate::error::SelectionError;
use crate::selector::acting_hand;
use crate::selector::candidates;
use crate::selector::draw_from;
use crate::selector::lemma_selection_among;
use crate::selector::select_from_at;
use crate::selector::selection_among;
use crate::side::Side;
use crate::situation::lemma_apply_keeps;
use crate::situation::Situation;
use crate::situation::SituationView;

verus! {

/// The part that a player has in the play of a contract.
#[derive(Clone, Copy, Debug, PartialEq, Eq, Structural, Hash)]
pub enum Role {
    /// Plays its own hand and, when it is the partner's turn, the dummy's hand.
    Declarer,
    /// Plays its own hand.
    Defender,
    /// Places its hand on the table and plays no card.
    DummyProxy,
}

/// Where a session stands.
#[derive(Clone, Copy, Debug, PartialEq, Eq)]
pub enum Phase {
    /// The player has not yet announced that it is ready.
    AwaitingReady,
    /// The player takes part in the deal.
    Running,
    /// The session is over, with this outcome.
    Terminated(Result<(), BotError>),
}

/// What a player is: its role, its view of the deal, and where its session stands.
pub struct AgentView {
    pub role: Role,
    pub view: SituationView,
    pub phase: Phase,
    /// A card was submitted, and the game service has not accepted it yet.
    pub ack_pending: bool,
}

/// The messages of `out` as they are seen in contracts.
pub open spec fn sent(out: Seq<ClientMessage>) -> Seq<ClientMessage<Set<Card>>> {
    out.map_values(|message: ClientMessage| message@)
}

/// The outcome of a decision as it is seen in contracts.
pub open spec fn decided(result: Result<DealAction, BotError>) -> Result<
    DealAction<Set<Card>>,
    BotError,
> {
    match result {
        Ok(action) => Ok(action@),
        Err(error) => Err(error),
    }
}

impl AgentView {
    /// The player at the start of its session.
    pub open spec fn initial(role: Role, view: SituationView) -> AgentView {
        AgentView { role, view, phase: Phase::AwaitingReady, ack_pending: false }
    }

    /// Whether the player plays the cards of `side`: those of its own side, and
    /// the declarer those of its partner too.
    pub open spec fn controls(self, side: Side) -> bool {
        side == self.view.side || (self.role == Role::Declarer && side
            == self.view.side.spec_partner())
    }

    /// The hand that the player addresses when it plays for `side`: its own
    /// hand for its own side and, as declarer, the dummy's hand for its
    /// partner's side, once that hand lies on the table. It addresses no other
    /// hand: such a hand counts as empty.
    pub open spec fn addressed_hand(self, side: Side) -> Set<Card> {
        if side == self.view.side {
            self.view.hand
        } else if self.role == Role::Declarer && side == self.view.side.spec_partner() {
            match self.view.dummy_hand {
                Some(hand) => hand,
                None => Set::empty(),
            }
        } else {
            Set::empty()
        }
    }

    /// What stands against the player acting now, if anything: the deal is
    /// over, or it is the turn of a side that the player does not control.
    pub open spec fn turn_violation(self) -> Option<ProtocolViolation> {
        match self.view.current_turn() {
            None => Some(ProtocolViolation::DealFinished),
            Some(turn) => if self.controls(turn) {
                None
            } else {
                Some(
                    ProtocolViolation::DifferentSideExpected(
                        Mismatch { expected: turn, found: self.view.side },
                    ),
                )
            },
        }
    }

    /// What the player does when it is asked to act and the draw among its
    /// choices gives `pick`. The dummy places its hand on the table. The
    /// others play a card from the hand that they address for the side whose
    /// turn it is, provided that they control that side.
    pub open spec fn action(self, pick: int) -> Result<DealAction<Set<Card>>, BotError> {
        if self.role == Role::DummyProxy {
            Ok(DealAction::ShowHand(self.view.hand))
        } else {
            match self.turn_violation() {
                Some(violation) => Err(BotError::Protocol(violation)),
                None => match selection_among(
                    self.addressed_hand(self.view.trick.turn()),
                    self.view.trick.called_suit(),
                    pick,
                ) {
                    Ok(card) => Ok(DealAction::PlayCard(card)),
                    Err(error) => Err(BotError::Selection(error)),
                },
            }
        }
    }

    /// The player once its session has ended with `outcome`.
    pub open spec fn stopped(self, outcome: Result<(), BotError>) -> AgentView {
        AgentView { phase: Phase::Terminated(outcome), view: self.view.closed(), ..self }
    }

    /// The player announces that it is ready, and takes part in the deal from then on.
    pub open spec fn start(self) -> (AgentView, Seq<ClientMessage<Set<Card>>>) {
        if self.phase == Phase::AwaitingReady {
            (AgentView { phase: Phase::Running, ..self }, seq![ClientMessage::Ready])
        } else {
            (self, Seq::empty())
        }
    }

    /// A message could not be sent or received. That is always fatal: it ends
    /// the session of a player that takes part in the deal, and it turns a good
    /// end into a failed one, since what the player sent last did not arrive.
    /// A session that has failed keeps its first error, and a player that is
    /// not yet ready has sent and received nothing.
    pub open spec fn transport_failed(self, error: TransportError) -> AgentView {
        match self.phase {
            Phase::Running => self.stopped(Err(BotError::Transport(error))),
            Phase::Terminated(Ok(_)) => self.stopped(Err(BotError::Transport(error))),
            Phase::Terminated(Err(_)) => self,
            Phase::AwaitingReady => self,
        }
    }

    /// The player is asked to act.
    pub open spec fn your_move(self, pick: int) -> (AgentView, Seq<ClientMessage<Set<Card>>>) {
        match self.action(pick) {
            Ok(action) => (
                AgentView { ack_pending: self.ack_pending || action is PlayCard, ..self },
                seq![ClientMessage::Dealing(action)],
            ),
            Err(error) => (
                self.stopped(Err(error)),
                if error is Protocol {
                    seq![
                        ClientMessage::Dealing(DealAction::NotMyTurn),
                        ClientMessage::Error(error),
                        ClientMessage::Quit,
                    ]
                } else {
                    seq![ClientMessage::Error(error), ClientMessage::Quit]
                },
            ),
        }
    }

    /// The card that the player submitted was accepted.
    pub open spec fn card_accepted(self) -> (AgentView, Seq<ClientMessage<Set<Card>>>) {
        match self.turn_violation() {
            None => (AgentView { ack_pending: false, ..self }, Seq::empty()),
            Some(violation) => (
                self.stopped(Err(BotError::Protocol(violation))),
                seq![ClientMessage::Error(BotError::Protocol(violation)), ClientMessage::Quit],
            ),
        }
    }

    /// The player is told about the deal.
    pub open spec fn notified(self, notify: DealNotify<Set<Card>>, pick: int) -> (
        AgentView,
        Seq<ClientMessage<Set<Card>>>,
    ) {
        match notify {
            DealNotify::CardPlayed(side, card) => {
                let (view, result) = self.view.card_played(side, card);
                (
                    AgentView { view, ..self },
                    match result {
                        Ok(_) => Seq::empty(),
                        Err(error) => seq![ClientMessage::Error(error)],
                    },
                )
            },
            DealNotify::TrickClosed => (self, Seq::empty()),
            DealNotify::YourMove => self.your_move(pick),
            DealNotify::CardAccepted(_) => self.card_accepted(),
            DealNotify::CardDeclined(card) => (
                self.stopped(Err(BotError::Protocol(ProtocolViolation::IllegalOrDuplicateCard(card)))),
                seq![ClientMessage::Quit],
            ),
            DealNotify::DummyPlacedHand(hand) => {
                let (view, result) = self.view.dummy_placed(hand);
                match result {
                    Ok(_) => (AgentView { view, ..self }, Seq::empty()),
                    Err(error) => (
                        self.stopped(Err(error)),
                        seq![ClientMessage::Error(error), ClientMessage::Quit],
                    ),
                }
            },
            DealNotify::DealClosed => (self.stopped(Ok(())), seq![ClientMessage::Quit]),
        }
    }

    /// The player and what it sends after it received `message`, where the
    /// draw among its choices gives `pick`. A player that does not take part
    /// in the deal, not yet or no longer, does not react.
    pub open spec fn react(self, message: ServerMessage<Set<Card>>, pick: int) -> (
        AgentView,
        Seq<ClientMessage<Set<Card>>>,
    ) {
        if self.phase != Phase::Running {
            (self, Seq::empty())
        } else {
            match message {
                ServerMessage::Deal(notify) => self.notified(notify, pick),
                ServerMessage::Bidding => (self, Seq::empty()),
                ServerMessage::PlayerLeft(_) => (self, Seq::empty()),
                ServerMessage::DealInfo => (self, Seq::empty()),
                ServerMessage::BiddingInfo => (self, Seq::empty()),
                ServerMessage::ServerNotReady => (self, Seq::empty()),
                ServerMessage::GameOver => (self.stopped(Ok(())), Seq::empty()),
                ServerMessage::Error(error) => (self.stopped(Err(error)), Seq::empty()),
                ServerMessage::ServerStopping => (
                    self.stopped(Err(BotError::ServerDead)),
                    Seq::empty(),
                ),
            }
        }
    }
}

impl AgentView {
    /// The open trick is well formed, and a player whose session is over
    /// holds the deal to be over.
    pub open spec fn wf(self) -> bool {
        &&& self.view.wf()
        &&& self.phase is Terminated ==> self.view.terminal
    }
}

/// A session that is over stays over: no message moves the player any more,
/// and it sends nothing. Only a failure of the channel still counts: it turns
/// a good end into a failed one, and leaves a failed one as it is.
pub proof fn lemma_terminated_is_final(
    agent: AgentView,
    message: ServerMessage<Set<Card>>,
    pick: int,
    error: TransportError,
)
    requires
        agent.phase is Terminated,
    ensures
        agent.react(message, pick) == (agent, Seq::<ClientMessage<Set<Card>>>::empty()),
        agent.start() == (agent, Seq::<ClientMessage<Set<Card>>>::empty()),
        agent.transport_failed(error).phase is Terminated,
        agent.phase matches Phase::Terminated(Ok(_)) ==> agent.transport_failed(error).phase
            == Phase::Terminated(Err(BotError::Transport(error))),
        agent.phase matches Phase::Terminated(Err(_)) ==> agent.transport_failed(error) == agent,
{
}

/// A failed send is always fatal. Whatever a player that takes part in the
/// deal received, if what it sends in return cannot be sent, its session ends
/// in an error: in the failure of the channel, unless the reaction itself had
/// ended the session in an error already. So the end of the deal, after which
/// the player leaves, ends the session well only if the leave was sent.
pub proof fn lemma_failed_send_is_fatal(
    agent: AgentView,
    message: ServerMessage<Set<Card>>,
    pick: int,
    error: TransportError,
)
    requires
        agent.phase == Phase::Running,
    ensures
        agent.react(message, pick).0.transport_failed(error).phase matches Phase::Terminated(
            Err(_),
        ),
        !(agent.react(message, pick).0.phase matches Phase::Terminated(Err(_))) ==> agent.react(
            message,
            pick,
        ).0.transport_failed(error).phase == Phase::Terminated(
            Err(BotError::Transport(error)),
        ),
        agent.react(ServerMessage::Deal(DealNotify::DealClosed), pick).0.transport_failed(
            error,
        ).phase == Phase::Terminated(Err(BotError::Transport(error))),
        agent.start().0.transport_failed(error).phase matches Phase::Terminated(Err(_)),
{
    lemma_react_phase(agent, message, pick);
}

/// A reaction leaves a player that takes part in the deal in the deal, or
/// ends its session.
proof fn lemma_react_phase(agent: AgentView, message: ServerMessage<Set<Card>>, pick: int)
    requires
        agent.phase == Phase::Running,
    ensures
        agent.react(message, pick).0.phase == Phase::Running || agent.react(
            message,
            pick,
        ).0.phase is Terminated,
{
}

/// A session ends only while the player takes part in the deal: before the
/// player is ready nothing but the start moves it, and the start leads into
/// the deal.
pub proof fn lemma_ends_only_from_running(
    agent: AgentView,
    message: ServerMessage<Set<Card>>,
    pick: int,
    error: TransportError,
)
    requires
        agent.phase == Phase::AwaitingReady,
    ensures
        agent.react(message, pick) == (agent, Seq::<ClientMessage<Set<Card>>>::empty()),
        agent.transport_failed(error) == agent,
        agent.start() == (
            AgentView { phase: Phase::Running, ..agent },
            seq![ClientMessage::<Set<Card>>::Ready],
        ),
{
}

/// Whatever happens, the player keeps its role and its side, never goes back
/// to the start, and holds the deal to be over once its session is over. It
/// leaves exactly when its session ends in the same step, and then this is the
/// last thing it sends.
pub proof fn lemma_react_keeps(agent: AgentView, message: ServerMessage<Set<Card>>, pick: int)
    requires
        agent.wf(),
    ensures
        agent.react(message, pick).0.wf(),
        agent.react(message, pick).0.role == agent.role,
        agent.react(message, pick).0.view.side == agent.view.side,
        agent.react(message, pick).0.phase == Phase::AwaitingReady ==> agent.phase
            == Phase::AwaitingReady,
        agent.react(message, pick).1.contains(ClientMessage::Quit) ==> agent.phase
            == Phase::Running && agent.react(message, pick).0.phase is Terminated
            && agent.react(message, pick).1.last() == ClientMessage::<Set<Card>>::Quit,
        !agent.react(message, pick).1.contains(ClientMessage::Ready),
{
    let (after, out) = agent.react(message, pick);
    if agent.phase == Phase::Running {
        match message {
            ServerMessage::Deal(notify) => {
                lemma_apply_keeps(agent.view, notify);
                match notify {
                    DealNotify::YourMove => {
                        match agent.action(pick) {
                            Ok(action) => {
                                assert(out =~= seq![ClientMessage::Dealing(action)]);
                            },
                            Err(error) => {},
                        }
                    },
                    _ => {},
                }
            },
            _ => {},
        }
    }
}

/// The same for the start and for a failure of the channel.
pub proof fn lemma_start_keeps(agent: AgentView, error: TransportError)
    requires
        agent.wf(),
    ensures
        agent.start().0.wf(),
        agent.start().0.role == agent.role,
        agent.start().0.view == agent.view,
        agent.transport_failed(error).wf(),
        agent.transport_failed(error).role == agent.role,
        agent.phase == Phase::Running ==> agent.transport_failed(error).phase == Phase::Terminated(
            Err(BotError::Transport(error)),
        ),
{
}

/// The hand that a player addresses is the hand that its view holds for the
/// side: for its own side always, and for the declarer's partner whenever the
/// view names the player as declarer.
pub proof fn lemma_addressed_hand(agent: AgentView, side: Side)
    requires
        agent.controls(side),
    ensures
        side == agent.view.side ==> agent.addressed_hand(side) == acting_hand(agent.view, side),
        agent.view.declarer == agent.view.side ==> agent.addressed_hand(side) == acting_hand(
            agent.view,
            side,
        ),
        agent.role == Role::Declarer && side == agent.view.side.spec_partner()
            ==> agent.addressed_hand(side) == match agent.view.dummy_hand {
            Some(hand) => hand,
            None => Set::<Card>::empty(),
        },
{
}

/// A player that is asked to act while it is the turn of a side that it
/// controls plays a card: one of the hand that it addresses for that side, of
/// the suit that was led if the hand holds that suit. It sends that card and
/// nothing else, and waits for the card to be accepted. A declarer or defender
/// that addresses an empty hand ends its session instead.
pub proof fn lemma_your_move_plays_a_choice(agent: AgentView, pick: int)
    requires
        agent.phase == Phase::Running,
        agent.role != Role::DummyProxy,
        agent.view.current_turn() matches Some(turn) && agent.controls(turn),
    ensures
        agent.addressed_hand(agent.view.trick.turn()) != Set::<Card>::empty() ==> {
            let (after, out) = agent.react(ServerMessage::Deal(DealNotify::YourMove), pick);
            &&& out.len() == 1
            &&& out[0] matches ClientMessage::Dealing(DealAction::PlayCard(card))
            &&& candidates(
                agent.addressed_hand(agent.view.trick.turn()),
                agent.view.trick.called_suit(),
            ).contains(card)
            &&& agent.addressed_hand(agent.view.trick.turn()).contains(card)
            &&& after == AgentView { ack_pending: true, ..agent }
        },
        agent.addressed_hand(agent.view.trick.turn()) == Set::<Card>::empty() ==> agent.react(
            ServerMessage::Deal(DealNotify::YourMove),
            pick,
        ) == (
            agent.stopped(Err(BotError::Selection(SelectionError::EmptyHand))),
            seq![
                ClientMessage::<Set<Card>>::Error(BotError::Selection(SelectionError::EmptyHand)),
                ClientMessage::<Set<Card>>::Quit,
            ],
        ),
{
    lemma_selection_among(
        agent.addressed_hand(agent.view.trick.turn()),
        agent.view.trick.called_suit(),
        pick,
    );
}

/// A player that is asked to act out of turn declines, reports the
/// violation, leaves, and ends its session with the violation. The dummy is
/// never out of turn: it places its hand on the table whenever it is asked.
pub proof fn lemma_your_move_out_of_turn(agent: AgentView, pick: int)
    requires
        agent.phase == Phase::Running,
    ensures
        agent.role != Role::DummyProxy ==> (agent.turn_violation() matches Some(violation)
            ==> agent.react(ServerMessage::Deal(DealNotify::YourMove), pick) == (
            agent.stopped(Err(BotError::Protocol(violation))),
            seq![
                ClientMessage::<Set<Card>>::Dealing(DealAction::NotMyTurn),
                ClientMessage::<Set<Card>>::Error(BotError::Protocol(violation)),
                ClientMessage::<Set<Card>>::Quit,
            ],
        )),
        agent.role == Role::DummyProxy ==> agent.react(
            ServerMessage::Deal(DealNotify::YourMove),
            pick,
        ) == (
            agent,
            seq![ClientMessage::<Set<Card>>::Dealing(DealAction::ShowHand(agent.view.hand))],
        ),
{
}

/// A declined card ends the session of any player that takes part in the
/// deal: the player leaves, sends nothing else, and the outcome names the card.
pub proof fn lemma_declined_card_ends_session(
    agent: AgentView,
    card: Card,
    pick: int,
    later: ServerMessage<Set<Card>>,
    later_pick: int,
)
    requires
        agent.phase == Phase::Running,
    ensures
        agent.react(ServerMessage::Deal(DealNotify::CardDeclined(card)), pick) == (
            agent.stopped(
                Err(BotError::Protocol(ProtocolViolation::IllegalOrDuplicateCard(card))),
            ),
            seq![ClientMessage::<Set<Card>>::Quit],
        ),
        agent.react(ServerMessage::Deal(DealNotify::CardDeclined(card)), pick).0.react(
            later,
            later_pick,
        ).1 == Seq::<ClientMessage<Set<Card>>>::empty(),
{
}

/// The end of the deal ends the session well, whether or not a card waits to
/// be accepted: the player leaves and sends nothing else.
pub proof fn lemma_deal_closed_ends_session(agent: AgentView, pick: int)
    requires
        agent.phase == Phase::Running,
    ensures
        agent.react(ServerMessage::Deal(DealNotify::DealClosed), pick) == (
            agent.stopped(Ok(())),
            seq![ClientMessage::<Set<Card>>::Quit],
        ),
        agent.react(ServerMessage::Deal(DealNotify::DealClosed), pick).0.phase
            == Phase::Terminated(Ok(())),
{
}

/// When the game service stops, is done, or reports an error, the session
/// ends and the player sends nothing, not even that it leaves.
pub proof fn lemma_service_ends_session(agent: AgentView, error: BotError, pick: int)
    requires
        agent.phase == Phase::Running,
    ensures
        agent.react(ServerMessage::ServerStopping, pick) == (
            agent.stopped(Err(BotError::ServerDead)),
            Seq::<ClientMessage<Set<Card>>>::empty(),
        ),
        agent.react(ServerMessage::GameOver, pick) == (
            agent.stopped(Ok(())),
            Seq::<ClientMessage<Set<Card>>>::empty(),
        ),
        agent.react(ServerMessage::Error(error), pick) == (
            agent.stopped(Err(error)),
            Seq::<ClientMessage<Set<Card>>>::empty(),
        ),
{
}

/// A player: a declarer, a defender or a dummy, with its view of the deal.
#[derive(Clone, Copy, Debug, PartialEq, Eq)]
pub struct Agent {
    role: Role,
    view: Situation,
    phase: Phase,
    ack_pending: bool,
}

impl View for Agent {
    type V = AgentView;

    closed spec fn view(&self) -> AgentView {
        AgentView {
            role: self.role,
            view: self.view@,
            phase: self.phase,
            ack_pending: self.ack_pending,
        }
    }
}

impl Agent {
    /// A player in the role `role` with the view `situation`, before its session.
    pub fn new(role: Role, situation: Situation) -> (agent: Agent)
        ensures
            agent@ == AgentView::initial(role, situation@),
    {
        Agent { role, view: situation, phase: Phase::AwaitingReady, ack_pending: false }
    }

    /// The role of the player.
    pub fn role(&self) -> (role: Role)
        ensures
            role == self@.role,
    {
        self.role
    }

    /// The player's view of the deal.
    pub fn situation(&self) -> (situation: Situation)
        ensures
            situation@ == self@.view,
    {
        self.view
    }

    /// The player's view of the deal, to be changed in place: what the caller
    /// makes of the view is the player's view afterwards, and nothing else of
    /// the player changes.
    pub fn situation_mut(&mut self) -> (situation: &mut Situation)
        ensures
            situation@ == old(self)@.view,
            final(self)@ == (AgentView { view: final(situation)@, ..old(self)@ }),
    {
        &mut self.view
    }

    /// Where the session stands.
    pub fn phase(&self) -> (phase: Phase)
        ensures
            phase == self@.phase,
    {
        self.phase
    }

    /// The outcome of the session, once it is over.
    pub fn outcome(&self) -> (outcome: Option<Result<(), BotError>>)
        ensures
            outcome == match self@.phase {
                Phase::Terminated(result) => Some(result),
                _ => None,
            },
    {
        match self.phase {
            Phase::Terminated(result) => Some(result),
            _ => None,
        }
    }

    /// Whether a card was submitted that the game service has not accepted yet.
    pub fn ack_pending(&self) -> (pending: bool)
        ensures
            pending == self@.ack_pending,
    {
        self.ack_pending
    }

    /// The side of the player.
    pub fn side(&self) -> (side: Side)
        ensures
            side == self@.view.side,
    {
        self.view.side()
    }

    /// The side of the player's partner.
    pub fn partner_side(&self) -> (side: Side)
        ensures
            side == self@.view.side.spec_partner(),
    {
        self.view.side().partner()
    }

    /// The side whose turn it is; nobody's once the deal is over.
    pub fn current_side(&self) -> (side: Option<Side>)
        ensures
            side == self@.view.current_turn(),
    {
        self.view.current_turn()
    }

    /// Whether the player plays the cards of `side`.
    pub fn controls(&self, side: Side) -> (controls: bool)
        ensures
            controls == self@.controls(side),
    {
        side == self.view.side() || (self.role == Role::Declarer && side
            == self.view.side().partner())
    }

    /// What stands against the player acting now, if anything.
    fn turn_violation(&self) -> (violation: Option<ProtocolViolation>)
        ensures
            violation == self@.turn_violation(),
    {
        match self.view.current_turn() {
            None => Some(ProtocolViolation::DealFinished),
            Some(turn) => if self.controls(turn) {
                None
            } else {
                Some(
                    ProtocolViolation::DifferentSideExpected(
                        Mismatch { expected: turn, found: self.view.side() },
                    ),
                )
            },
        }
    }

    /// The hand that the player addresses when it plays for `side`.
    pub fn addressed_hand(&self, side: Side) -> (hand: Hand)
        ensures
            hand@ == self@.addressed_hand(side),
    {
        if side == self.view.side() {
            self.view.hand()
        } else if self.role == Role::Declarer && side == self.view.side().partner() {
            match self.view.dummy_hand() {
                Some(hand) => hand,
                None => Hand::new(),
            }
        } else {
            Hand::new()
        }
    }

    /// What the player does when it is asked to act, given the outcome `pick`
    /// of the draw among its choices.
    pub fn select_action_at(&self, pick: usize) -> (result: Result<DealAction, BotError>)
        ensures
            decided(result) == self@.action(pick as int),
    {
        if self.role == Role::DummyProxy {
            return Ok(DealAction::ShowHand(self.view.hand()));
        }
        match self.turn_violation() {
            Some(violation) => Err(BotError::Protocol(violation)),
            None => match self.view.current_turn() {
                Some(turn) => match select_from_at(
                    &self.addressed_hand(turn),
                    self.view.called_suit(),
                    pick,
                ) {
                    Ok(card) => Ok(DealAction::PlayCard(card)),
                    Err(error) => Err(BotError::Selection(error)),
                },
                None => Err(BotError::Protocol(ProtocolViolation::DealFinished)),
            },
        }
    }

    /// Draws at random among the cards that the player may play now.
    fn draw(&self) -> (pick: usize)
        ensures
            self@.view.current_turn() is None ==> pick == 0,
            self@.view.current_turn() matches Some(turn) ==> pick < candidates(
                self@.addressed_hand(turn),
                self@.view.trick.called_suit(),
            ).len() || (candidates(
                self@.addressed_hand(turn),
                self@.view.trick.called_suit(),
            ).len() == 0 && pick == 0),
    {
        match self.view.current_turn() {
            Some(turn) => draw_from(&self.addressed_hand(turn), self.view.called_suit()),
            None => 0,
        }
    }

    /// What the player does when it is asked to act: the dummy places its
    /// hand on the table, the others play a card chosen at random among those
    /// that the side to play may play.
    pub fn select_action(&self) -> (result: Result<DealAction, BotError>)
        ensures
            exists|pick: int| #[trigger] self@.action(pick) == decided(result),
    {
        let pick = self.draw();
        let result = self.select_action_at(pick);
        assert(self@.action(pick as int) == decided(result));
        result
    }

    /// Ends the session with `outcome`.
    fn stop(&mut self, outcome: Result<(), BotError>)
        ensures
            final(self)@ == old(self)@.stopped(outcome),
    {
        self.view.close();
        self.phase = Phase::Terminated(outcome);
    }

    /// Opens the session. Returns the messages to send: the announcement that
    /// the player is ready.
    pub fn start(&mut self) -> (out: Vec<ClientMessage>)
        ensures
            (final(self)@, sent(out@)) == old(self)@.start(),
    {
        let mut out: Vec<ClientMessage> = Vec::new();
        match self.phase {
            Phase::AwaitingReady => {
                self.phase = Phase::Running;
                out.push(ClientMessage::Ready);
                assert(sent(out@) =~= seq![ClientMessage::Ready]);
            },
            _ => {
                assert(sent(out@) =~= Seq::empty());
            },
        }
        out
    }

    /// Tells the player that a message could not be sent or received: the
    /// session ends in this failure, unless it has failed already.
    pub fn transport_failed(&mut self, error: TransportError)
        ensures
            final(self)@ == old(self)@.transport_failed(error),
    {
        match self.phase {
            Phase::Running => self.stop(Err(BotError::Transport(error))),
            Phase::Terminated(Ok(_)) => self.stop(Err(BotError::Transport(error))),
            Phase::Terminated(Err(_)) => {},
            Phase::AwaitingReady => {},
        }
    }

    /// Reacts to the request to act.
    fn your_move(&mut self, pick: usize) -> (out: Vec<ClientMessage>)
        ensures
            (final(self)@, sent(out@)) == old(self)@.your_move(pick as int),
    {
        let mut out: Vec<ClientMessage> = Vec::new();
        match self.select_action_at(pick) {
            Ok(action) => {
                match action {
                    DealAction::PlayCard(_) => {
                        self.ack_pending = true;
                    },
                    _ => {},
                }
                out.push(ClientMessage::Dealing(action));
                assert(sent(out@) =~= seq![ClientMessage::Dealing(action@)]);
            },
            Err(error) => {
                self.stop(Err(error));
                match error {
                    BotError::Protocol(_) => {
                        out.push(ClientMessage::Dealing(DealAction::NotMyTurn));
                        out.push(ClientMessage::Error(error));
                        out.push(ClientMessage::Quit);
                        assert(sent(out@) =~= seq![
                            ClientMessage::Dealing(DealAction::NotMyTurn),
                            ClientMessage::Error(error),
                            ClientMessage::Quit,
                        ]);
                    },
                    _ => {
                        out.push(ClientMessage::Error(error));
                        out.push(ClientMessage::Quit);
                        assert(sent(out@) =~= seq![
                            ClientMessage::Error(error),
                            ClientMessage::Quit,
                        ]);
                    },
                }
            },
        }
        out
    }

    /// Reacts to the acceptance of a card.
    fn card_accepted(&mut self) -> (out: Vec<ClientMessage>)
        ensures
            (final(self)@, sent(out@)) == old(self)@.card_accepted(),
    {
        let mut out: Vec<ClientMessage> = Vec::new();
        match self.turn_violation() {
            None => {
                self.ack_pending = false;
                assert(sent(out@) =~= Seq::empty());
            },
            Some(violation) => {
                let error = BotError::Protocol(violation);
                self.stop(Err(error));
                out.push(ClientMessage::Error(error));
                out.push(ClientMessage::Quit);
                assert(sent(out@) =~= seq![ClientMessage::Error(error), ClientMessage::Quit]);
            },
        }
        out
    }

    /// Reacts to a notification about the deal.
    fn notified(&mut self, notify: DealNotify, pick: usize) -> (out: Vec<ClientMessage>)
        ensures
            (final(self)@, sent(out@)) == old(self)@.notified(notify@, pick as int),
    {
        match notify {
            DealNotify::CardPlayed(side, card) => {
                let mut out: Vec<ClientMessage> = Vec::new();
                match self.view.card_played(side, card) {
                    Ok(()) => {
                        assert(sent(out@) =~= Seq::empty());
                    },
                    Err(error) => {
                        out.push(ClientMessage::Error(error));
                        assert(sent(out@) =~= seq![ClientMessage::Error(error)]);
                    },
                }
                out
            },
            DealNotify::TrickClosed => {
                let out: Vec<ClientMessage> = Vec::new();
                assert(sent(out@) =~= Seq::empty());
                out
            },
            DealNotify::YourMove => self.your_move(pick),
            DealNotify::CardAccepted(_) => self.card_accepted(),
            DealNotify::CardDeclined(card) => {
                let mut out: Vec<ClientMessage> = Vec::new();
                self.stop(Err(BotError::Protocol(ProtocolViolation::IllegalOrDuplicateCard(card))));
                out.push(ClientMessage::Quit);
                assert(sent(out@) =~= seq![ClientMessage::Quit]);
                out
            },
            DealNotify::DummyPlacedHand(hand) => {
                let mut out: Vec<ClientMessage> = Vec::new();
                match self.view.set_dummy(hand) {
                    Ok(()) => {
                        assert(sent(out@) =~= Seq::empty());
                    },
                    Err(error) => {
                        self.stop(Err(error));
                        out.push(ClientMessage::Error(error));
                        out.push(ClientMessage::Quit);
                        assert(sent(out@) =~= seq![
                            ClientMessage::Error(error),
                            ClientMessage::Quit,
                        ]);
                    },
                }
                out
            },
            DealNotify::DealClosed => {
                let mut out: Vec<ClientMessage> = Vec::new();
                self.stop(Ok(()));
                out.push(ClientMessage::Quit);
                assert(sent(out@) =~= seq![ClientMessage::Quit]);
                out
            },
        }
    }

    /// Reacts to a message of the game service, given the outcome `pick` of
    /// the draw among the cards that may be played. Returns the messages to
    /// send, in order.
    pub fn react_at(&mut self, message: ServerMessage, pick: usize) -> (out: Vec<ClientMessage>)
        ensures
            (final(self)@, sent(out@)) == old(self)@.react(message@, pick as int),
    {
        match self.phase {
            Phase::Running => {},
            _ => {
                let out: Vec<ClientMessage> = Vec::new();
                assert(sent(out@) =~= Seq::empty());
                return out;
            },
        }
        match message {
            ServerMessage::Deal(notify) => {
                return self.notified(notify, pick);
            },
            ServerMessage::GameOver => {
                self.stop(Ok(()));
            },
            ServerMessage::Error(error) => {
                self.stop(Err(error));
            },
            ServerMessage::ServerStopping => {
                self.stop(Err(BotError::ServerDead));
            },
            ServerMessage::Bidding => {},
            ServerMessage::PlayerLeft(_) => {},
            ServerMessage::DealInfo => {},
            ServerMessage::BiddingInfo => {},
            ServerMessage::ServerNotReady => {},
        }
        let out: Vec<ClientMessage> = Vec::new();
        assert(sent(out@) =~= Seq::empty());
        out
    }

    /// Reacts to a message of the game service; where a card is to be played,
    /// it is chosen at random. Returns the messages to send, in order.
    pub fn react(&mut self, message: ServerMessage) -> (out: Vec<ClientMessage>)
        ensures
            exists|pick: int|
                #[trigger] old(self)@.react(message@, pick) == (final(self)@, sent(out@)),
    {
        let pick = self.draw();
        let out = self.react_at(message, pick);
        assert(old(self)@.react(message@, pick as int) == (self@, sent(out@)));
        out
    }
}

} // verus!
