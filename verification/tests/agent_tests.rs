use brydz_bots::agent::{Agent, Phase, Role};
use brydz_bots::cards::{Card, Figure, Suit, Trump};
use brydz_bots::error::{
    BotError, LocalStateError, Mismatch, ProtocolViolation, SelectionError, TransportError,
};
use brydz_bots::hand::Hand;
use brydz_bots::protocol::{ClientMessage, DealAction, DealNotify, ServerMessage};
use brydz_bots::side::Side;
use brydz_bots::situation::Situation;

fn card(figure: Figure, suit: Suit) -> Card {
    Card::new(figure, suit)
}

fn deal(notify: DealNotify) -> ServerMessage {
    ServerMessage::Deal(notify)
}

fn nothing() -> Vec<ClientMessage> {
    Vec::new()
}

/// A defender in West, left of the declarer in South, with three cards.
fn defender() -> Agent {
    let hand = Hand::from_cards(&[
        card(Figure::Seven, Suit::Clubs),
        card(Figure::Eight, Suit::Clubs),
        card(Figure::Two, Suit::Hearts),
    ]);
    Agent::new(Role::Defender, Situation::new(Side::West, hand, Side::South, Trump::NoTrump))
}

/// A declarer in South with two cards.
fn declarer() -> Agent {
    let hand = Hand::from_cards(&[card(Figure::Ace, Suit::Spades), card(Figure::Two, Suit::Hearts)]);
    Agent::new(Role::Declarer, Situation::new(Side::South, hand, Side::South, Trump::NoTrump))
}

/// The dummy in North, across the declarer in South.
fn dummy() -> Agent {
    let hand = Hand::from_cards(&[card(Figure::Queen, Suit::Spades), card(Figure::Three, Suit::Clubs)]);
    Agent::new(Role::DummyProxy, Situation::new(Side::North, hand, Side::South, Trump::NoTrump))
}

fn running(mut agent: Agent) -> Agent {
    assert_eq!(agent.start(), vec![ClientMessage::Ready]);
    assert_eq!(agent.phase(), Phase::Running);
    agent
}

#[test]
fn new_agent_awaits_ready() {
    let agent = defender();
    assert_eq!(agent.phase(), Phase::AwaitingReady);
    assert_eq!(agent.outcome(), None);
    assert_eq!(agent.role(), Role::Defender);
    assert_eq!(agent.side(), Side::West);
    assert_eq!(agent.partner_side(), Side::East);
    assert_eq!(agent.current_side(), Some(Side::West));
    assert!(!agent.ack_pending());
    assert_eq!(agent.situation().hand().len(), 3);
}

#[test]
fn start_announces_ready_once() {
    let mut agent = defender();
    assert_eq!(agent.start(), vec![ClientMessage::Ready]);
    assert_eq!(agent.phase(), Phase::Running);
    assert_eq!(agent.start(), nothing());
    assert_eq!(agent.phase(), Phase::Running);
}

#[test]
fn agent_does_not_react_before_start() {
    let mut agent = defender();
    let before = agent;
    assert_eq!(agent.react(deal(DealNotify::YourMove)), nothing());
    assert_eq!(agent.react(deal(DealNotify::DealClosed)), nothing());
    assert_eq!(agent.react(ServerMessage::ServerStopping), nothing());
    agent.transport_failed(TransportError::SendFailed);
    assert_eq!(agent, before);
}

#[test]
fn defender_declined_card_quits_with_illegal_card() {
    let mut agent = running(defender());
    let seven = card(Figure::Seven, Suit::Clubs);
    assert_eq!(agent.react(deal(DealNotify::CardDeclined(seven))), vec![ClientMessage::Quit]);
    let violation = BotError::Protocol(ProtocolViolation::IllegalOrDuplicateCard(seven));
    assert_eq!(agent.outcome(), Some(Err(violation)));
    assert_eq!(agent.phase(), Phase::Terminated(Err(violation)));
    assert!(agent.situation().is_terminal());
    assert_eq!(agent.react(deal(DealNotify::YourMove)), nothing());
    assert_eq!(agent.react(deal(DealNotify::DealClosed)), nothing());
    assert_eq!(agent.react(ServerMessage::GameOver), nothing());
    assert_eq!(agent.start(), nothing());
    assert_eq!(agent.outcome(), Some(Err(violation)));
}

#[test]
fn deal_closed_with_pending_acknowledgement_quits_ok() {
    let mut agent = running(defender());
    let out = agent.react(deal(DealNotify::YourMove));
    assert_eq!(out.len(), 1);
    assert!(agent.ack_pending());
    assert_eq!(agent.react(deal(DealNotify::DealClosed)), vec![ClientMessage::Quit]);
    assert_eq!(agent.outcome(), Some(Ok(())));
    assert!(agent.situation().is_terminal());
    assert_eq!(agent.current_side(), None);
    assert_eq!(agent.react(deal(DealNotify::YourMove)), nothing());
}

#[test]
fn deal_closed_without_pending_acknowledgement_quits_ok() {
    let mut agent = running(declarer());
    assert!(!agent.ack_pending());
    assert_eq!(agent.react(deal(DealNotify::DealClosed)), vec![ClientMessage::Quit]);
    assert_eq!(agent.outcome(), Some(Ok(())));
}

#[test]
fn server_stopping_is_fatal_without_quit() {
    let mut agent = running(defender());
    assert_eq!(agent.react(deal(DealNotify::CardPlayed(Side::West, card(Figure::Seven, Suit::Clubs)))), nothing());
    assert_eq!(agent.react(ServerMessage::ServerStopping), nothing());
    assert_eq!(agent.outcome(), Some(Err(BotError::ServerDead)));
    assert!(agent.situation().is_terminal());
    assert_eq!(agent.react(deal(DealNotify::DealClosed)), nothing());
}

#[test]
fn game_over_ends_ok_without_quit() {
    let mut agent = running(declarer());
    assert_eq!(agent.react(ServerMessage::GameOver), nothing());
    assert_eq!(agent.outcome(), Some(Ok(())));
    assert!(agent.situation().is_terminal());
}

#[test]
fn peer_error_ends_with_that_error() {
    let mut agent = running(declarer());
    let error = BotError::LocalState(LocalStateError::CardNotFound);
    assert_eq!(agent.react(ServerMessage::Error(error)), nothing());
    assert_eq!(agent.outcome(), Some(Err(error)));
}

#[test]
fn transport_failure_is_fatal() {
    let mut agent = running(defender());
    agent.transport_failed(TransportError::ReceiveFailed);
    assert_eq!(agent.outcome(), Some(Err(BotError::Transport(TransportError::ReceiveFailed))));
    assert!(agent.situation().is_terminal());
    agent.transport_failed(TransportError::SendFailed);
    assert_eq!(agent.outcome(), Some(Err(BotError::Transport(TransportError::ReceiveFailed))));
}

#[test]
fn failed_quit_after_deal_closed_is_fatal() {
    let mut agent = running(defender());
    assert_eq!(agent.react(deal(DealNotify::DealClosed)), vec![ClientMessage::Quit]);
    assert_eq!(agent.outcome(), Some(Ok(())));
    agent.transport_failed(TransportError::SendFailed);
    assert_eq!(agent.outcome(), Some(Err(BotError::Transport(TransportError::SendFailed))));
    assert!(agent.situation().is_terminal());
    agent.transport_failed(TransportError::ReceiveFailed);
    assert_eq!(agent.outcome(), Some(Err(BotError::Transport(TransportError::SendFailed))));
}

#[test]
fn failed_send_of_a_card_is_fatal() {
    let mut agent = running(defender());
    assert_eq!(agent.react_at(deal(DealNotify::YourMove), 0).len(), 1);
    agent.transport_failed(TransportError::SendFailed);
    assert_eq!(agent.outcome(), Some(Err(BotError::Transport(TransportError::SendFailed))));
}

#[test]
fn failed_send_after_a_violation_keeps_the_violation() {
    let mut agent = running(defender());
    let seven = card(Figure::Seven, Suit::Clubs);
    assert_eq!(agent.react(deal(DealNotify::CardDeclined(seven))), vec![ClientMessage::Quit]);
    agent.transport_failed(TransportError::SendFailed);
    assert_eq!(
        agent.outcome(),
        Some(Err(BotError::Protocol(ProtocolViolation::IllegalOrDuplicateCard(seven))))
    );
}

#[test]
fn failed_ready_is_fatal() {
    let mut agent = defender();
    assert_eq!(agent.start(), vec![ClientMessage::Ready]);
    agent.transport_failed(TransportError::SendFailed);
    assert_eq!(agent.outcome(), Some(Err(BotError::Transport(TransportError::SendFailed))));
}

#[test]
fn declarer_addresses_dummy_hand_whoever_the_view_names_declarer() {
    let hand = Hand::from_cards(&[card(Figure::Ace, Suit::Spades)]);
    let view = Situation::new(Side::South, hand, Side::West, Trump::NoTrump);
    let mut agent = running(Agent::new(Role::Declarer, view));
    let queen = card(Figure::Queen, Suit::Spades);
    let dummy_hand = Hand::from_cards(&[queen]);
    assert_eq!(agent.react(deal(DealNotify::DummyPlacedHand(dummy_hand))), nothing());
    assert_eq!(agent.situation().hand_of(Side::North), None);
    assert_eq!(agent.current_side(), Some(Side::North));
    assert_eq!(agent.addressed_hand(Side::North), dummy_hand);
    assert_eq!(agent.addressed_hand(Side::South), hand);
    assert_eq!(agent.addressed_hand(Side::West), Hand::new());
    assert_eq!(agent.select_action(), Ok(DealAction::PlayCard(queen)));
    assert_eq!(
        agent.react(deal(DealNotify::YourMove)),
        vec![ClientMessage::Dealing(DealAction::PlayCard(queen))]
    );
}

#[test]
fn defender_addresses_its_own_hand_only() {
    let mut agent = running(defender());
    let own = agent.situation().hand();
    assert_eq!(agent.react(deal(DealNotify::DummyPlacedHand(Hand::from_cards(&[card(Figure::Queen, Suit::Spades)])))), nothing());
    assert_eq!(agent.addressed_hand(Side::West), own);
    assert_eq!(agent.addressed_hand(Side::East), Hand::new());
    assert_eq!(agent.addressed_hand(Side::North), Hand::new());
}

#[test]
fn information_messages_change_nothing() {
    let mut agent = running(defender());
    let before = agent;
    assert_eq!(agent.react(ServerMessage::Bidding), nothing());
    assert_eq!(agent.react(ServerMessage::BiddingInfo), nothing());
    assert_eq!(agent.react(ServerMessage::DealInfo), nothing());
    assert_eq!(agent.react(ServerMessage::PlayerLeft(Side::East)), nothing());
    assert_eq!(agent.react(ServerMessage::ServerNotReady), nothing());
    assert_eq!(agent.react(deal(DealNotify::TrickClosed)), nothing());
    assert_eq!(agent, before);
}

#[test]
fn defender_plays_a_card_of_its_hand_on_its_move() {
    let mut agent = running(defender());
    for _ in 0..50 {
        let mut copy = agent;
        let out = copy.react(deal(DealNotify::YourMove));
        assert_eq!(out.len(), 1);
        match out[0] {
            ClientMessage::Dealing(DealAction::PlayCard(chosen)) => {
                assert!(copy.situation().hand().contains(chosen))
            }
            other => panic!("unexpected message {:?}", other),
        }
        assert!(copy.ack_pending());
        assert_eq!(copy.phase(), Phase::Running);
        assert_eq!(copy.situation(), agent.situation());
    }
    assert_eq!(
        agent.react_at(deal(DealNotify::YourMove), 0),
        vec![ClientMessage::Dealing(DealAction::PlayCard(card(Figure::Seven, Suit::Clubs)))]
    );
    assert_eq!(
        agent.react_at(deal(DealNotify::YourMove), 2),
        vec![ClientMessage::Dealing(DealAction::PlayCard(card(Figure::Two, Suit::Hearts)))]
    );
}

#[test]
fn card_accepted_clears_pending_acknowledgement() {
    let mut agent = running(defender());
    assert_eq!(agent.react_at(deal(DealNotify::YourMove), 1).len(), 1);
    assert!(agent.ack_pending());
    assert_eq!(agent.react(deal(DealNotify::CardAccepted(card(Figure::Eight, Suit::Clubs)))), nothing());
    assert!(!agent.ack_pending());
    assert_eq!(agent.phase(), Phase::Running);
}

#[test]
fn card_accepted_out_of_turn_is_fatal() {
    let mut agent = running(defender());
    let seven = card(Figure::Seven, Suit::Clubs);
    assert_eq!(agent.react(deal(DealNotify::CardPlayed(Side::West, seven))), nothing());
    assert_eq!(agent.current_side(), Some(Side::North));
    let violation = BotError::Protocol(ProtocolViolation::DifferentSideExpected(Mismatch {
        expected: Side::North,
        found: Side::West,
    }));
    assert_eq!(
        agent.react(deal(DealNotify::CardAccepted(seven))),
        vec![ClientMessage::Error(violation), ClientMessage::Quit]
    );
    assert_eq!(agent.outcome(), Some(Err(violation)));
}

#[test]
fn your_move_out_of_turn_is_fatal() {
    let mut agent = running(declarer());
    assert_eq!(agent.current_side(), Some(Side::West));
    let violation = BotError::Protocol(ProtocolViolation::DifferentSideExpected(Mismatch {
        expected: Side::West,
        found: Side::South,
    }));
    assert_eq!(agent.select_action(), Err(violation));
    assert_eq!(
        agent.react(deal(DealNotify::YourMove)),
        vec![
            ClientMessage::Dealing(DealAction::NotMyTurn),
            ClientMessage::Error(violation),
            ClientMessage::Quit
        ]
    );
    assert_eq!(agent.outcome(), Some(Err(violation)));
    assert!(!agent.ack_pending());
}

#[test]
fn defender_does_not_play_for_its_partner() {
    let mut agent = running(defender());
    assert_eq!(agent.react(deal(DealNotify::CardPlayed(Side::West, card(Figure::Seven, Suit::Clubs)))), nothing());
    assert_eq!(agent.react(deal(DealNotify::CardPlayed(Side::North, card(Figure::Nine, Suit::Clubs)))), nothing());
    assert_eq!(agent.current_side(), Some(Side::East));
    assert!(!agent.controls(Side::East));
    let violation = BotError::Protocol(ProtocolViolation::DifferentSideExpected(Mismatch {
        expected: Side::East,
        found: Side::West,
    }));
    assert_eq!(agent.select_action_at(0), Err(violation));
}

#[test]
fn your_move_after_deal_is_over_is_fatal() {
    let mut view = Situation::new(
        Side::West,
        Hand::from_cards(&[card(Figure::Seven, Suit::Clubs)]),
        Side::South,
        Trump::NoTrump,
    );
    view.close();
    let mut agent = running(Agent::new(Role::Defender, view));
    let violation = BotError::Protocol(ProtocolViolation::DealFinished);
    assert_eq!(
        agent.react(deal(DealNotify::YourMove)),
        vec![
            ClientMessage::Dealing(DealAction::NotMyTurn),
            ClientMessage::Error(violation),
            ClientMessage::Quit
        ]
    );
    assert_eq!(agent.outcome(), Some(Err(violation)));
}

#[test]
fn your_move_with_empty_hand_is_fatal() {
    let view = Situation::new(Side::West, Hand::new(), Side::South, Trump::NoTrump);
    let mut agent = running(Agent::new(Role::Defender, view));
    let error = BotError::Selection(SelectionError::EmptyHand);
    assert_eq!(agent.select_action(), Err(error));
    assert_eq!(
        agent.react(deal(DealNotify::YourMove)),
        vec![ClientMessage::Error(error), ClientMessage::Quit]
    );
    assert_eq!(agent.outcome(), Some(Err(error)));
}

#[test]
fn declarer_plays_dummy_hand_on_partner_turn() {
    let mut agent = running(declarer());
    let queen = card(Figure::Queen, Suit::Spades);
    let three = card(Figure::Three, Suit::Clubs);
    assert!(agent.controls(Side::South));
    assert!(agent.controls(Side::North));
    assert!(!agent.controls(Side::West));
    assert_eq!(agent.react(deal(DealNotify::DummyPlacedHand(Hand::from_cards(&[queen, three])))), nothing());
    assert_eq!(agent.react(deal(DealNotify::CardPlayed(Side::West, card(Figure::Two, Suit::Clubs)))), nothing());
    assert_eq!(agent.current_side(), Some(Side::North));
    for _ in 0..30 {
        assert_eq!(agent.select_action(), Ok(DealAction::PlayCard(three)));
    }
    assert_eq!(
        agent.react(deal(DealNotify::YourMove)),
        vec![ClientMessage::Dealing(DealAction::PlayCard(three))]
    );
    assert!(agent.ack_pending());
    assert_eq!(agent.react(deal(DealNotify::CardAccepted(three))), nothing());
    assert_eq!(agent.react(deal(DealNotify::CardPlayed(Side::North, three))), nothing());
    assert_eq!(agent.situation().cards_dummy(), vec![queen]);
    assert_eq!(agent.phase(), Phase::Running);
}

#[test]
fn card_played_desync_is_reported_and_not_fatal() {
    let mut agent = running(defender());
    let before = agent;
    let stranger = card(Figure::Ace, Suit::Diamonds);
    assert_eq!(
        agent.react(deal(DealNotify::CardPlayed(Side::West, stranger))),
        vec![ClientMessage::Error(BotError::LocalState(LocalStateError::CardNotFound))]
    );
    assert_eq!(agent, before);
    assert_eq!(agent.phase(), Phase::Running);
}

#[test]
fn duplicate_reveal_is_fatal() {
    let mut agent = running(defender());
    let hand = Hand::from_cards(&[card(Figure::Queen, Suit::Spades)]);
    assert_eq!(agent.react(deal(DealNotify::DummyPlacedHand(hand))), nothing());
    assert_eq!(agent.phase(), Phase::Running);
    let violation = BotError::Protocol(ProtocolViolation::DuplicateReveal);
    assert_eq!(
        agent.react(deal(DealNotify::DummyPlacedHand(hand))),
        vec![ClientMessage::Error(violation), ClientMessage::Quit]
    );
    assert_eq!(agent.outcome(), Some(Err(violation)));
    assert_eq!(agent.situation().dummy_hand(), Some(hand));
}

#[test]
fn dummy_shows_its_hand_on_its_move() {
    let mut agent = running(dummy());
    let hand = agent.situation().hand();
    assert_eq!(agent.select_action(), Ok(DealAction::ShowHand(hand)));
    assert_eq!(
        agent.react(deal(DealNotify::YourMove)),
        vec![ClientMessage::Dealing(DealAction::ShowHand(hand))]
    );
    assert!(!agent.ack_pending());
    assert_eq!(agent.phase(), Phase::Running);
    assert_eq!(
        agent.react(deal(DealNotify::YourMove)),
        vec![ClientMessage::Dealing(DealAction::ShowHand(hand))]
    );
    assert_eq!(agent.react(deal(DealNotify::DealClosed)), vec![ClientMessage::Quit]);
    assert_eq!(agent.outcome(), Some(Ok(())));
}

#[test]
fn view_can_be_updated_in_place() {
    let mut agent = declarer();
    let ace = card(Figure::Ace, Suit::Spades);
    let queen = card(Figure::Queen, Suit::Spades);
    assert_eq!(agent.situation_mut().set_dummy(Hand::from_cards(&[queen])), Ok(()));
    assert_eq!(agent.situation_mut().apply(DealNotify::CardPlayed(Side::West, ace)), Ok(()));
    assert_eq!(agent.situation_mut().apply(DealNotify::CardPlayed(Side::South, ace)), Ok(()));
    assert_eq!(agent.situation().cards_hand(), vec![card(Figure::Two, Suit::Hearts)]);
    assert_eq!(agent.situation().cards_dummy(), vec![queen]);
    assert_eq!(
        agent.situation_mut().apply(DealNotify::CardPlayed(Side::South, ace)),
        Err(BotError::LocalState(LocalStateError::CardNotFound))
    );
    assert_eq!(agent.phase(), Phase::AwaitingReady);
    assert_eq!(agent.role(), Role::Declarer);
}
