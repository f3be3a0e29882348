use brydz_bots::cards::{Card, Figure, Suit, Trump};
use brydz_bots::side::Side;
use brydz_bots::trick::{Play, Trick};

fn card(figure: Figure, suit: Suit) -> Card {
    Card::new(figure, suit)
}

fn taker(trump: Trump, leader: Side, cards: [Card; 4]) -> Side {
    let mut trick = Trick::new(leader);
    let mut side = leader;
    for card in cards {
        assert!(trick.play(trump, side, card));
        side = side.next();
    }
    assert_eq!(trick.len(), 0);
    trick.leader()
}

#[test]
fn empty_trick_waits_for_its_leader() {
    let trick = Trick::new(Side::East);
    assert_eq!(trick.leader(), Side::East);
    assert_eq!(trick.current_side(), Side::East);
    assert_eq!(trick.called_suit(), None);
    assert_eq!(trick.len(), 0);
    assert_eq!(trick.plays(), Vec::<Play>::new());
}

#[test]
fn trick_records_plays_in_order() {
    let mut trick = Trick::new(Side::North);
    let queen = card(Figure::Queen, Suit::Hearts);
    let two = card(Figure::Two, Suit::Clubs);
    assert!(trick.play(Trump::NoTrump, Side::North, queen));
    assert_eq!(trick.called_suit(), Some(Suit::Hearts));
    assert_eq!(trick.current_side(), Side::East);
    assert!(trick.play(Trump::NoTrump, Side::East, two));
    assert_eq!(trick.called_suit(), Some(Suit::Hearts));
    assert_eq!(trick.current_side(), Side::South);
    assert_eq!(trick.len(), 2);
    assert_eq!(
        trick.plays(),
        vec![Play { side: Side::North, card: queen }, Play { side: Side::East, card: two }]
    );
    assert!(trick.contains(queen));
    assert!(!trick.contains(card(Figure::Ace, Suit::Spades)));
}

#[test]
fn trick_refuses_a_card_that_lies_on_the_table() {
    let mut trick = Trick::new(Side::North);
    let queen = card(Figure::Queen, Suit::Hearts);
    assert!(trick.play(Trump::NoTrump, Side::North, queen));
    let before = trick;
    assert!(!trick.play(Trump::NoTrump, Side::East, queen));
    assert_eq!(trick, before);
}

#[test]
fn first_play_sets_the_leader() {
    let mut trick = Trick::new(Side::North);
    assert!(trick.play(Trump::NoTrump, Side::South, card(Figure::Two, Suit::Clubs)));
    assert_eq!(trick.leader(), Side::South);
    assert_eq!(trick.current_side(), Side::West);
}

#[test]
fn highest_card_of_led_suit_takes_trick_without_trump() {
    let cards = [
        card(Figure::Queen, Suit::Hearts),
        card(Figure::Two, Suit::Clubs),
        card(Figure::Ace, Suit::Spades),
        card(Figure::Ten, Suit::Spades),
    ];
    assert_eq!(taker(Trump::NoTrump, Side::North, cards), Side::North);
    let cards = [
        card(Figure::Queen, Suit::Hearts),
        card(Figure::Two, Suit::Clubs),
        card(Figure::Ace, Suit::Spades),
        card(Figure::King, Suit::Hearts),
    ];
    assert_eq!(taker(Trump::NoTrump, Side::North, cards), Side::West);
    assert_eq!(taker(Trump::NoTrump, Side::East, cards), Side::North);
}

#[test]
fn highest_trump_takes_trick() {
    let cards = [
        card(Figure::Queen, Suit::Hearts),
        card(Figure::Two, Suit::Clubs),
        card(Figure::Ace, Suit::Spades),
        card(Figure::Ten, Suit::Spades),
    ];
    assert_eq!(taker(Trump::Colored(Suit::Hearts), Side::North, cards), Side::North);
    assert_eq!(taker(Trump::Colored(Suit::Clubs), Side::North, cards), Side::East);
    assert_eq!(taker(Trump::Colored(Suit::Spades), Side::North, cards), Side::South);
    assert_eq!(taker(Trump::Colored(Suit::Diamonds), Side::North, cards), Side::North);
    assert_eq!(taker(Trump::Colored(Suit::Spades), Side::West, cards), Side::East);
}

#[test]
fn taker_of_a_trick_leads_the_next() {
    let mut trick = Trick::new(Side::West);
    assert!(trick.play(Trump::NoTrump, Side::West, card(Figure::Three, Suit::Diamonds)));
    assert!(trick.play(Trump::NoTrump, Side::North, card(Figure::Jack, Suit::Diamonds)));
    assert!(trick.play(Trump::NoTrump, Side::East, card(Figure::Ace, Suit::Clubs)));
    assert_eq!(trick.len(), 3);
    assert!(trick.play(Trump::NoTrump, Side::South, card(Figure::Nine, Suit::Diamonds)));
    assert_eq!(trick.len(), 0);
    assert_eq!(trick.leader(), Side::North);
    assert_eq!(trick.current_side(), Side::North);
    assert_eq!(trick.called_suit(), None);
}

#[test]
fn taker_is_the_side_that_played_the_winning_card() {
    let mut trick = Trick::new(Side::West);
    assert!(trick.play(Trump::NoTrump, Side::South, card(Figure::Three, Suit::Diamonds)));
    assert!(trick.play(Trump::NoTrump, Side::South, card(Figure::Jack, Suit::Diamonds)));
    assert!(trick.play(Trump::NoTrump, Side::East, card(Figure::Queen, Suit::Diamonds)));
    assert!(trick.play(Trump::NoTrump, Side::North, card(Figure::Nine, Suit::Diamonds)));
    assert_eq!(trick.leader(), Side::East);
}
