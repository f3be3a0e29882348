use brydz_bots::cards::{Card, Figure, Suit};
use brydz_bots::hand::Hand;

fn card(figure: Figure, suit: Suit) -> Card {
    Card::new(figure, suit)
}

#[test]
fn new_hand_is_empty() {
    let hand = Hand::new();
    assert!(hand.is_empty());
    assert_eq!(hand.len(), 0);
    assert_eq!(hand.cards(), Vec::<Card>::new());
    assert!(!hand.contains(card(Figure::Ace, Suit::Spades)));
}

#[test]
fn hand_lists_its_cards_by_ascending_index() {
    let ace_spades = card(Figure::Ace, Suit::Spades);
    let two_hearts = card(Figure::Two, Suit::Hearts);
    let king_spades = card(Figure::King, Suit::Spades);
    let hand = Hand::from_cards(&[ace_spades, two_hearts, king_spades]);
    assert_eq!(hand.cards(), vec![two_hearts, king_spades, ace_spades]);
    assert_eq!(hand.len(), 3);
    assert!(!hand.is_empty());
}

#[test]
fn hand_holds_each_card_once() {
    let ten = card(Figure::Ten, Suit::Clubs);
    let hand = Hand::from_cards(&[ten, ten, ten]);
    assert_eq!(hand.cards(), vec![ten]);
    assert_eq!(hand.len(), 1);
}

#[test]
fn hand_contains_what_it_was_given() {
    let jack = card(Figure::Jack, Suit::Diamonds);
    let queen = card(Figure::Queen, Suit::Diamonds);
    let hand = Hand::from_cards(&[jack]);
    assert!(hand.contains(jack));
    assert!(!hand.contains(queen));
    assert!(!hand.contains(card(Figure::Jack, Suit::Hearts)));
}

#[test]
fn hand_cards_in_suit() {
    let ace_spades = card(Figure::Ace, Suit::Spades);
    let two_hearts = card(Figure::Two, Suit::Hearts);
    let king_spades = card(Figure::King, Suit::Spades);
    let two_clubs = card(Figure::Two, Suit::Clubs);
    let hand = Hand::from_cards(&[ace_spades, two_hearts, king_spades, two_clubs]);
    assert_eq!(hand.cards_in_suit(Suit::Spades), vec![king_spades, ace_spades]);
    assert_eq!(hand.cards_in_suit(Suit::Hearts), vec![two_hearts]);
    assert_eq!(hand.cards_in_suit(Suit::Clubs), vec![two_clubs]);
    assert_eq!(hand.cards_in_suit(Suit::Diamonds), Vec::<Card>::new());
}

#[test]
fn hand_remove_takes_one_card() {
    let ace = card(Figure::Ace, Suit::Spades);
    let king = card(Figure::King, Suit::Spades);
    let mut hand = Hand::from_cards(&[ace, king]);
    assert!(hand.remove(ace));
    assert_eq!(hand.cards(), vec![king]);
    assert!(!hand.contains(ace));
    assert!(!hand.remove(ace));
    assert_eq!(hand.cards(), vec![king]);
    assert!(hand.remove(king));
    assert!(hand.is_empty());
}

#[test]
fn full_deck_fits_in_a_hand() {
    let mut all = Vec::new();
    for index in 0..52u8 {
        all.push(Card::from_index(index).unwrap());
    }
    let hand = Hand::from_cards(&all);
    assert_eq!(hand.len(), 52);
    assert_eq!(hand.cards(), all);
    assert_eq!(hand.cards_in_suit(Suit::Hearts), all[26..39].to_vec());
}

#[test]
fn equal_hands_compare_equal() {
    let ace = card(Figure::Ace, Suit::Spades);
    let king = card(Figure::King, Suit::Spades);
    assert_eq!(Hand::from_cards(&[ace, king]), Hand::from_cards(&[king, ace]));
    assert_ne!(Hand::from_cards(&[ace]), Hand::from_cards(&[king]));
}
