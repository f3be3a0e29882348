//! Playing cards of the standard 52-card deck.
//!
//! Every card has a deck index in `0..52`: thirteen consecutive indices per
//! suit, suits in the order clubs, diamonds, hearts, spades, and within a suit
//! the figures from the two up to the ace.

use vstd::prelude::*;
use vstd::set_lib::lemma_int_range;
use vstd::set_lib::lemma_len_subset;
use vstd::set_lib::lemma_map_size_bound;
use vstd::set_lib::set_int_range;

verus! {

/// Number of figures in one suit.
pub const FIGURES_PER_SUIT: u8 = 13;

/// One of the four suits.
#[derive(Clone, Copy, Debug, PartialEq, Eq, Structural, Hash)]
pub enum Suit {
    Clubs,
    Diamonds,
    Hearts,
    Spades,
}

impl Suit {
    /// Position of the suit in the deck order, `0..4`.
    pub open spec fn spec_index(self) -> u8 {
        match self {
            Suit::Clubs => 0,
            Suit::Diamonds => 1,
            Suit::Hearts => 2,
            Suit::Spades => 3,
        }
    }

    /// The suit at a position of the deck order; positions from 3 upward give spades.
    pub open spec fn spec_from_index(i: int) -> Suit {
        if i <= 0 {
            Suit::Clubs
        } else if i == 1 {
            Suit::Diamonds
        } else if i == 2 {
            Suit::Hearts
        } else {
            Suit::Spades
        }
    }

    #[verifier::when_used_as_spec(spec_index)]
    pub fn index(self) -> (i: u8)
        ensures
            i == self.spec_index(),
            i < 4,
    {
        match self {
            Suit::Clubs => 0,
            Suit::Diamonds => 1,
            Suit::Hearts => 2,
            Suit::Spades => 3,
        }
    }

    /// The suit with the given index, if there is one.
    pub fn from_index(i: u8) -> (s: Option<Suit>)
        ensures
            i < 4 <==> s is Some,
            s matches Some(suit) ==> suit.spec_index() == i && suit == Suit::spec_from_index(i as int),
    {
        match i {
            0 => Some(Suit::Clubs),
            1 => Some(Suit::Diamonds),
            2 => Some(Suit::Hearts),
            3 => Some(Suit::Spades),
            _ => None,
        }
    }
}

/// The figure (rank) of a card, from the two up to the ace.
#[derive(Clone, Copy, Debug, PartialEq, Eq, Structural, Hash)]
pub enum Figure {
    Two,
    Three,
    Four,
    Five,
    Six,
    Seven,
    Eight,
    Nine,
    Ten,
    Jack,
    Queen,
    King,
    Ace,
}

impl Figure {
    /// Strength of the figure within its suit, `0..13`; the ace is strongest.
    pub open spec fn spec_rank(self) -> u8 {
        match self {
            Figure::Two => 0,
            Figure::Three => 1,
            Figure::Four => 2,
            Figure::Five => 3,
            Figure::Six => 4,
            Figure::Seven => 5,
            Figure::Eight => 6,
            Figure::Nine => 7,
            Figure::Ten => 8,
            Figure::Jack => 9,
            Figure::Queen => 10,
            Figure::King => 11,
            Figure::Ace => 12,
        }
    }

    /// The figure of a given strength; strengths from 12 upward give the ace.
    pub open spec fn spec_from_rank(r: int) -> Figure {
        if r <= 0 {
            Figure::Two
        } else if r == 1 {
            Figure::Three
        } else if r == 2 {
            Figure::Four
        } else if r == 3 {
            Figure::Five
        } else if r == 4 {
            Figure::Six
        } else if r == 5 {
            Figure::Seven
        } else if r == 6 {
            Figure::Eight
        } else if r == 7 {
            Figure::Nine
        } else if r == 8 {
            Figure::Ten
        } else if r == 9 {
            Figure::Jack
        } else if r == 10 {
            Figure::Queen
        } else if r == 11 {
            Figure::King
        } else {
            Figure::Ace
        }
    }

    #[verifier::when_used_as_spec(spec_rank)]
    pub fn rank(self) -> (r: u8)
        ensures
            r == self.spec_rank(),
            r < 13,
    {
        match self {
            Figure::Two => 0,
            Figure::Three => 1,
            Figure::Four => 2,
            Figure::Five => 3,
            Figure::Six => 4,
            Figure::Seven => 5,
            Figure::Eight => 6,
            Figure::Nine => 7,
            Figure::Ten => 8,
            Figure::Jack => 9,
            Figure::Queen => 10,
            Figure::King => 11,
            Figure::Ace => 12,
        }
    }

    /// The figure with the given strength, if there is one.
    pub fn from_rank(r: u8) -> (f: Option<Figure>)
        ensures
            r < 13 <==> f is Some,
            f matches Some(figure) ==> figure.spec_rank() == r && figure == Figure::spec_from_rank(
                r as int,
            ),
    {
        match r {
            0 => Some(Figure::Two),
            1 => Some(Figure::Three),
            2 => Some(Figure::Four),
            3 => Some(Figure::Five),
            4 => Some(Figure::Six),
            5 => Some(Figure::Seven),
            6 => Some(Figure::Eight),
            7 => Some(Figure::Nine),
            8 => Some(Figure::Ten),
            9 => Some(Figure::Jack),
            10 => Some(Figure::Queen),
            11 => Some(Figure::King),
            12 => Some(Figure::Ace),
            _ => None,
        }
    }
}

/// A card: a figure in a suit.
#[derive(Clone, Copy, Debug, PartialEq, Eq, Structural, Hash)]
pub struct Card {
    pub figure: Figure,
    pub suit: Suit,
}

impl Card {
    /// Deck index of the card, `0..52`.
    pub open spec fn spec_index(self) -> u8 {
        (self.suit.spec_index() * 13 + self.figure.spec_rank()) as u8
    }

    /// The card at a deck index.
    pub open spec fn spec_from_index(i: int) -> Card {
        Card { figure: Figure::spec_from_rank(i % 13), suit: Suit::spec_from_index(i / 13) }
    }

    pub fn new(figure: Figure, suit: Suit) -> (c: Card)
        ensures
            c == (Card { figure, suit }),
    {
        Card { figure, suit }
    }

    #[verifier::when_used_as_spec(spec_index)]
    pub fn index(self) -> (i: u8)
        ensures
            i == self.spec_index(),
            i < 52,
            i / 13 == self.suit.spec_index(),
            i % 13 == self.figure.spec_rank(),
    {
        self.suit.index() * FIGURES_PER_SUIT + self.figure.rank()
    }

    /// The card with the given deck index, if there is one.
    pub fn from_index(i: u8) -> (c: Option<Card>)
        ensures
            i < 52 <==> c is Some,
            c matches Some(card) ==> card.spec_index() == i && card == Card::spec_from_index(
                i as int,
            ),
    {
        match (Figure::from_rank(i % FIGURES_PER_SUIT), Suit::from_index(i / FIGURES_PER_SUIT)) {
            (Some(figure), Some(suit)) => Some(Card { figure, suit }),
            _ => None,
        }
    }

    /// The suit of the card.
    pub fn suit(self) -> (s: Suit)
        ensures
            s == self.suit,
    {
        self.suit
    }

    /// The figure of the card.
    pub fn figure(self) -> (f: Figure)
        ensures
            f == self.figure,
    {
        self.figure
    }
}

/// The trump of the contract being played.
#[derive(Clone, Copy, Debug, PartialEq, Eq, Structural, Hash)]
pub enum Trump {
    Colored(Suit),
    NoTrump,
}

impl Trump {
    /// Deck index of the trump suit, if the contract has one.
    pub open spec fn spec_suit_index(self) -> Option<u8> {
        match self {
            Trump::Colored(suit) => Some(suit.spec_index()),
            Trump::NoTrump => None,
        }
    }

    #[verifier::when_used_as_spec(spec_suit_index)]
    pub fn suit_index(self) -> (i: Option<u8>)
        ensures
            i == self.spec_suit_index(),
    {
        match self {
            Trump::Colored(suit) => Some(suit.index()),
            Trump::NoTrump => None,
        }
    }
}

/// Every card is the card at its own deck index, so that two cards with the
/// same index are the same card.
pub proof fn lemma_card_index_roundtrip(c: Card)
    ensures
        c.spec_index() < 52,
        c.spec_index() / 13 == c.suit.spec_index(),
        c.spec_index() % 13 == c.figure.spec_rank(),
        Card::spec_from_index(c.spec_index() as int) == c,
{
}

/// Every deck index below 52 is the index of the card found at it.
pub proof fn lemma_index_card_roundtrip(i: int)
    requires
        0 <= i < 52,
    ensures
        Card::spec_from_index(i).spec_index() == i,
{
}

/// There are only 52 cards: every set of cards is finite.
pub proof fn lemma_cards_are_finite(s: Set<Card>)
    ensures
        s.finite(),
        s.len() <= 52,
{
    let range = set_int_range(0, 52);
    let card_at = |i: int| Card::spec_from_index(i);
    let deck = range.map(card_at);
    lemma_int_range(0, 52);
    lemma_map_size_bound(range, deck, card_at);
    assert forall|c: Card| s.contains(c) implies deck.contains(c) by {
        lemma_card_index_roundtrip(c);
        assert(range.contains(c.spec_index() as int));
        assert(card_at(c.spec_index() as int) == c);
    }
    lemma_len_subset(s, deck);
}

} // verus!
