//! The open trick: the cards played since the last trick was closed.
//!
//! Who takes a full trick is decided by the trick solver of `brydz_core`. What
//! the solver returns is taken on trust, in the contract of `solver_winner`.

use brydz_core::cards::trump::Trump as EngineTrump;
use brydz_core::contract::SmartTrickSolver;
use brydz_core::contract::Trick as EngineTrick;
use brydz_core::contract::TrickSolver;
use brydz_core::karty::cards::Card as DeckCard;
use brydz_core::karty::suits::Suit as DeckSuit;
use brydz_core::karty::symbol::CardSymbol;
use brydz_core::player::side::Side as EngineSide;
use vstd::prelude::*;

use crate::cards::lemma_card_index_roundtrip;
use crate::cards::Card;
use crate::cards::Suit;
use crate::cards::Trump;
use crate::side::Side;

verus! {

/// Index of the suit that decides a trick of cards given by their deck indices:
/// the trump suit if a trump was played, else the suit of the first card.
pub open spec fn deciding_suit_index(trump: Option<u8>, cards: Seq<u8>) -> u8 {
    if trump is Some && exists|i: int| 0 <= i < cards.len() && cards[i] / 13 == trump->0 {
        trump->0
    } else {
        cards[0] / 13
    }
}

/// The card at position `pos` is the highest card of the deciding suit.
pub open spec fn takes_trick(trump: Option<u8>, cards: Seq<u8>, pos: int) -> bool {
    &&& 0 <= pos < cards.len()
    &&& cards[pos] / 13 == deciding_suit_index(trump, cards)
    &&& forall|q: int|
        0 <= q < cards.len() && cards[q] / 13 == deciding_suit_index(trump, cards) ==> cards[q]
            <= cards[pos]
}

/// `SmartTrickSolver::winner` on the trick that `Trick::insert_card` builds
/// from four cards, given by deck index and led by North, under the trump
/// suit of index `trump`, or under no trump. The result is the position in
/// the trick of the winning side: the one with the highest trump, or, where no
/// trump was played, with the highest card of the suit that was led. The calls
/// fail on a card played twice and on an index outside the deck.
#[verifier::external_body]
fn solver_winner(trump: Option<u8>, first: u8, second: u8, third: u8, fourth: u8) -> (pos: u8)
    requires
        trump matches Some(suit) ==> suit < 4,
        first < 52 && second < 52 && third < 52 && fourth < 52,
        seq![first, second, third, fourth].no_duplicates(),
    ensures
        takes_trick(trump, seq![first, second, third, fourth], pos as int),
{
    let mut trick = EngineTrick::new(EngineSide::North);
    trick.insert_card(EngineSide::North, DeckCard::from_usize_index(first as usize).unwrap()).unwrap();
    trick.insert_card(EngineSide::East, DeckCard::from_usize_index(second as usize).unwrap()).unwrap();
    trick.insert_card(EngineSide::South, DeckCard::from_usize_index(third as usize).unwrap()).unwrap();
    trick.insert_card(EngineSide::West, DeckCard::from_usize_index(fourth as usize).unwrap()).unwrap();
    let suit = trump.map(|suit| DeckSuit::from_usize_index(suit as usize).unwrap());
    let solver = SmartTrickSolver::new(suit.map_or(EngineTrump::NoTrump, EngineTrump::Colored));
    solver.winner(&trick).unwrap().index()
}

/// The suit that decides a trick: the trump suit if a trump was played, else
/// the suit that was led.
pub open spec fn deciding_suit(trump: Trump, cards: Seq<Card>) -> Suit {
    match trump {
        Trump::Colored(suit) => if exists|i: int| 0 <= i < cards.len() && cards[i].suit == suit {
            suit
        } else {
            cards[0].suit
        },
        Trump::NoTrump => cards[0].suit,
    }
}

/// The card at position `pos` takes the trick: it is the highest card of the
/// deciding suit.
pub open spec fn wins_at(trump: Trump, cards: Seq<Card>, pos: int) -> bool {
    &&& 0 <= pos < cards.len()
    &&& cards[pos].suit == deciding_suit(trump, cards)
    &&& forall|q: int|
        0 <= q < cards.len() && cards[q].suit == deciding_suit(trump, cards)
            ==> cards[q].figure.spec_rank() <= cards[pos].figure.spec_rank()
}

/// The position of the card that takes the trick.
pub open spec fn winning_position(trump: Trump, cards: Seq<Card>) -> int {
    choose|pos: int| wins_at(trump, cards, pos)
}

/// In a trick of distinct cards at most one position takes the trick.
pub proof fn lemma_winner_is_unique(trump: Trump, cards: Seq<Card>, p: int, q: int)
    requires
        cards.no_duplicates(),
        wins_at(trump, cards, p),
        wins_at(trump, cards, q),
    ensures
        p == q,
        winning_position(trump, cards) == p,
{
    if p != q {
        assert(cards[p] != cards[q]);
    }
    let w = winning_position(trump, cards);
    if w != p {
        assert(cards[w] != cards[p]);
    }
}

/// Some position takes every trick that is not empty.
pub proof fn lemma_winner_exists(trump: Trump, cards: Seq<Card>)
    requires
        cards.len() > 0,
    ensures
        wins_at(trump, cards, winning_position(trump, cards)),
{
    let suit = deciding_suit(trump, cards);
    let p = highest_of_suit(cards, suit, cards.len() as int);
    assert(cards[0].suit == suit || exists|i: int| 0 <= i < cards.len() && cards[i].suit == suit);
    let i = choose|i: int| 0 <= i < cards.len() && cards[i].suit == suit;
    lemma_highest_of_suit(cards, suit, cards.len() as int, i);
    assert forall|q: int| 0 <= q < cards.len() && cards[q].suit == suit implies cards[q].figure.spec_rank()
        <= cards[p].figure.spec_rank() by {
        lemma_highest_of_suit(cards, suit, cards.len() as int, q);
    }
    assert(wins_at(trump, cards, p));
}

/// Position of the highest card of `suit` among the first `n` cards, or -1.
spec fn highest_of_suit(cards: Seq<Card>, suit: Suit, n: int) -> int
    decreases n,
{
    if n <= 0 {
        -1
    } else {
        let before = highest_of_suit(cards, suit, n - 1);
        if cards[n - 1].suit == suit && (before < 0 || cards[before].figure.spec_rank() <= cards[n
            - 1].figure.spec_rank()) {
            n - 1
        } else {
            before
        }
    }
}

proof fn lemma_highest_of_suit(cards: Seq<Card>, suit: Suit, n: int, q: int)
    requires
        0 <= q < n <= cards.len(),
        cards[q].suit == suit,
    ensures
        0 <= highest_of_suit(cards, suit, n) < n,
        cards[highest_of_suit(cards, suit, n)].suit == suit,
        cards[q].figure.spec_rank() <= cards[highest_of_suit(cards, suit, n)].figure.spec_rank(),
    decreases n,
{
    lemma_highest_of_suit_in_range(cards, suit, n - 1);
    if q < n - 1 {
        lemma_highest_of_suit(cards, suit, n - 1, q);
    }
}

proof fn lemma_highest_of_suit_in_range(cards: Seq<Card>, suit: Suit, n: int)
    requires
        0 <= n <= cards.len(),
    ensures
        -1 <= highest_of_suit(cards, suit, n) < n,
        highest_of_suit(cards, suit, n) >= 0 ==> cards[highest_of_suit(cards, suit, n)].suit
            == suit,
    decreases n,
{
    if n > 0 {
        lemma_highest_of_suit_in_range(cards, suit, n - 1);
    }
}

/// A card on the table and the side that played it.
#[derive(Clone, Copy, Debug, PartialEq, Eq, Structural, Hash)]
pub struct Play {
    pub side: Side,
    pub card: Card,
}

/// What the open trick is: the plays made since the last trick was closed, in
/// order, and the side that leads the trick.
pub struct TrickView {
    /// The side that opened the trick or, while the trick is empty, is to open it.
    pub leader: Side,
    pub plays: Seq<Play>,
}

impl TrickView {
    /// The cards on the table, in the order of play.
    pub open spec fn cards(self) -> Seq<Card> {
        Seq::new(self.plays.len(), |i: int| self.plays[i].card)
    }

    /// An open trick holds fewer than four cards, no card twice, and is led by
    /// the side that played the first of them.
    pub open spec fn wf(self) -> bool {
        &&& self.plays.len() < 4
        &&& self.cards().no_duplicates()
        &&& self.plays.len() > 0 ==> self.plays[0].side == self.leader
    }

    /// The suit of the first card, if a card was played.
    pub open spec fn called_suit(self) -> Option<Suit> {
        if self.plays.len() > 0 {
            Some(self.plays[0].card.suit)
        } else {
            None
        }
    }

    /// The side that plays next: the leader of an empty trick, else the side
    /// after the one that played last.
    pub open spec fn turn(self) -> Side {
        if self.plays.len() > 0 {
            self.plays.last().side.spec_next()
        } else {
            self.leader
        }
    }

    /// The trick with the play of `card` by `side` added to it: the fourth card
    /// closes the trick, and the side that takes it leads the next one.
    pub open spec fn with_play(self, trump: Trump, side: Side, card: Card) -> TrickView {
        let longer = TrickView {
            leader: if self.plays.len() > 0 {
                self.leader
            } else {
                side
            },
            plays: self.plays.push(Play { side, card }),
        };
        if longer.plays.len() < 4 {
            longer
        } else {
            TrickView {
                leader: longer.plays[winning_position(trump, longer.cards())].side,
                plays: Seq::empty(),
            }
        }
    }

    /// The trick after `side` played `card`. A card lies on the table once: a
    /// card that lies there already is not laid again, and the trick stays as
    /// it is.
    pub open spec fn play(self, trump: Trump, side: Side, card: Card) -> TrickView {
        if self.cards().contains(card) {
            self
        } else {
            self.with_play(trump, side, card)
        }
    }
}

/// An open trick stays an open trick whatever is played to it. A card that
/// does not lie on the table yet opens the trick, follows the cards on the
/// table, or closes the trick.
pub proof fn lemma_play_keeps_trick_open(trick: TrickView, trump: Trump, side: Side, card: Card)
    requires
        trick.wf(),
    ensures
        trick.play(trump, side, card).wf(),
        trick.cards().contains(card) ==> trick.play(trump, side, card) == trick,
        !trick.cards().contains(card) && trick.plays.len() < 3 ==> trick.play(
            trump,
            side,
            card,
        ).plays == trick.plays.push(Play { side, card }),
        !trick.cards().contains(card) && trick.plays.len() < 3 ==> trick.play(
            trump,
            side,
            card,
        ).turn() == side.spec_next(),
        !trick.cards().contains(card) && trick.plays.len() == 3 ==> trick.play(
            trump,
            side,
            card,
        ).plays.len() == 0,
{
    if !trick.cards().contains(card) {
        let longer = TrickView {
            leader: if trick.plays.len() > 0 {
                trick.leader
            } else {
                side
            },
            plays: trick.plays.push(Play { side, card }),
        };
        assert(longer.cards() =~= trick.cards().push(card));
        assert forall|i: int, j: int|
            0 <= i < longer.cards().len() && 0 <= j < longer.cards().len() && i
                != j implies longer.cards()[i] != longer.cards()[j] by {
            if i < trick.cards().len() {
                assert(trick.cards().contains(longer.cards()[i]));
            }
            if j < trick.cards().len() {
                assert(trick.cards().contains(longer.cards()[j]));
            }
        }
        assert(Seq::<Play>::empty().len() == 0);
        let closed = TrickView { leader: side, plays: Seq::<Play>::empty() };
        assert(closed.cards() =~= Seq::<Card>::empty());
    }
}

/// The open trick.
#[derive(Clone, Copy, Debug, PartialEq, Eq)]
pub struct Trick {
    leader: Side,
    first: Option<Play>,
    second: Option<Play>,
    third: Option<Play>,
}

impl View for Trick {
    type V = TrickView;

    closed spec fn view(&self) -> TrickView {
        TrickView {
            leader: self.leader,
            plays: match (self.first, self.second, self.third) {
                (Some(a), Some(b), Some(c)) => seq![a, b, c],
                (Some(a), Some(b), None) => seq![a, b],
                (Some(a), None, _) => seq![a],
                (None, _, _) => Seq::empty(),
            },
        }
    }
}

impl Trick {
    #[verifier::type_invariant]
    spec fn open_trick(self) -> bool {
        &&& self.second is Some ==> self.first is Some
        &&& self.third is Some ==> self.second is Some
        &&& self@.wf()
    }

    /// The empty trick that `leader` is to open.
    pub fn new(leader: Side) -> (trick: Trick)
        ensures
            trick@ == (TrickView { leader, plays: Seq::empty() }),
    {
        Trick { leader, first: None, second: None, third: None }
    }

    /// The side that opened the trick or, while the trick is empty, is to open it.
    pub fn leader(&self) -> (side: Side)
        ensures
            side == self@.leader,
    {
        self.leader
    }

    /// The plays made to the trick, in order.
    pub fn plays(&self) -> (plays: Vec<Play>)
        ensures
            plays@ == self@.plays,
            self@.wf(),
    {
        proof {
            use_type_invariant(self);
        }
        let mut plays: Vec<Play> = Vec::new();
        if let Some(a) = self.first {
            plays.push(a);
            if let Some(b) = self.second {
                plays.push(b);
                if let Some(c) = self.third {
                    plays.push(c);
                }
            }
        }
        assert(plays@ =~= self@.plays);
        plays
    }

    /// The number of cards played to the trick.
    pub fn len(&self) -> (n: u8)
        ensures
            n == self@.plays.len(),
            n < 4,
            self@.wf(),
    {
        proof {
            use_type_invariant(self);
        }
        if self.first.is_none() {
            0
        } else if self.second.is_none() {
            1
        } else if self.third.is_none() {
            2
        } else {
            3
        }
    }

    /// The suit of the first card, if a card was played.
    pub fn called_suit(&self) -> (suit: Option<Suit>)
        ensures
            suit == self@.called_suit(),
    {
        match self.first {
            Some(play) => Some(play.card.suit),
            None => None,
        }
    }

    /// The side that plays next.
    pub fn current_side(&self) -> (side: Side)
        ensures
            side == self@.turn(),
    {
        proof {
            use_type_invariant(self);
        }
        match (self.first, self.second, self.third) {
            (_, _, Some(c)) => c.side.next(),
            (_, Some(b), None) => b.side.next(),
            (Some(a), None, None) => a.side.next(),
            (None, None, None) => self.leader,
        }
    }

    /// Whether `card` lies on the table.
    pub fn contains(&self, card: Card) -> (found: bool)
        ensures
            found == self@.cards().contains(card),
    {
        proof {
            use_type_invariant(self);
        }
        let found = match self.first {
            Some(a) => a.card == card,
            None => false,
        } || match self.second {
            Some(b) => b.card == card,
            None => false,
        } || match self.third {
            Some(c) => c.card == card,
            None => false,
        };
        proof {
            let cards = self@.cards();
            if found {
                let i: int = if self.first is Some && self.first->0.card == card {
                    0
                } else if self.second is Some && self.second->0.card == card {
                    1
                } else {
                    2
                };
                assert(cards[i] == card);
            }
        }
        found
    }

    /// Records that `side` played `card`. A card that lies on the table
    /// already is not laid again. Returns whether the play was recorded.
    pub fn play(&mut self, trump: Trump, side: Side, card: Card) -> (played: bool)
        ensures
            played == !old(self)@.cards().contains(card),
            final(self)@ == old(self)@.play(trump, side, card),
            old(self)@.wf(),
            final(self)@.wf(),
    {
        proof {
            use_type_invariant(&*self);
        }
        if self.contains(card) {
            return false;
        }
        let ghost before = self@;
        let ghost longer = TrickView {
            leader: if before.plays.len() > 0 {
                before.leader
            } else {
                side
            },
            plays: before.plays.push(Play { side, card }),
        };
        assert(longer.cards() =~= before.cards().push(card));
        assert(longer.cards().no_duplicates()) by {
            let cards = longer.cards();
            assert forall|i: int, j: int| 0 <= i < cards.len() && 0 <= j < cards.len() && i
                != j implies cards[i] != cards[j] by {
                if i < before.cards().len() {
                    assert(before.cards().contains(cards[i]));
                }
                if j < before.cards().len() {
                    assert(before.cards().contains(cards[j]));
                }
            }
        }
        let play = Play { side, card };
        match (self.first, self.second, self.third) {
            (Some(a), Some(b), Some(c)) => {
                assert(longer.plays =~= seq![a, b, c, play]);
                assert(longer.cards() =~= seq![a.card, b.card, c.card, card]);
                let winner = trick_winner(trump, a.card, b.card, c.card, card);
                let taker = match winner {
                    0 => a.side,
                    1 => b.side,
                    2 => c.side,
                    _ => side,
                };
                *self = Trick::new(taker);
            },
            (Some(a), Some(b), None) => {
                assert(longer.plays =~= seq![a, b, play]);
                self.third = Some(play);
            },
            (Some(a), None, _) => {
                assert(longer.plays =~= seq![a, play]);
                self.second = Some(play);
            },
            (None, _, _) => {
                assert(longer.plays =~= seq![play]);
                *self = Trick { leader: side, first: Some(play), second: None, third: None };
            },
        }
        true
    }
}

/// The position of the card that takes a full trick.
fn trick_winner(trump: Trump, first: Card, second: Card, third: Card, fourth: Card) -> (pos: u8)
    requires
        seq![first, second, third, fourth].no_duplicates(),
    ensures
        pos == winning_position(trump, seq![first, second, third, fourth]),
        wins_at(trump, seq![first, second, third, fourth], pos as int),
{
    let ghost cards = seq![first, second, third, fourth];
    let ghost indices = seq![
        first.spec_index(),
        second.spec_index(),
        third.spec_index(),
        fourth.spec_index(),
    ];
    proof {
        assert forall|i: int, j: int|
            0 <= i < indices.len() && 0 <= j < indices.len() && i != j implies indices[i]
            != indices[j] by {
            lemma_card_index_roundtrip(cards[i]);
            lemma_card_index_roundtrip(cards[j]);
        }
    }
    let pos = solver_winner(
        trump.suit_index(),
        first.index(),
        second.index(),
        third.index(),
        fourth.index(),
    );
    proof {
        lemma_trick_by_index(trump, cards, indices, pos as int);
        lemma_winner_is_unique(trump, cards, pos as int, pos as int);
    }
    pos
}

/// A position that takes the trick of the cards' deck indices takes the trick
/// of the cards.
proof fn lemma_trick_by_index(trump: Trump, cards: Seq<Card>, indices: Seq<u8>, pos: int)
    requires
        cards.len() == indices.len(),
        cards.len() > 0,
        forall|i: int| 0 <= i < cards.len() ==> indices[i] == cards[i].spec_index(),
        takes_trick(trump.spec_suit_index(), indices, pos),
    ensures
        wins_at(trump, cards, pos),
{
    assert forall|i: int| 0 <= i < cards.len() implies indices[i] / 13 == cards[i].suit.spec_index()
        && indices[i] % 13 == cards[i].figure.spec_rank() by {
        lemma_card_index_roundtrip(cards[i]);
    }
    let by_index = deciding_suit_index(trump.spec_suit_index(), indices);
    let suit = deciding_suit(trump, cards);
    match trump {
        Trump::Colored(t) => {
            if exists|i: int| 0 <= i < cards.len() && cards[i].suit == t {
                let i = choose|i: int| 0 <= i < cards.len() && cards[i].suit == t;
                assert(indices[i] / 13 == t.spec_index());
            }
            if exists|i: int| 0 <= i < indices.len() && indices[i] / 13 == t.spec_index() {
                let i = choose|i: int| 0 <= i < indices.len() && indices[i] / 13 == t.spec_index();
                assert(cards[i].suit == t);
            }
        },
        Trump::NoTrump => {},
    }
    assert(by_index == suit.spec_index());
    assert forall|q: int| 0 <= q < cards.len() && cards[q].suit == suit implies cards[q].figure.spec_rank()
        <= cards[pos].figure.spec_rank() by {
        assert(indices[q] / 13 == by_index);
        assert(indices[q] <= indices[pos]);
    }
}

} // verus!
