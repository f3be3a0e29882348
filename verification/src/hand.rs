//! Hands: the sets of cards that the players hold.
//!
//! A hand is kept in a `CardSet` of the `karty` crate. What that crate does is
//! taken on trust, in the contracts of the private functions at the head of this
//! file; everything else is proved from them.

use brydz_core::karty::cards::Card as DeckCard;
use brydz_core::karty::hand::CardSet;
use brydz_core::karty::hand::HandTrait;
use brydz_core::karty::suits::Suit as DeckSuit;
use brydz_core::karty::symbol::CardSymbol;
use vstd::prelude::*;

use crate::cards::Card;
use crate::cards::Suit;
use crate::cards::lemma_card_index_roundtrip;
use crate::cards::lemma_index_card_roundtrip;

verus! {

/// `karty::hand::CardSet`, a set of cards of the standard deck, opaque to the verifier.
#[verifier::external_type_specification]
#[verifier::external_body]
pub struct ExCardSet(CardSet);

/// The deck indices of the cards in a `CardSet`: `karty` numbers a card
/// `13 * suit + figure` (its `usize_index`), and keeps one bit per index.
pub uninterp spec fn card_set_content(cards: CardSet) -> Set<u8>;

/// `CardSet::empty` (`HandTrait`): the set without cards.
#[verifier::external_body]
fn card_set_empty() -> (cards: CardSet)
    ensures
        card_set_content(cards) == Set::<u8>::empty(),
{
    CardSet::empty()
}

/// `CardSet::insert_card` (`HandTrait`) on the card that `Card::from_usize_index`
/// gives for `index`: the card is in the set afterwards, and the call succeeds
/// exactly when it was not there before.
#[verifier::external_body]
fn card_set_insert(cards: &mut CardSet, index: u8) -> (inserted: bool)
    requires
        index < 52,
    ensures
        inserted == !card_set_content(*old(cards)).contains(index),
        card_set_content(*final(cards)) == card_set_content(*old(cards)).insert(index),
{
    cards.insert_card(DeckCard::from_usize_index(index as usize).unwrap()).is_ok()
}

/// `CardSet::remove_card` (`HandTrait`) on the card with deck index `index`: the
/// card is not in the set afterwards, and the call succeeds exactly when it was
/// there before.
#[verifier::external_body]
fn card_set_remove(cards: &mut CardSet, index: u8) -> (removed: bool)
    requires
        index < 52,
    ensures
        removed == card_set_content(*old(cards)).contains(index),
        card_set_content(*final(cards)) == card_set_content(*old(cards)).remove(index),
{
    cards.remove_card(&DeckCard::from_usize_index(index as usize).unwrap()).is_ok()
}

/// `CardSet::contains` (`HandTrait`) on the card with deck index `index`.
#[verifier::external_body]
fn card_set_contains(cards: &CardSet, index: u8) -> (found: bool)
    requires
        index < 52,
    ensures
        found == card_set_content(*cards).contains(index),
{
    cards.contains(&DeckCard::from_usize_index(index as usize).unwrap())
}

/// `CardSet::only_in_suit` on the suit that `Suit::from_usize_index` gives for
/// `suit`: the cards of the set whose index lies in that suit's thirteen.
#[verifier::external_body]
fn card_set_only_in_suit(cards: &CardSet, suit: u8) -> (subset: CardSet)
    requires
        suit < 4,
    ensures
        card_set_content(subset) == card_set_content(*cards).filter(|i: u8| i / 13 == suit),
{
    cards.only_in_suit(&DeckSuit::from_usize_index(suit as usize).unwrap())
}

/// `CardSet::into_iter`, each card handed out as its `usize_index`: the iterator
/// yields the cards of the set once each, from the lowest index to the highest.
/// It fails on a set with an index outside the deck.
#[verifier::external_body]
fn card_set_indices(cards: &CardSet) -> (indices: Vec<u8>)
    requires
        forall|i: u8| card_set_content(*cards).contains(i) ==> i < 52,
    ensures
        forall|i: int, j: int| 0 <= i < j < indices.len() ==> indices[i] < indices[j],
        forall|i: u8| card_set_content(*cards).contains(i) <==> indices@.contains(i),
{
    cards.into_iter().map(|card| card.usize_index() as u8).collect()
}

/// `v` lists the cards of `s` once each, by ascending deck index.
pub open spec fn is_listing(v: Seq<Card>, s: Set<Card>) -> bool {
    &&& forall|i: int, j: int| 0 <= i < j < v.len() ==> v[i].spec_index() < v[j].spec_index()
    &&& forall|c: Card| s.contains(c) <==> v.contains(c)
}

/// The cards of `s` with a deck index below `n`, by ascending deck index.
pub open spec fn listing_below(s: Set<Card>, n: int) -> Seq<Card>
    decreases n,
{
    if n <= 0 {
        Seq::empty()
    } else if s.contains(Card::spec_from_index(n - 1)) {
        listing_below(s, n - 1).push(Card::spec_from_index(n - 1))
    } else {
        listing_below(s, n - 1)
    }
}

/// The cards of `s` once each, by ascending deck index.
pub open spec fn listing_of(s: Set<Card>) -> Seq<Card> {
    listing_below(s, 52)
}

/// The cards of `s` in suit `suit`.
pub open spec fn in_suit(s: Set<Card>, suit: Suit) -> Set<Card> {
    s.filter(|c: Card| c.suit == suit)
}

/// The set of cards held by one side.
#[derive(Clone, Copy, Debug, PartialEq, Eq)]
pub struct Hand {
    cards: CardSet,
}

impl View for Hand {
    type V = Set<Card>;

    closed spec fn view(&self) -> Set<Card> {
        Set::new(|c: Card| card_set_content(self.cards).contains(c.spec_index()))
    }
}

impl Hand {
    #[verifier::type_invariant]
    spec fn within_deck(self) -> bool {
        forall|i: u8| card_set_content(self.cards).contains(i) ==> i < 52
    }

    /// The hand without cards.
    pub fn new() -> (hand: Hand)
        ensures
            hand@ == Set::<Card>::empty(),
    {
        let hand = Hand { cards: card_set_empty() };
        assert(hand@ =~= Set::<Card>::empty());
        hand
    }

    /// The hand that holds exactly the given cards.
    pub fn from_cards(cards: &[Card]) -> (hand: Hand)
        ensures
            hand@ == cards@.to_set(),
    {
        let mut set = card_set_empty();
        let mut k: usize = 0;
        while k < cards.len()
            invariant
                k <= cards.len(),
                forall|i: u8| card_set_content(set).contains(i) ==> i < 52,
                forall|c: Card|
                    card_set_content(set).contains(c.spec_index()) <==> cards@.take(
                        k as int,
                    ).contains(c),
            decreases cards.len() - k,
        {
            let card = cards[k];
            card_set_insert(&mut set, card.index());
            proof {
                assert forall|c: Card|
                    card_set_content(set).contains(c.spec_index()) <==> cards@.take(
                        k as int + 1,
                    ).contains(c) by {
                    lemma_card_index_roundtrip(c);
                    lemma_card_index_roundtrip(card);
                    let shorter = cards@.take(k as int);
                    let longer = cards@.take(k as int + 1);
                    assert(longer =~= shorter.push(card));
                    if shorter.contains(c) {
                        let j = choose|j: int| 0 <= j < shorter.len() && shorter[j] == c;
                        assert(longer[j] == c);
                    }
                    if c == card {
                        assert(longer[k as int] == c);
                    }
                }
            }
            k += 1;
        }
        let hand = Hand { cards: set };
        proof {
            assert(cards@.take(k as int) =~= cards@);
            assert(hand@ =~= cards@.to_set());
        }
        hand
    }

    /// Whether the hand holds `card`.
    pub fn contains(&self, card: Card) -> (found: bool)
        ensures
            found == self@.contains(card),
    {
        card_set_contains(&self.cards, card.index())
    }

    /// Takes `card` out of the hand. Returns whether the hand held it.
    pub fn remove(&mut self, card: Card) -> (removed: bool)
        ensures
            removed == old(self)@.contains(card),
            final(self)@ == old(self)@.remove(card),
    {
        proof {
            use_type_invariant(&*self);
        }
        let mut set = self.cards;
        let removed = card_set_remove(&mut set, card.index());
        proof {
            assert forall|c: Card|
                card_set_content(set).contains(c.spec_index()) <==> (old(self)@.contains(c) && c
                    != card) by {
                lemma_card_index_roundtrip(c);
                lemma_card_index_roundtrip(card);
            }
        }
        self.cards = set;
        assert(self@ =~= old(self)@.remove(card));
        removed
    }

    /// The cards of the hand, by ascending deck index.
    pub fn cards(&self) -> (list: Vec<Card>)
        ensures
            is_listing(list@, self@),
            list.len() == self@.len(),
            self@.finite(),
    {
        proof {
            use_type_invariant(self);
        }
        let indices = card_set_indices(&self.cards);
        proof {
            assert forall|i: int| 0 <= i < indices.len() implies indices[i] < 52 by {
                assert(indices@.contains(indices[i]));
            }
        }
        let list = cards_at(&indices);
        proof {
            assert forall|c: Card| self@.contains(c) <==> list@.contains(c) by {
                lemma_card_index_roundtrip(c);
                if self@.contains(c) {
                    let j = choose|j: int| 0 <= j < indices.len() && indices[j] == c.spec_index();
                    lemma_card_index_roundtrip(list[j]);
                    assert(list[j] == c);
                }
                if list@.contains(c) {
                    let j = choose|j: int| 0 <= j < list.len() && list[j] == c;
                    assert(indices@.contains(indices[j]));
                }
            }
            assert forall|i: int, j: int| 0 <= i < j < list.len() implies list[i].spec_index()
                < list[j].spec_index() by {
                assert(indices[i] < indices[j]);
            }
            lemma_listing_counts(list@, self@);
        }
        list
    }

    /// The cards of the hand in suit `suit`, by ascending deck index.
    pub fn cards_in_suit(&self, suit: Suit) -> (list: Vec<Card>)
        ensures
            is_listing(list@, in_suit(self@, suit)),
            list.len() == in_suit(self@, suit).len(),
    {
        proof {
            use_type_invariant(self);
        }
        let subset = card_set_only_in_suit(&self.cards, suit.index());
        let indices = card_set_indices(&subset);
        proof {
            assert forall|i: int| 0 <= i < indices.len() implies indices[i] < 52 by {
                assert(indices@.contains(indices[i]));
            }
        }
        let list = cards_at(&indices);
        proof {
            assert forall|c: Card| in_suit(self@, suit).contains(c) <==> list@.contains(c) by {
                lemma_card_index_roundtrip(c);
                if in_suit(self@, suit).contains(c) {
                    assert(card_set_content(subset).contains(c.spec_index()));
                    let j = choose|j: int| 0 <= j < indices.len() && indices[j] == c.spec_index();
                    lemma_card_index_roundtrip(list[j]);
                    assert(list[j] == c);
                }
                if list@.contains(c) {
                    let j = choose|j: int| 0 <= j < list.len() && list[j] == c;
                    assert(indices@.contains(indices[j]));
                    lemma_card_index_roundtrip(list[j]);
                }
            }
            assert forall|i: int, j: int| 0 <= i < j < list.len() implies list[i].spec_index()
                < list[j].spec_index() by {
                assert(indices[i] < indices[j]);
            }
            lemma_listing_counts(list@, in_suit(self@, suit));
        }
        list
    }

    /// The number of cards in the hand.
    pub fn len(&self) -> (n: usize)
        ensures
            n == self@.len(),
            self@.finite(),
    {
        self.cards().len()
    }

    /// Whether the hand holds no card.
    pub fn is_empty(&self) -> (empty: bool)
        ensures
            empty == (self@ == Set::<Card>::empty()),
    {
        let list = self.cards();
        proof {
            if list.len() == 0 {
                assert(self@ =~= Set::<Card>::empty());
            } else {
                assert(list@.contains(list[0]));
            }
        }
        list.len() == 0
    }
}

/// The cards at the given deck indices.
fn cards_at(indices: &Vec<u8>) -> (list: Vec<Card>)
    requires
        forall|i: int| 0 <= i < indices.len() ==> indices[i] < 52,
    ensures
        list.len() == indices.len(),
        forall|i: int| 0 <= i < list.len() ==> list[i].spec_index() == indices[i],
{
    let mut list: Vec<Card> = Vec::new();
    let mut k: usize = 0;
    while k < indices.len()
        invariant
            k <= indices.len(),
            list.len() == k,
            forall|i: int| 0 <= i < indices.len() ==> indices[i] < 52,
            forall|i: int| 0 <= i < k ==> list[i].spec_index() == indices[i],
        decreases indices.len() - k,
    {
        match Card::from_index(indices[k]) {
            Some(card) => list.push(card),
            None => {},
        }
        k += 1;
    }
    list
}

/// A listing has as many entries as the set that it lists has cards.
pub proof fn lemma_listing_counts(v: Seq<Card>, s: Set<Card>)
    requires
        is_listing(v, s),
    ensures
        s.finite(),
        s.len() == v.len(),
        v.no_duplicates(),
{
    assert(v.no_duplicates());
    assert(v.to_set() =~= s);
    v.unique_seq_to_set();
}

/// A set of cards has at most one listing.
pub proof fn lemma_listing_is_unique(v: Seq<Card>, w: Seq<Card>, s: Set<Card>)
    requires
        is_listing(v, s),
        is_listing(w, s),
    ensures
        v == w,
        v == listing_of(s),
    decreases v.len(),
{
    lemma_listing_is_unique_rec(v, w, s);
    lemma_listing_of(s);
    lemma_listing_is_unique_rec(v, listing_of(s), s);
}

/// `listing_of` lists the cards of any set of cards.
pub proof fn lemma_listing_of(s: Set<Card>)
    ensures
        is_listing(listing_of(s), s),
{
    lemma_listing_below(s, 52);
    assert forall|c: Card| s.contains(c) <==> listing_of(s).contains(c) by {
        lemma_card_index_roundtrip(c);
    }
}

proof fn lemma_listing_below(s: Set<Card>, n: int)
    requires
        0 <= n <= 52,
    ensures
        forall|i: int, j: int|
            0 <= i < j < listing_below(s, n).len() ==> listing_below(s, n)[i].spec_index()
                < listing_below(s, n)[j].spec_index(),
        forall|i: int|
            0 <= i < listing_below(s, n).len() ==> listing_below(s, n)[i].spec_index() < n,
        forall|c: Card|
            (s.contains(c) && c.spec_index() < n) <==> listing_below(s, n).contains(c),
    decreases n,
{
    if n > 0 {
        lemma_listing_below(s, n - 1);
        lemma_index_card_roundtrip(n - 1);
        let before = listing_below(s, n - 1);
        let now = listing_below(s, n);
        let top = Card::spec_from_index(n - 1);
        assert forall|c: Card| (s.contains(c) && c.spec_index() < n) <==> now.contains(c) by {
            lemma_card_index_roundtrip(c);
            if s.contains(c) && c.spec_index() < n {
                if c.spec_index() < n - 1 {
                    assert(before.contains(c));
                    let j = choose|j: int| 0 <= j < before.len() && before[j] == c;
                    assert(now[j] == c);
                } else {
                    assert(c == top);
                    assert(now[now.len() - 1] == c);
                }
            }
            if now.contains(c) {
                let j = choose|j: int| 0 <= j < now.len() && now[j] == c;
                if j < before.len() {
                    assert(before[j] == c);
                    assert(before.contains(c));
                }
            }
        }
    }
}

proof fn lemma_listing_is_unique_rec(v: Seq<Card>, w: Seq<Card>, s: Set<Card>)
    requires
        is_listing(v, s),
        is_listing(w, s),
    ensures
        v == w,
    decreases v.len(),
{
    lemma_listing_counts(v, s);
    lemma_listing_counts(w, s);
    if v.len() > 0 {
        let n = v.len() - 1;
        // The last entry of either listing is the card of greatest index.
        assert(w.contains(v[n]));
        assert(v.contains(w[n]));
        let a = choose|a: int| 0 <= a < w.len() && w[a] == v[n];
        let b = choose|b: int| 0 <= b < v.len() && v[b] == w[n];
        assert(v[n] == w[n]) by {
            lemma_card_index_roundtrip(v[n]);
            lemma_card_index_roundtrip(w[n]);
        }
        let last = v[n];
        assert forall|c: Card| s.remove(last).contains(c) <==> v.drop_last().contains(c) by {
            if v.drop_last().contains(c) {
                let j = choose|j: int| 0 <= j < n && v.drop_last()[j] == c;
                assert(v[j] == c);
                assert(v.contains(c));
            }
            if s.remove(last).contains(c) {
                let j = choose|j: int| 0 <= j < v.len() && v[j] == c;
                assert(v.drop_last()[j] == c);
            }
        }
        assert forall|c: Card| s.remove(last).contains(c) <==> w.drop_last().contains(c) by {
            if w.drop_last().contains(c) {
                let j = choose|j: int| 0 <= j < n && w.drop_last()[j] == c;
                assert(w[j] == c);
                assert(w.contains(c));
            }
            if s.remove(last).contains(c) {
                let j = choose|j: int| 0 <= j < w.len() && w[j] == c;
                assert(w.drop_last()[j] == c);
            }
        }
        lemma_listing_is_unique_rec(v.drop_last(), w.drop_last(), s.remove(last));
        assert(v =~= v.drop_last().push(last));
        assert(w =~= w.drop_last().push(last));
    } else {
        assert(v =~= w);
    }
}

} // verus!
