//! The four seats at the table.

use vstd::prelude::*;

verus! {

/// A seat at the table. Play proceeds clockwise: North, East, South, West.
#[derive(Clone, Copy, Debug, PartialEq, Eq, Structural, Hash)]
pub enum Side {
    North,
    East,
    South,
    West,
}

impl Side {
    /// Position of the seat in clockwise order, starting at North.
    pub open spec fn spec_index(self) -> u8 {
        match self {
            Side::North => 0,
            Side::East => 1,
            Side::South => 2,
            Side::West => 3,
        }
    }

    /// The seat at a clockwise position; positions wrap around the table.
    pub open spec fn spec_from_index(i: int) -> Side {
        let k = i % 4;
        if k == 0 {
            Side::North
        } else if k == 1 {
            Side::East
        } else if k == 2 {
            Side::South
        } else {
            Side::West
        }
    }

    /// The seat `n` places further clockwise.
    pub open spec fn spec_next_i(self, n: int) -> Side {
        Side::spec_from_index(self.spec_index() + n)
    }

    /// The seat that plays after this one.
    pub open spec fn spec_next(self) -> Side {
        self.spec_next_i(1)
    }

    /// The seat directly across the table.
    pub open spec fn spec_partner(self) -> Side {
        self.spec_next_i(2)
    }

    #[verifier::when_used_as_spec(spec_index)]
    pub fn index(self) -> (i: u8)
        ensures
            i == self.spec_index(),
            i < 4,
    {
        match self {
            Side::North => 0,
            Side::East => 1,
            Side::South => 2,
            Side::West => 3,
        }
    }

    /// The seat at a clockwise position, counted from North and wrapping around.
    pub fn from_index(i: u8) -> (s: Side)
        ensures
            s == Side::spec_from_index(i as int),
    {
        match i % 4 {
            0 => Side::North,
            1 => Side::East,
            2 => Side::South,
            _ => Side::West,
        }
    }

    #[verifier::when_used_as_spec(spec_next)]
    pub fn next(self) -> (s: Side)
        ensures
            s == self.spec_next(),
    {
        match self {
            Side::North => Side::East,
            Side::East => Side::South,
            Side::South => Side::West,
            Side::West => Side::North,
        }
    }

    /// The seat `n` places further clockwise.
    pub fn next_i(self, n: u8) -> (s: Side)
        ensures
            s == self.spec_next_i(n as int),
    {
        Side::from_index(self.index() + n % 4)
    }

    #[verifier::when_used_as_spec(spec_partner)]
    pub fn partner(self) -> (s: Side)
        ensures
            s == self.spec_partner(),
    {
        match self {
            Side::North => Side::South,
            Side::East => Side::West,
            Side::South => Side::North,
            Side::West => Side::East,
        }
    }
}

/// Each seat has exactly one partner: the partner is another seat, and the
/// partner of the partner is the seat itself.
pub proof fn lemma_partner_is_involution(s: Side)
    ensures
        s.spec_partner() != s,
        s.spec_partner().spec_partner() == s,
{
}

/// The seats form a cycle of length four.
pub proof fn lemma_seats_are_cyclic(s: Side, n: int)
    requires
        0 <= n,
    ensures
        s.spec_next_i(0) == s,
        s.spec_next_i(n + 4) == s.spec_next_i(n),
        s.spec_next_i(n).spec_next() == s.spec_next_i(n + 1),
        s.spec_next_i(n) == s <==> n % 4 == 0,
{
}

} // verus!
