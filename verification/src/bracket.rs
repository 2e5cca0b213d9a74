//! The bracket that every searcher narrows.

use vstd::prelude::*;

verus! {

/// Which end of the bracket a successful candidate moves.
#[derive(Clone, Copy, Debug, PartialEq, Eq)]
pub enum Direction {
    /// The search is for the largest tolerated value: a candidate that held up raises `lo`,
    /// one that was overloaded lowers `hi`.
    Rising,
    /// The search is for the smallest tolerated value: a candidate that held up lowers `hi`,
    /// one that was overloaded raises `lo`.
    Falling,
}

/// The half-open interval `[lo, hi)` in which the cliff is currently known to lie.
///
/// `hi` is `None` until an upper bound has been found.
#[derive(Clone, Copy, Debug, PartialEq, Eq)]
pub struct Bracket {
    /// The lower end, which belongs to the bracket.
    pub lo: usize,
    /// The upper end, which does not.
    pub hi: Option<usize>,
}

/// Twice `n`, held at `usize::MAX` where the product would not fit.
pub open spec fn doubled(n: usize) -> usize {
    if 2 * n > usize::MAX {
        usize::MAX
    } else {
        (2 * n) as usize
    }
}

/// The point halfway between `lo` and `hi`, rounded towards `lo`.
pub open spec fn midpoint(lo: usize, hi: usize) -> int {
    lo + (hi - lo) / 2
}

/// Whether a system with its cliff at `cliff` keeps up with `value`. In a rising search the cliff
/// is the largest value that the system keeps up with, in a falling search the smallest.
pub open spec fn keeps_up(direction: Direction, cliff: usize, value: usize) -> bool {
    match direction {
        Direction::Rising => value <= cliff,
        Direction::Falling => value >= cliff,
    }
}

impl Bracket {
    /// The bracket tells the truth about a system with its cliff at `cliff`.
    ///
    /// In a rising search the system keeps up with the lower end, and not with the upper end
    /// once there is one. In a falling search it keeps up with the upper end, and not with the
    /// lower end unless that is still `0`.
    pub open spec fn encloses(self, direction: Direction, cliff: usize) -> bool {
        match direction {
            Direction::Rising => {
                &&& keeps_up(direction, cliff, self.lo)
                &&& self.hi matches Some(h) ==> !keeps_up(direction, cliff, h)
            },
            Direction::Falling => {
                &&& keeps_up(direction, cliff, self.upper())
                &&& self.lo == 0 || !keeps_up(direction, cliff, self.lo)
            },
        }
    }

    /// The upper end as a number: `usize::MAX` stands for "no upper bound yet".
    pub open spec fn upper(self) -> usize {
        match self.hi {
            Some(h) => h,
            None => usize::MAX,
        }
    }

    /// How far apart the two ends are.
    pub open spec fn width(self) -> int {
        self.upper() - self.lo
    }

    /// The lower end does not lie above the upper end.
    pub open spec fn ordered(self) -> bool {
        self.lo <= self.upper()
    }

    /// `v` lies between the two ends, both included.
    pub open spec fn holds(self, v: usize) -> bool {
        self.lo <= v <= self.upper()
    }

    /// `self` lies within `outer`: its lower end is no lower, its upper end no higher.
    pub open spec fn within(self, outer: Bracket) -> bool {
        outer.lo <= self.lo && self.upper() <= outer.upper()
    }

    /// The bracket once the outcome of trying `value` is known.
    pub open spec fn resolved(
        self,
        direction: Direction,
        value: usize,
        overloaded: bool,
    ) -> Bracket {
        match direction {
            Direction::Rising => if overloaded {
                Bracket { hi: Some(value), ..self }
            } else {
                Bracket { lo: value, ..self }
            },
            Direction::Falling => if overloaded {
                Bracket { lo: value, ..self }
            } else {
                Bracket { hi: Some(value), ..self }
            },
        }
    }

    /// The value to try next: twice `lo` while there is no upper bound, the midpoint after.
    pub open spec fn candidate(self) -> usize {
        match self.hi {
            None => doubled(self.lo),
            Some(h) => midpoint(self.lo, h) as usize,
        }
    }

    /// The upper end as a number.
    pub fn upper_end(&self) -> (r: usize)
        ensures
            r == self.upper(),
        no_unwind
    {
        match self.hi {
            Some(h) => h,
            None => usize::MAX,
        }
    }

    /// The distance between the two ends.
    pub fn span(&self) -> (r: usize)
        requires
            self.ordered(),
        ensures
            r == self.width(),
        no_unwind
    {
        self.upper_end() - self.lo
    }

    /// Takes the outcome of trying `value` into the bracket.
    pub fn resolve(&mut self, direction: Direction, value: usize, overloaded: bool)
        ensures
            *final(self) == old(self).resolved(direction, value, overloaded),
        no_unwind
    {
        match direction {
            Direction::Rising => {
                if overloaded {
                    self.hi = Some(value);
                } else {
                    self.lo = value;
                }
            },
            Direction::Falling => {
                if overloaded {
                    self.lo = value;
                } else {
                    self.hi = Some(value);
                }
            },
        }
    }

    /// Computes the value to try next.
    pub fn next_candidate(&self) -> (r: usize)
        requires
            self.ordered(),
        ensures
            r == self.candidate(),
            self.holds(r),
        no_unwind
    {
        match self.hi {
            None => if self.lo > usize::MAX / 2 {
                usize::MAX
            } else {
                2 * self.lo
            },
            Some(h) => self.lo + (h - self.lo) / 2,
        }
    }
}

/// Resolving a candidate that lies in an ordered bracket leaves the bracket ordered and no wider:
/// `lo` never falls and `hi` never rises, whichever way the search runs and whatever the outcome.
pub proof fn lemma_resolved_narrows(
    b: Bracket,
    direction: Direction,
    value: usize,
    overloaded: bool,
)
    requires
        b.ordered(),
        b.holds(value),
    ensures
        b.resolved(direction, value, overloaded).ordered(),
        b.resolved(direction, value, overloaded).within(b),
{
}

/// The next candidate of an ordered bracket lies inside it.
pub proof fn lemma_candidate_inside(b: Bracket)
    requires
        b.ordered(),
    ensures
        b.holds(b.candidate()),
        b.hi is Some ==> b.candidate() == midpoint(b.lo, b.upper()),
        b.hi is Some && b.width() > 0 ==> b.candidate() < b.upper(),
{
}

} // verus!
