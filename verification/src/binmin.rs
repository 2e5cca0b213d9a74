//! Bisection for the smallest value of a parameter that the system still tolerates.

use vstd::prelude::*;
use crate::bracket::{Bracket, Direction};
use crate::probe::Probe;
use crate::state::SearchState;
use crate::CliffSearch;

verus! {

/// Finds the _minimum_ tolerated value of a parameter by bisecting between `0` and a starting
/// value.
///
/// The starting value is the first one tried. A value the system keeps up with becomes the new
/// upper end of the bracket, one it does not keep up with the new lower end, and the middle of
/// the bracket is tried next, until the bracket is no wider than the requested width.
#[derive(Debug)]
pub struct BinaryMinSearcher {
    state: SearchState,
}

impl View for BinaryMinSearcher {
    type V = SearchState;

    closed spec fn view(&self) -> SearchState {
        self.state
    }
}

impl BinaryMinSearcher {
    /// What holds of every searcher of this type: its state is well formed, it searches
    /// downwards, and its bracket has an upper end.
    #[verifier::type_invariant]
    pub open spec fn inv(self) -> bool {
        &&& self@.wf()
        &&& self@.direction is Falling
        &&& self@.bracket.hi is Some
    }

    /// Searches for the minimum between `0` and `start`, until it is known to within
    /// `min_width`.
    pub fn until(start: usize, min_width: usize) -> (s: Self)
        ensures
            s@ == SearchState::falling(start, min_width),
    {
        BinaryMinSearcher { state: SearchState::begin_falling(start, min_width) }
    }

    /// Hands out the next value to try, or `None` once the search is over.
    pub fn next(&mut self) -> (r: Option<usize>)
        ensures
            final(self)@ == old(self)@.after_next(),
            r == old(self)@.offered(),
            final(self)@.bracket.within(old(self)@.bracket),
    {
        proof {
            use_type_invariant(&*self);
        }
        self.state.advance()
    }

    /// Tells the searcher that the system could not keep up with the value handed out last.
    ///
    /// The report is taken into the bracket by the next call of `next`. Where no value is out
    /// the call changes nothing.
    pub fn overloaded(&mut self)
        ensures
            final(self)@ == old(self)@.after_overloaded(),
    {
        proof {
            use_type_invariant(&*self);
        }
        self.state.mark_overloaded();
    }

    /// The range in which the minimum is currently known to lie.
    pub fn estimate(&self) -> (r: core::ops::Range<usize>)
        ensures
            r.start == self@.bracket.lo,
            r.end == self@.bracket.upper(),
    {
        self.state.estimate()
    }
}

impl Clone for BinaryMinSearcher {
    /// A copy in the same state, which from then on runs on its own.
    fn clone(&self) -> (r: Self)
        ensures
            r@ == self@,
    {
        proof {
            use_type_invariant(self);
        }
        BinaryMinSearcher { state: self.state }
    }
}

impl CliffSearch for BinaryMinSearcher {
    open spec fn bracket(&self) -> Bracket {
        self@.bracket
    }

    open spec fn probe(&self) -> Probe {
        self@.probe
    }

    open spec fn direction(&self) -> Direction {
        self@.direction
    }

    open spec fn exhausted(&self) -> bool {
        self@.terminal()
    }

    fn next(&mut self) -> (r: Option<usize>)
        ensures
            final(self)@ == old(self)@.after_next(),
            r == old(self)@.offered(),
    {
        BinaryMinSearcher::next(self)
    }

    fn overloaded(&mut self)
        ensures
            final(self)@ == old(self)@.after_overloaded(),
    {
        BinaryMinSearcher::overloaded(self)
    }

    fn estimate(&self) -> (r: core::ops::Range<usize>) {
        BinaryMinSearcher::estimate(self)
    }
}

} // verus!
