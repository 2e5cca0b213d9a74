//! Doubling, then bisection, for the largest load that the system still tolerates.

use vstd::prelude::*;
use crate::bracket::{Bracket, Direction};
use crate::probe::Probe;
use crate::state::SearchState;
use crate::CliffSearch;

verus! {

/// Finds the maximum supported load: it doubles the load until the system falls over and then
/// bisects between the last load that held and the first that did not.
#[derive(Debug)]
pub struct BinaryCliffSearcher {
    state: SearchState,
}

impl View for BinaryCliffSearcher {
    type V = SearchState;

    closed spec fn view(&self) -> SearchState {
        self.state
    }
}

impl BinaryCliffSearcher {
    /// What holds of every searcher of this type: its state is well formed and it searches
    /// upwards.
    #[verifier::type_invariant]
    pub open spec fn inv(self) -> bool {
        &&& self@.wf()
        &&& self@.direction is Rising
    }

    /// Searches upwards from `start`, until the maximum is known to within `start / 2`.
    pub fn new(start: usize) -> (s: Self)
        ensures
            s@ == SearchState::rising(start, start / 2),
    {
        Self::until(start, start / 2)
    }

    /// Searches upwards from `start`, until the maximum is known to within `min_width`.
    pub fn until(start: usize, min_width: usize) -> (s: Self)
        ensures
            s@ == SearchState::rising(start, min_width),
    {
        BinaryCliffSearcher { state: SearchState::begin_rising(start, min_width) }
    }

    /// Hands out the next load to try, or `None` once the search is over.
    pub fn next(&mut self) -> (r: Option<usize>)
        ensures
            final(self)@ == old(self)@.after_next(),
            r == old(self)@.offered(),
            final(self)@.bracket.within(old(self)@.bracket),
    {
        proof {
            use_type_invariant(&*self);
        }
        self.state.advance()
    }

    /// Tells the searcher that the system could not keep up with the load handed out last.
    ///
    /// The report is taken into the bracket by the next call of `next`. Where no load is out
    /// the call changes nothing.
    pub fn overloaded(&mut self)
        ensures
            final(self)@ == old(self)@.after_overloaded(),
    {
        proof {
            use_type_invariant(&*self);
        }
        self.state.mark_overloaded();
    }

    /// The range in which the maximum is currently known to lie.
    pub fn estimate(&self) -> (r: core::ops::Range<usize>)
        ensures
            r.start == self@.bracket.lo,
            r.end == self@.bracket.upper(),
    {
        self.state.estimate()
    }
}

impl Clone for BinaryCliffSearcher {
    /// A copy in the same state, which from then on runs on its own.
    fn clone(&self) -> (r: Self)
        ensures
            r@ == self@,
    {
        proof {
            use_type_invariant(self);
        }
        BinaryCliffSearcher { state: self.state }
    }
}

impl CliffSearch for BinaryCliffSearcher {
    open spec fn bracket(&self) -> Bracket {
        self@.bracket
    }

    open spec fn probe(&self) -> Probe {
        self@.probe
    }

    open spec fn direction(&self) -> Direction {
        self@.direction
    }

    open spec fn exhausted(&self) -> bool {
        self@.terminal()
    }

    fn next(&mut self) -> (r: Option<usize>)
        ensures
            final(self)@ == old(self)@.after_next(),
            r == old(self)@.offered(),
    {
        BinaryCliffSearcher::next(self)
    }

    fn overloaded(&mut self)
        ensures
            final(self)@ == old(self)@.after_overloaded(),
    {
        BinaryCliffSearcher::overloaded(self)
    }

    fn estimate(&self) -> (r: core::ops::Range<usize>) {
        BinaryCliffSearcher::estimate(self)
    }
}

} // verus!
