//! Find the load at which a system under test falls over.
//!
//! A benchmark offers the system a load and tells whether the system kept up. The searchers in
//! this crate decide which load to offer next. [`ExponentialCliffSearcher`] doubles the load
//! until the system falls over and then bisects between the last load that held and the first
//! that did not. [`BinaryMinSearcher`] bisects between `0` and a starting value for the
//! _smallest_ tolerated value of a parameter. [`LoadIterator`] walks a list of loads chosen by
//! hand and stops at the first that is too much. All of them are driven the same way, through
//! [`CliffSearch`]: ask for a value with `next`, try it, call `overloaded` if the system did not
//! keep up, and read the bracket found so far with `estimate`.
//!
//! ```
//! use cliff::ExponentialCliffSearcher;
//! # let benchmark = |load: usize| -> bool { load <= 12345 };
//!
//! let mut loads = ExponentialCliffSearcher::new(500);
//! while let Some(load) = loads.next() {
//!     if !benchmark(load) {
//!         loads.overloaded();
//!     }
//! }
//! let supported = loads.estimate();
//! assert!(supported.start <= 12345 && 12345 < supported.end);
//! ```
//!
//! Step by step:
//!
//! ```
//! use cliff::ExponentialCliffSearcher;
//!
//! let mut load = ExponentialCliffSearcher::new(500);
//! // the starting load is the first to be tried
//! assert_eq!(load.next(), Some(500));
//! // nothing was reported, so the load is doubled
//! assert_eq!(load.next(), Some(1000));
//! assert_eq!(load.next(), Some(2000));
//! // the system did not keep up with 2000
//! load.overloaded();
//! // the cliff lies between 1000 and 2000: the middle is tried
//! assert_eq!(load.next(), Some(1500));
//! // 1500 held up, so the cliff lies between 1500 and 2000
//! assert_eq!(load.next(), Some(1750));
//! load.overloaded();
//! // the bracket from 1500 to 1750 is as narrow as asked for: half the starting load
//! assert_eq!(load.next(), None);
//! assert_eq!(load.estimate(), 1500..1750);
//! ```
//!
//! What a searcher does is laid down in the contracts of its functions, over a plain model of
//! its state: [`state::SearchState`] for the bisecting searchers,
//! [`exponential::ExponentialState`] where samples are filled in, and [`linear::WalkState`] for
//! the walk along a list. The proof functions beside each model state what holds of every run:
//! that the bracket only ever narrows, that a search which is over stays over, and under which
//! conditions it is bound to end.

use vstd::prelude::*;
use crate::bracket::{Bracket, Direction};
use crate::probe::Probe;

pub mod bracket;
pub mod probe;
pub mod state;
pub mod binmin;
pub mod binary;
pub mod exponential;
pub mod linear;

pub use crate::binary::BinaryCliffSearcher;
pub use crate::binmin::BinaryMinSearcher;
pub use crate::exponential::ExponentialCliffSearcher;
pub use crate::linear::LoadIterator;

verus! {

/// What every searcher offers.
///
/// The four spec functions describe a searcher as far as all of them agree: the bracket found so
/// far, the candidate that is out, which end of the bracket a success moves, and whether the
/// searcher has said its last word.
pub trait CliffSearch {
    /// The bracket that `estimate` reports.
    spec fn bracket(&self) -> Bracket;

    /// The candidate that is out with the caller, if any.
    spec fn probe(&self) -> Probe;

    /// Which end of the bracket a candidate that held up moves.
    spec fn direction(&self) -> Direction;

    /// No further value will be handed out.
    spec fn exhausted(&self) -> bool;

    /// Hands out the next value to try, or `None` when there is none.
    ///
    /// The outcome of the candidate that was out is taken into the bracket first. A searcher
    /// that is exhausted stays so and returns `None`.
    fn next(&mut self) -> (r: Option<usize>)
        ensures
            final(self).bracket() == (match old(self).probe() {
                Probe::Awaiting { value, overloaded } => old(self).bracket().resolved(
                    old(self).direction(),
                    value,
                    overloaded,
                ),
                _ => old(self).bracket(),
            }),
            final(self).probe() matches Probe::Awaiting { value, overloaded } ==> r == Some(value)
                && !overloaded,
            old(self).probe() is Finished ==> final(self).probe() is Finished,
            old(self).exhausted() ==> r is None && final(self).exhausted(),
            final(self).direction() == old(self).direction(),
    ;

    /// Tells the searcher that the system could not keep up with the value handed out last.
    ///
    /// Nothing but the mark on the candidate that is out changes; the bracket moves only with
    /// the next call of `next`.
    fn overloaded(&mut self)
        ensures
            final(self).bracket() == old(self).bracket(),
            final(self).probe() == old(self).probe().reported(),
            final(self).direction() == old(self).direction(),
            final(self).exhausted() == old(self).exhausted(),
    ;

    /// The bracket found so far, as a range whose end is `usize::MAX` while no upper end is
    /// known.
    fn estimate(&self) -> (r: core::ops::Range<usize>)
        ensures
            r.start == self.bracket().lo,
            r.end == self.bracket().upper(),
    ;
}

} // verus!
