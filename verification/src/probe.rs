//! The candidate a searcher has handed out, and what it has heard about it.

use vstd::prelude::*;

verus! {

/// Where a searcher stands between two calls.
///
/// A report of overload can only be recorded against a candidate that is out with the caller,
/// so there is no way to hold a report without a candidate.
#[derive(Clone, Copy, Debug, PartialEq, Eq)]
pub enum Probe {
    /// No candidate has been handed out yet.
    Unstarted,
    /// `value` is out with the caller; `overloaded` tells whether the caller has reported that
    /// the system could not keep up with it.
    Awaiting { value: usize, overloaded: bool },
    /// The search is over: no candidate is out and none will be computed.
    Finished,
}

impl Probe {
    /// The candidate whose outcome is still to be taken into the bracket, if there is one.
    pub open spec fn pending(self) -> Option<usize> {
        match self {
            Probe::Awaiting { value, .. } => Some(value),
            _ => None,
        }
    }

    /// The probe after the caller has reported an overload: the candidate that is out is marked,
    /// and where none is out nothing changes.
    pub open spec fn reported(self) -> Probe {
        match self {
            Probe::Awaiting { value, .. } => Probe::Awaiting { value, overloaded: true },
            _ => self,
        }
    }

    /// Records a report of overload against the candidate that is out, if any.
    pub fn report(&mut self)
        ensures
            *final(self) == old(self).reported(),
        no_unwind
    {
        match *self {
            Probe::Awaiting { value, .. } => {
                *self = Probe::Awaiting { value, overloaded: true };
            },
            _ => {},
        }
    }
}

} // verus!
