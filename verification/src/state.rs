//! The bracket-narrowing state machine that the bisecting searchers share.

use vstd::prelude::*;
use crate::bracket::{
    keeps_up, lemma_candidate_inside, lemma_resolved_narrows, Bracket, Direction,
};
use crate::probe::Probe;

verus! {

/// One call that a caller can make between two looks at the estimate.
#[derive(Clone, Copy, Debug, PartialEq, Eq)]
pub enum Call {
    /// Ask for the next candidate.
    Next,
    /// Report that the last candidate was too much.
    Overloaded,
}

/// Everything a bisecting searcher knows: its bracket, how narrow the bracket has to get, the
/// candidate it is waiting on, and which way outcomes move the bracket.
#[derive(Clone, Copy, Debug, PartialEq, Eq)]
pub struct SearchState {
    /// The bracket found so far.
    pub bracket: Bracket,
    /// The width at which the bracket is narrow enough.
    pub fidelity: usize,
    /// The candidate that is out, and what was reported of it.
    pub probe: Probe,
    /// Which end of the bracket a candidate that held up moves.
    pub direction: Direction,
}

impl SearchState {
    /// A search for the largest tolerated value that starts at `start`, with no upper bound.
    pub open spec fn rising(start: usize, fidelity: usize) -> SearchState {
        SearchState {
            bracket: Bracket { lo: start, hi: None },
            fidelity,
            probe: Probe::Unstarted,
            direction: Direction::Rising,
        }
    }

    /// A search for the smallest tolerated value between `0` and `start`.
    pub open spec fn falling(start: usize, fidelity: usize) -> SearchState {
        SearchState {
            bracket: Bracket { lo: 0, hi: Some(start) },
            fidelity,
            probe: Probe::Unstarted,
            direction: Direction::Falling,
        }
    }

    /// The bracket is ordered and the candidate that is out, if any, lies inside it.
    pub open spec fn wf(self) -> bool {
        &&& self.bracket.ordered()
        &&& self.probe matches Probe::Awaiting { value, .. } ==> self.bracket.holds(value)
    }

    /// The search is over.
    pub open spec fn terminal(self) -> bool {
        self.probe is Finished
    }

    /// The first candidate: the end of the bracket that the caller supplied.
    pub open spec fn opening(self) -> usize {
        match self.direction {
            Direction::Rising => self.bracket.lo,
            Direction::Falling => self.bracket.upper(),
        }
    }

    /// The bracket with the outcome of the candidate that is out taken in.
    pub open spec fn folded(self) -> Bracket {
        match self.probe {
            Probe::Awaiting { value, overloaded } => self.bracket.resolved(
                self.direction,
                value,
                overloaded,
            ),
            _ => self.bracket,
        }
    }

    /// The state after a request for the next candidate.
    ///
    /// The first request hands out the opening value. Every later one first takes the outcome
    /// of the candidate that is out into the bracket; the search then ends if the bracket is
    /// no wider than `fidelity`, and otherwise the bracket's next candidate goes out, with no
    /// report held against it. Once the search is over nothing changes any more.
    pub open spec fn after_next(self) -> SearchState {
        match self.probe {
            Probe::Unstarted => SearchState {
                probe: Probe::Awaiting { value: self.opening(), overloaded: false },
                ..self
            },
            Probe::Awaiting { .. } => if self.folded().width() <= self.fidelity {
                SearchState { bracket: self.folded(), probe: Probe::Finished, ..self }
            } else {
                SearchState {
                    bracket: self.folded(),
                    probe: Probe::Awaiting { value: self.folded().candidate(), overloaded: false },
                    ..self
                }
            },
            Probe::Finished => self,
        }
    }

    /// What a request for the next candidate returns.
    pub open spec fn offered(self) -> Option<usize> {
        self.after_next().probe.pending()
    }

    /// The state after a report of overload.
    pub open spec fn after_overloaded(self) -> SearchState {
        SearchState { probe: self.probe.reported(), ..self }
    }

    /// A number of requests after which the search is over at the latest, whatever the
    /// outcomes. It is far from the least such number, which grows with the logarithm of the
    /// width, but it falls with every request.
    pub open spec fn budget(self) -> int {
        match self.probe {
            Probe::Finished => 0,
            Probe::Unstarted => 2 * self.bracket.width() + 5,
            Probe::Awaiting { value, .. } => {
                let unbounded: int = if self.bracket.hi is None { 1 } else { 0 };
                let off_course: int = if value == self.bracket.candidate() { 0 } else { 2 };
                2 * self.bracket.width() + unbounded + off_course + 1
            },
        }
    }

    /// The calls in `calls`, made in order from this state, are those of a caller who tries
    /// every candidate on a system with its cliff at `cliff` and reports what it sees.
    pub open spec fn honest(self, cliff: usize, calls: Seq<Call>) -> bool
        decreases calls.len(),
    {
        calls.len() > 0 ==> {
            &&& honest_call(self.probe, self.direction, cliff, calls.first())
            &&& self.after(calls.first()).honest(cliff, calls.drop_first())
        }
    }

    /// The state after one call.
    pub open spec fn after(self, call: Call) -> SearchState {
        match call {
            Call::Next => self.after_next(),
            Call::Overloaded => self.after_overloaded(),
        }
    }

    /// The state after a sequence of calls, made in order.
    pub open spec fn after_all(self, calls: Seq<Call>) -> SearchState
        decreases calls.len(),
    {
        if calls.len() == 0 {
            self
        } else {
            self.after(calls.first()).after_all(calls.drop_first())
        }
    }

    /// Starts a rising search at `start`.
    pub fn begin_rising(start: usize, fidelity: usize) -> (s: SearchState)
        ensures
            s == SearchState::rising(start, fidelity),
            s.wf(),
    {
        SearchState {
            bracket: Bracket { lo: start, hi: None },
            fidelity,
            probe: Probe::Unstarted,
            direction: Direction::Rising,
        }
    }

    /// Starts a falling search below `start`.
    pub fn begin_falling(start: usize, fidelity: usize) -> (s: SearchState)
        ensures
            s == SearchState::falling(start, fidelity),
            s.wf(),
    {
        SearchState {
            bracket: Bracket { lo: 0, hi: Some(start) },
            fidelity,
            probe: Probe::Unstarted,
            direction: Direction::Falling,
        }
    }

    /// Moves to the state after a request for the next candidate and returns that candidate.
    pub fn advance(&mut self) -> (r: Option<usize>)
        requires
            old(self).wf(),
        ensures
            *final(self) == old(self).after_next(),
            r == old(self).offered(),
            final(self).wf(),
            final(self).bracket.within(old(self).bracket),
        no_unwind
    {
        match self.probe {
            Probe::Finished => None,
            Probe::Unstarted => {
                let first: usize = match self.direction {
                    Direction::Rising => self.bracket.lo,
                    Direction::Falling => self.bracket.upper_end(),
                };
                self.probe = Probe::Awaiting { value: first, overloaded: false };
                Some(first)
            },
            Probe::Awaiting { value, overloaded } => {
                proof {
                    lemma_resolved_narrows(self.bracket, self.direction, value, overloaded);
                }
                self.bracket.resolve(self.direction, value, overloaded);
                if self.bracket.span() > self.fidelity {
                    let next: usize = self.bracket.next_candidate();
                    self.probe = Probe::Awaiting { value: next, overloaded: false };
                    Some(next)
                } else {
                    self.probe = Probe::Finished;
                    None
                }
            },
        }
    }

    /// Records a report of overload against the candidate that is out, if any.
    pub fn mark_overloaded(&mut self)
        ensures
            *final(self) == old(self).after_overloaded(),
            old(self).wf() ==> final(self).wf(),
        no_unwind
    {
        self.probe.report();
    }

    /// The current bracket as a range; an end of `usize::MAX` stands for "no upper bound yet".
    pub fn estimate(&self) -> (r: core::ops::Range<usize>)
        ensures
            r.start == self.bracket.lo,
            r.end == self.bracket.upper(),
    {
        self.bracket.lo..self.bracket.upper_end()
    }
}

/// Whether a caller who tries every candidate on a system with its cliff at `cliff`, and reports
/// what it sees, can make `call` when the searcher stands at `probe`: it reports an overload only
/// of a candidate that the system did not keep up with, and it asks for the next candidate only
/// when it has reported the one that is out if and only if the system did not keep up with it.
pub open spec fn honest_call(probe: Probe, direction: Direction, cliff: usize, call: Call) -> bool {
    match (call, probe) {
        (Call::Overloaded, Probe::Awaiting { value, .. }) => !keeps_up(direction, cliff, value),
        (Call::Overloaded, _) => false,
        (Call::Next, Probe::Awaiting { value, overloaded }) => overloaded == !keeps_up(
            direction,
            cliff,
            value,
        ),
        (Call::Next, _) => true,
    }
}

/// How many of `calls` are requests for the next candidate.
pub open spec fn requests(calls: Seq<Call>) -> nat
    decreases calls.len(),
{
    if calls.len() == 0 {
        0
    } else if calls.first() is Next {
        1 + requests(calls.drop_first())
    } else {
        requests(calls.drop_first())
    }
}

/// The calls in `calls` are all reports of overload.
pub open spec fn only_reports(calls: Seq<Call>) -> bool {
    forall|i: int| 0 <= i < calls.len() ==> calls[i] is Overloaded
}

/// A search starts well formed. A rising search starts with all that lies above its starting
/// value as its bracket, a falling search with all that lies below.
pub proof fn lemma_search_starts_well_formed(start: usize, fidelity: usize)
    ensures
        SearchState::rising(start, fidelity).wf(),
        SearchState::rising(start, fidelity).bracket.width() == usize::MAX - start,
        SearchState::falling(start, fidelity).wf(),
        SearchState::falling(start, fidelity).bracket.width() == start,
{
}

/// A call leaves a well-formed state well formed, and the bracket after it lies within the
/// bracket before it.
pub proof fn lemma_call_narrows(s: SearchState, call: Call)
    requires
        s.wf(),
    ensures
        s.after(call).wf(),
        s.after(call).bracket.within(s.bracket),
        s.after(call).direction == s.direction,
        s.after(call).fidelity == s.fidelity,
{
    if let Probe::Awaiting { value, overloaded } = s.probe {
        lemma_resolved_narrows(s.bracket, s.direction, value, overloaded);
        lemma_candidate_inside(s.folded());
    }
}

/// The bracket only ever narrows: whatever calls are made and whatever outcomes are reported,
/// the lower end never falls and the upper end never rises. This holds of a rising search and of
/// a falling one alike.
pub proof fn lemma_bracket_only_narrows(s: SearchState, calls: Seq<Call>)
    requires
        s.wf(),
    ensures
        s.after_all(calls).wf(),
        s.after_all(calls).bracket.within(s.bracket),
        s.bracket.lo <= s.after_all(calls).bracket.lo <= s.after_all(calls).bracket.upper()
            <= s.bracket.upper(),
        s.after_all(calls).direction == s.direction,
        s.after_all(calls).fidelity == s.fidelity,
    decreases calls.len(),
{
    if calls.len() > 0 {
        lemma_call_narrows(s, calls.first());
        lemma_bracket_only_narrows(s.after(calls.first()), calls.drop_first());
    }
}

/// Which end an outcome moves. In a rising search a candidate that held up becomes the lower
/// end and an overloaded one the upper end; in a falling search it is the other way round. The
/// other end stays where it was.
pub proof fn lemma_outcome_moves_one_end(s: SearchState)
    requires
        s.probe is Awaiting,
    ensures
        ({
            let value = s.probe->value;
            let raises_lo = (s.direction is Rising) != s.probe->overloaded;
            &&& raises_lo ==> s.after_next().bracket == (Bracket { lo: value, hi: s.bracket.hi })
            &&& !raises_lo ==> s.after_next().bracket == (Bracket {
                lo: s.bracket.lo,
                hi: Some(value),
            })
        }),
{
}

/// A request made while a candidate is out ends the search exactly if the bracket, with the
/// outcome taken in, is no wider than `fidelity`. It then returns `None`; otherwise it returns
/// the next candidate of that bracket.
pub proof fn lemma_search_ends_when_narrow(s: SearchState)
    requires
        s.probe is Awaiting,
    ensures
        s.after_next().terminal() <==> s.folded().width() <= s.fidelity,
        s.after_next().terminal() ==> s.offered() is None,
        !s.after_next().terminal() ==> s.offered() == Some(s.folded().candidate()),
        s.after_next().bracket == s.folded(),
{
}

/// Once the search is over it stays over: no call changes the state any more, so every later
/// request returns `None` and the estimate stays what it was, whatever is reported.
pub proof fn lemma_finished_stays_finished(s: SearchState, calls: Seq<Call>)
    requires
        s.terminal(),
    ensures
        s.after_all(calls) == s,
        s.after_all(calls).offered() is None,
    decreases calls.len(),
{
    if calls.len() > 0 {
        assert(s.after(calls.first()) == s);
        lemma_finished_stays_finished(s, calls.drop_first());
    }
}

/// Where all calls are reports, so are all but the first.
pub proof fn lemma_rest_only_reports(reports: Seq<Call>)
    requires
        only_reports(reports),
        reports.len() > 0,
    ensures
        reports.first() is Overloaded,
        only_reports(reports.drop_first()),
{
    let rest = reports.drop_first();
    assert forall|i: int| 0 <= i < rest.len() implies rest[i] is Overloaded by {
        assert(rest[i] == reports[i + 1]);
    }
}

/// Reports made before any candidate has gone out change nothing.
pub proof fn lemma_early_reports_are_dropped(s: SearchState, reports: Seq<Call>)
    requires
        s.probe is Unstarted,
        only_reports(reports),
    ensures
        s.after_all(reports) == s,
    decreases reports.len(),
{
    if reports.len() > 0 {
        assert(reports.first() is Overloaded);
        assert(s.after(reports.first()) == s);
        lemma_rest_only_reports(reports);
        lemma_early_reports_are_dropped(s, reports.drop_first());
    }
}

/// The first value that a rising search hands out is the value it was started at, whatever
/// was reported before.
pub proof fn lemma_rising_starts_at_start(start: usize, fidelity: usize, reports: Seq<Call>)
    requires
        only_reports(reports),
    ensures
        SearchState::rising(start, fidelity).after_all(reports).offered() == Some(start),
{
    lemma_early_reports_are_dropped(SearchState::rising(start, fidelity), reports);
}

/// The first value that a falling search hands out is the value it was started at, whatever
/// was reported before.
pub proof fn lemma_falling_starts_at_start(start: usize, fidelity: usize, reports: Seq<Call>)
    requires
        only_reports(reports),
    ensures
        SearchState::falling(start, fidelity).after_all(reports).offered() == Some(start),
{
    lemma_early_reports_are_dropped(SearchState::falling(start, fidelity), reports);
}

/// Reporting the same candidate twice is the same as reporting it once, and a report leaves the
/// estimate alone.
pub proof fn lemma_report_once_is_enough(s: SearchState)
    ensures
        s.after_overloaded().after_overloaded() == s.after_overloaded(),
        s.after_overloaded().bracket == s.bracket,
        s.probe.pending() is None ==> s.after_overloaded() == s,
{
}

/// A candidate never goes out with a report already held against it.
pub proof fn lemma_candidate_goes_out_clean(s: SearchState)
    ensures
        s.after_next().probe is Awaiting ==> !s.after_next().probe->overloaded,
{
}

/// Once the estimate is no wider than `fidelity`, the request that finds a candidate out ends
/// the search, whatever was reported of that candidate.
pub proof fn lemma_narrow_estimate_ends_search(s: SearchState)
    requires
        s.wf(),
        s.probe is Awaiting,
        s.bracket.width() <= s.fidelity,
    ensures
        s.after_next().terminal(),
        s.offered() is None,
{
    lemma_call_narrows(s, Call::Next);
}

/// A search that starts with a bracket no wider than `fidelity` hands out its first candidate
/// and ends with the request after it, whether or not that candidate was overloaded. A falling
/// search starts so if its `fidelity` is at least its starting value.
pub proof fn lemma_wide_fidelity_ends_at_once(s: SearchState, overloaded: bool)
    requires
        s.wf(),
        s.probe is Unstarted,
        s.bracket.width() <= s.fidelity,
    ensures
        ({
            let first = s.after_next();
            let told = if overloaded { first.after_overloaded() } else { first };
            &&& s.offered() == Some(s.opening())
            &&& told.after_next().terminal()
            &&& told.offered() is None
        }),
{
    let first = s.after_next();
    let told = if overloaded { first.after_overloaded() } else { first };
    lemma_narrow_estimate_ends_search(told);
}

/// Bisection at least halves the bracket: where the candidate that is out is the midpoint of a
/// bracket with both ends known, the bracket with the outcome taken in is at most half as wide,
/// rounded up.
pub proof fn lemma_bisection_halves(s: SearchState)
    requires
        s.wf(),
        s.bracket.hi is Some,
        s.probe is Awaiting,
        s.probe->value == s.bracket.candidate(),
    ensures
        s.folded().width() <= (s.bracket.width() + 1) / 2,
{
}

/// Every request brings the end of the search nearer: with a `fidelity` of at least `1`, and a
/// lower end above `0` or an upper end that is known, a request lowers the budget, and a report
/// leaves it as it is.
///
/// Without these the search need not end. With a `fidelity` of `0` a bracket of width `1` is
/// bisected at its lower end for as long as that holds up, and a search that doubles from `0`
/// stays at `0`.
pub proof fn lemma_call_spends_budget(s: SearchState, call: Call)
    requires
        s.wf(),
        s.fidelity >= 1,
        s.bracket.lo >= 1 || s.bracket.hi is Some,
    ensures
        s.after(call).bracket.lo >= 1 || s.after(call).bracket.hi is Some,
        call is Overloaded ==> s.after(call).budget() == s.budget(),
        call is Next && !s.terminal() ==> 0 <= s.after(call).budget() < s.budget(),
{
    lemma_call_narrows(s, call);
}

/// The search comes to an end: with a `fidelity` of at least `1`, and a lower end above `0` or
/// an upper end that is known, the search is over once as many requests have been made as the
/// budget says, whatever was reported in between.
pub proof fn lemma_search_comes_to_an_end(s: SearchState, calls: Seq<Call>)
    requires
        s.wf(),
        s.fidelity >= 1,
        s.bracket.lo >= 1 || s.bracket.hi is Some,
        requests(calls) >= s.budget(),
    ensures
        s.after_all(calls).terminal(),
    decreases calls.len(),
{
    if s.terminal() {
        lemma_finished_stays_finished(s, calls);
    } else {
        lemma_call_narrows(s, calls.first());
        lemma_call_spends_budget(s, calls.first());
        lemma_search_comes_to_an_end(s.after(calls.first()), calls.drop_first());
    }
}

/// Before the first request the bracket tells the truth about the system exactly if the system
/// keeps up with the starting value.
pub proof fn lemma_search_starts_enclosing(start: usize, fidelity: usize, cliff: usize)
    ensures
        SearchState::rising(start, fidelity).bracket.encloses(Direction::Rising, cliff)
            <==> start <= cliff,
        SearchState::falling(start, fidelity).bracket.encloses(Direction::Falling, cliff)
            <==> start >= cliff,
{
}

/// The search finds the cliff: where the bracket tells the truth about the system to begin
/// with, and the caller reports what it sees, the bracket tells the truth after every call.
pub proof fn lemma_honest_search_encloses_cliff(s: SearchState, cliff: usize, calls: Seq<Call>)
    requires
        s.bracket.encloses(s.direction, cliff),
        s.honest(cliff, calls),
    ensures
        s.after_all(calls).bracket.encloses(s.direction, cliff),
    decreases calls.len(),
{
    if calls.len() > 0 {
        lemma_honest_search_encloses_cliff(s.after(calls.first()), cliff, calls.drop_first());
    }
}

} // verus!
