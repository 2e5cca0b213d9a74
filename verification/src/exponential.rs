//! Doubling, then bisection, with optional extra samples just below the cliff.

use vstd::prelude::*;
use crate::bracket::{Bracket, Direction, midpoint};
use crate::probe::Probe;
use crate::state::{
    honest_call, lemma_call_narrows, lemma_call_spends_budget, lemma_early_reports_are_dropped,
    lemma_rest_only_reports, only_reports, requests, Call, SearchState,
};
use crate::CliffSearch;

verus! {

/// What an [`ExponentialCliffSearcher`] knows: the state of its search, and what it needs to
/// fill in samples below the cliff once the search is over.
#[derive(Clone, Copy, Debug, PartialEq, Eq)]
pub struct ExponentialState {
    /// The rising search itself.
    pub search: SearchState,
    /// The lower end of the bracket as it was before the last doubling raised it. While samples
    /// are filled in, the last sample handed out.
    pub prior_lo: usize,
    /// Whether samples are to be filled in between `prior_lo` and the final lower end.
    pub fill: bool,
}

impl ExponentialState {
    /// The state of a search that starts at `start`, with filling switched off.
    pub open spec fn initial(start: usize, fidelity: usize) -> ExponentialState {
        ExponentialState {
            search: SearchState::rising(start, fidelity),
            prior_lo: start,
            fill: false,
        }
    }

    /// The search is well formed and rising, and `prior_lo` does not lie above the lower end.
    pub open spec fn wf(self) -> bool {
        &&& self.search.wf()
        &&& self.search.direction is Rising
        &&& self.prior_lo <= self.search.bracket.lo
    }

    /// The stretch below the lower end that has no sample yet.
    pub open spec fn gap(self) -> int {
        self.search.bracket.lo - self.prior_lo
    }

    /// The search is over and a sample is still to be filled in.
    pub open spec fn filling(self) -> bool {
        self.search.terminal() && self.fill && self.gap() > self.search.fidelity
    }

    /// The search is over and no sample is left to fill in: no further value will be handed out.
    pub open spec fn exhausted(self) -> bool {
        self.search.terminal() && !self.filling()
    }

    /// The candidate that is out came from doubling, or is the first, and has not been reported
    /// as overloaded.
    pub open spec fn doubling_held(self) -> bool {
        &&& self.search.bracket.hi is None
        &&& self.search.probe matches Probe::Awaiting { overloaded, .. } && !overloaded
    }

    /// The state after the search itself has taken a request for the next candidate.
    ///
    /// While no upper end is known, a candidate that held up is a doubling step: the lower end
    /// that it replaces is kept as `prior_lo`.
    pub open spec fn stepped(self) -> ExponentialState {
        ExponentialState {
            search: self.search.after_next(),
            prior_lo: if self.doubling_held() {
                self.search.bracket.lo
            } else {
                self.prior_lo
            },
            ..self
        }
    }

    /// The sample that is filled in next: the middle of the gap.
    pub open spec fn fill_value(self) -> Option<usize> {
        if self.filling() {
            Some(midpoint(self.prior_lo, self.search.bracket.lo) as usize)
        } else {
            None
        }
    }

    /// The state after one step of filling: the sample becomes the new `prior_lo`, and where no
    /// sample is left filling is switched off.
    pub open spec fn after_fill(self) -> ExponentialState {
        match self.fill_value() {
            Some(sample) => ExponentialState { prior_lo: sample, ..self },
            None => ExponentialState { fill: false, ..self },
        }
    }

    /// The state after a request for the next value: the search takes its step, and once it is
    /// over, in the same call, a step of filling follows.
    pub open spec fn after_next(self) -> ExponentialState {
        if self.stepped().search.terminal() {
            self.stepped().after_fill()
        } else {
            self.stepped()
        }
    }

    /// What a request for the next value returns: the search's candidate, and once the search
    /// is over the next sample to fill in, if any.
    pub open spec fn offered(self) -> Option<usize> {
        if self.stepped().search.terminal() {
            self.stepped().fill_value()
        } else {
            self.stepped().search.probe.pending()
        }
    }

    /// The state after a report of overload.
    pub open spec fn after_overloaded(self) -> ExponentialState {
        ExponentialState { search: self.search.after_overloaded(), ..self }
    }

    /// The state after filling has been switched on.
    pub open spec fn after_fill_left(self) -> ExponentialState {
        ExponentialState { fill: true, ..self }
    }

    /// A number of requests after which the searcher is exhausted at the latest, whatever the
    /// outcomes: the budget of the search, and one request for every value that a sample could
    /// take.
    pub open spec fn budget(self) -> int {
        if self.exhausted() {
            0
        } else {
            self.search.budget() + (self.search.bracket.upper() - self.prior_lo) + 1
        }
    }

    /// The calls in `calls`, made in order from this state, are those of a caller who tries
    /// every candidate of the search on a system with its cliff at `cliff` and reports what it
    /// sees.
    pub open spec fn honest(self, cliff: usize, calls: Seq<Call>) -> bool
        decreases calls.len(),
    {
        calls.len() > 0 ==> {
            &&& honest_call(self.search.probe, self.search.direction, cliff, calls.first())
            &&& self.after(calls.first()).honest(cliff, calls.drop_first())
        }
    }

    /// The state after one call.
    pub open spec fn after(self, call: Call) -> ExponentialState {
        match call {
            Call::Next => self.after_next(),
            Call::Overloaded => self.after_overloaded(),
        }
    }

    /// The state after a sequence of calls, made in order.
    pub open spec fn after_all(self, calls: Seq<Call>) -> ExponentialState
        decreases calls.len(),
    {
        if calls.len() == 0 {
            self
        } else {
            self.after(calls.first()).after_all(calls.drop_first())
        }
    }
}

/// Finds the maximum supported load by exponential search: it doubles the load until the system
/// falls over and then bisects between the last load that held and the first that did not.
///
/// With [`fill_left`](ExponentialCliffSearcher::fill_left) it goes on, once the bracket is
/// narrow enough, to hand out loads just below the bracket, so that a plot of the measurements
/// does not jump from the last doubling step straight to the cliff.
#[derive(Debug)]
pub struct ExponentialCliffSearcher {
    state: ExponentialState,
}

impl View for ExponentialCliffSearcher {
    type V = ExponentialState;

    closed spec fn view(&self) -> ExponentialState {
        self.state
    }
}

impl ExponentialCliffSearcher {
    /// What holds of every searcher of this type: its state is well formed.
    #[verifier::type_invariant]
    pub open spec fn inv(self) -> bool {
        self@.wf()
    }

    /// Searches upwards from `start`, until the maximum is known to within `start / 2`.
    pub fn new(start: usize) -> (s: Self)
        ensures
            s@ == ExponentialState::initial(start, start / 2),
    {
        Self::until(start, start / 2)
    }

    /// Searches upwards from `start`, until the maximum is known to within `min_width`.
    pub fn until(start: usize, min_width: usize) -> (s: Self)
        ensures
            s@ == ExponentialState::initial(start, min_width),
    {
        ExponentialCliffSearcher {
            state: ExponentialState {
                search: SearchState::begin_rising(start, min_width),
                prior_lo: start,
                fill: false,
            },
        }
    }

    /// Hands out the next load to try, or `None` when there is none left.
    pub fn next(&mut self) -> (r: Option<usize>)
        ensures
            final(self)@ == old(self)@.after_next(),
            r == old(self)@.offered(),
            final(self)@.search.bracket.within(old(self)@.search.bracket),
    {
        proof {
            use_type_invariant(&*self);
        }
        let mut state = self.state;
        if let Probe::Awaiting { overloaded: false, .. } = state.search.probe {
            if let None = state.search.bracket.hi {
                // a doubling step held up: remember where the lower end was before it
                state.prior_lo = state.search.bracket.lo;
            }
        }
        let candidate = state.search.advance();
        let r = match state.search.probe {
            Probe::Finished => {
                // the bracket is found; what is left is to sample the stretch below it
                let gap: usize = state.search.bracket.lo - state.prior_lo;
                if state.fill && gap > state.search.fidelity {
                    let sample: usize = state.prior_lo + gap / 2;
                    state.prior_lo = sample;
                    Some(sample)
                } else {
                    state.fill = false;
                    None
                }
            },
            _ => candidate,
        };
        self.state = state;
        r
    }

    /// Tells the searcher that the system could not keep up with the load handed out last.
    ///
    /// The report is taken into the bracket by the next call of `next`. Where no load is out,
    /// or the load was one of the samples that fill the curve, the call changes nothing.
    pub fn overloaded(&mut self)
        ensures
            final(self)@ == old(self)@.after_overloaded(),
    {
        proof {
            use_type_invariant(&*self);
        }
        self.state.search.mark_overloaded();
    }

    /// The range in which the maximum is currently known to lie.
    pub fn estimate(&self) -> (r: core::ops::Range<usize>)
        ensures
            r.start == self@.search.bracket.lo,
            r.end == self@.search.bracket.upper(),
    {
        self.state.search.estimate()
    }

    /// Asks for samples just below the cliff.
    ///
    /// Say the system supports eight million operations per second and the search starts at
    /// 1M. The searcher samples 1M, 2M, 4M, 8M and 16M, finds 16M overloaded, and bisects from
    /// the right through 12M, 10M and 9M until it settles on 8M as the lower end. That is
    /// correct, but a plot then has nothing between 4M and 8M, just where the system comes
    /// under strain. With filling switched on the searcher also hands out 6M and 7M.
    ///
    /// Filling stops, like the search, once the stretch left is no wider than the minimum
    /// width.
    pub fn fill_left(&mut self)
        ensures
            final(self)@ == old(self)@.after_fill_left(),
    {
        proof {
            use_type_invariant(&*self);
        }
        self.state.fill = true;
    }
}

impl Clone for ExponentialCliffSearcher {
    /// A copy in the same state, which from then on runs on its own.
    fn clone(&self) -> (r: Self)
        ensures
            r@ == self@,
    {
        proof {
            use_type_invariant(self);
        }
        ExponentialCliffSearcher { state: self.state }
    }
}

impl CliffSearch for ExponentialCliffSearcher {
    open spec fn bracket(&self) -> Bracket {
        self@.search.bracket
    }

    open spec fn probe(&self) -> Probe {
        self@.search.probe
    }

    open spec fn direction(&self) -> Direction {
        self@.search.direction
    }

    open spec fn exhausted(&self) -> bool {
        self@.exhausted()
    }

    fn next(&mut self) -> (r: Option<usize>)
        ensures
            final(self)@ == old(self)@.after_next(),
            r == old(self)@.offered(),
    {
        ExponentialCliffSearcher::next(self)
    }

    fn overloaded(&mut self)
        ensures
            final(self)@ == old(self)@.after_overloaded(),
    {
        ExponentialCliffSearcher::overloaded(self)
    }

    fn estimate(&self) -> (r: core::ops::Range<usize>) {
        ExponentialCliffSearcher::estimate(self)
    }
}

/// A search starts well formed, with nothing to fill in.
pub proof fn lemma_exponential_starts_well_formed(start: usize, fidelity: usize)
    ensures
        ExponentialState::initial(start, fidelity).wf(),
        ExponentialState::initial(start, fidelity).after_fill_left().wf(),
        ExponentialState::initial(start, fidelity).gap() == 0,
{
}

/// A call leaves a well-formed state well formed. The search in it moves as it would on its
/// own, filling stays switched on or off unless it runs out, and `prior_lo` never falls.
pub proof fn lemma_exponential_call(s: ExponentialState, call: Call)
    requires
        s.wf(),
    ensures
        s.after(call).wf(),
        s.after(call).search == s.search.after(call),
        s.after(call).prior_lo >= s.prior_lo,
        s.after(call).fill ==> s.fill,
{
    lemma_call_narrows(s.search, call);
}

/// The bracket only ever narrows: whatever calls are made and whatever outcomes are reported,
/// the lower end never falls and the upper end never rises. Filling has no part in it: the
/// search moves as it would without.
pub proof fn lemma_exponential_only_narrows(s: ExponentialState, calls: Seq<Call>)
    requires
        s.wf(),
    ensures
        s.after_all(calls).wf(),
        s.after_all(calls).search == s.search.after_all(calls),
        s.after_all(calls).search.bracket.within(s.search.bracket),
        s.search.bracket.lo <= s.after_all(calls).search.bracket.lo
            <= s.after_all(calls).search.bracket.upper() <= s.search.bracket.upper(),
        s.after_all(calls).prior_lo >= s.prior_lo,
    decreases calls.len(),
{
    if calls.len() > 0 {
        lemma_exponential_call(s, calls.first());
        lemma_call_narrows(s.search, calls.first());
        lemma_exponential_only_narrows(s.after(calls.first()), calls.drop_first());
    }
}

/// A request made while a candidate is out ends the search exactly if the bracket, with the
/// outcome taken in, is no wider than `fidelity`. Unless a sample is then due, the request
/// returns `None` and the searcher has said its last word.
pub proof fn lemma_exponential_ends_when_narrow(s: ExponentialState)
    requires
        s.search.probe is Awaiting,
    ensures
        s.after_next().search.terminal() <==> s.search.folded().width() <= s.search.fidelity,
        s.after_next().search.bracket == s.search.folded(),
        !s.after_next().search.terminal() ==> s.offered() == Some(s.search.folded().candidate()),
        s.after_next().search.terminal() && !s.stepped().filling() ==> s.offered() is None
            && s.after_next().exhausted(),
{
}

/// Once the search is over its bracket never moves again, whatever is called and reported, also
/// while samples are filled in.
pub proof fn lemma_estimate_is_final(s: ExponentialState, calls: Seq<Call>)
    requires
        s.search.terminal(),
    ensures
        s.after_all(calls).search == s.search,
    decreases calls.len(),
{
    if calls.len() > 0 {
        assert(s.stepped() == s);
        assert(s.after(calls.first()).search == s.search);
        lemma_estimate_is_final(s.after(calls.first()), calls.drop_first());
    }
}

/// Once the searcher is exhausted it stays so: every later request returns `None`, and neither
/// the bracket nor `prior_lo` moves, whatever is reported.
pub proof fn lemma_exhausted_stays_exhausted(s: ExponentialState, calls: Seq<Call>)
    requires
        s.exhausted(),
    ensures
        s.after_all(calls).exhausted(),
        s.after_all(calls).offered() is None,
        s.after_all(calls).search == s.search,
        s.after_all(calls).prior_lo == s.prior_lo,
    decreases calls.len(),
{
    assert(s.stepped() == s);
    if calls.len() > 0 {
        let t = s.after(calls.first());
        assert(t.exhausted() && t.search == s.search && t.prior_lo == s.prior_lo);
        lemma_exhausted_stays_exhausted(t, calls.drop_first());
        assert(t.after_all(calls.drop_first()).stepped() == t.after_all(calls.drop_first()));
    }
}

/// The first value handed out is the value the search was started at, whatever was reported
/// before, and whether or not filling was asked for.
pub proof fn lemma_exponential_starts_at_start(
    start: usize,
    fidelity: usize,
    fill: bool,
    reports: Seq<Call>,
)
    requires
        only_reports(reports),
    ensures
        ({
            let s = ExponentialState { fill, ..ExponentialState::initial(start, fidelity) };
            s.after_all(reports).offered() == Some(start)
        }),
{
    let s = ExponentialState { fill, ..ExponentialState::initial(start, fidelity) };
    lemma_exponential_only_narrows(s, reports);
    lemma_early_reports_are_dropped(s.search, reports);
    lemma_reports_keep_fill(s, reports);
}

/// Reports of overload touch nothing but the search.
pub proof fn lemma_reports_keep_fill(s: ExponentialState, reports: Seq<Call>)
    requires
        only_reports(reports),
    ensures
        s.after_all(reports).fill == s.fill,
        s.after_all(reports).prior_lo == s.prior_lo,
    decreases reports.len(),
{
    if reports.len() > 0 {
        lemma_rest_only_reports(reports);
        lemma_reports_keep_fill(s.after(reports.first()), reports.drop_first());
    }
}

/// Reporting the same load twice is the same as reporting it once; a report leaves the estimate
/// alone, and where no candidate of the search is out, as before the first request, after the
/// search has ended and while samples are filled in, it changes nothing at all.
pub proof fn lemma_exponential_report_once_is_enough(s: ExponentialState)
    ensures
        s.after_overloaded().after_overloaded() == s.after_overloaded(),
        s.after_overloaded().search.bracket == s.search.bracket,
        s.search.probe.pending() is None ==> s.after_overloaded() == s,
{
}

/// The request that ends the search fills in the first sample at once. So `s.stepped()`, where
/// `s` is the state to which that request comes, is the state in which the search ended: from
/// there on `s` goes the way that `s.stepped()` goes.
pub proof fn lemma_search_end_fills_at_once(s: ExponentialState)
    requires
        s.stepped().search.terminal(),
    ensures
        s.offered() == s.stepped().offered(),
        s.after_next() == s.stepped().after_next(),
        s.stepped().search.bracket == s.search.folded(),
{
    assert(s.stepped().stepped() == s.stepped());
}

/// Every sample that is filled in lies strictly between `prior_lo`, as it was when the search
/// ended, and the final lower end: `s` is a state in which the search is over, and `calls` are
/// the calls made from there.
///
/// The one case in which this cannot hold is left out: with a `fidelity` of `0` and a gap of
/// exactly `1` there is no value strictly between the two, and the sample is `prior_lo` itself.
pub proof fn lemma_samples_lie_in_gap(s: ExponentialState, calls: Seq<Call>)
    requires
        s.wf(),
        s.search.terminal(),
        s.search.fidelity > 0 || s.gap() != 1,
    ensures
        s.after_all(calls).offered() matches Some(sample) ==> s.prior_lo < sample
            < s.search.bracket.lo,
    decreases calls.len(),
{
    assert(s.stepped() == s);
    if calls.len() > 0 {
        let t = s.after(calls.first());
        assert(t.search == s.search);
        if t.prior_lo == s.prior_lo {
            lemma_samples_lie_in_gap(t, calls.drop_first());
        } else {
            // a sample went out and is the new `prior_lo`: what follows lies above it
            assert(s.prior_lo < t.prior_lo < s.search.bracket.lo);
            lemma_exponential_call(s, calls.first());
            lemma_samples_lie_at_or_above(t, calls.drop_first());
        }
    }
}

/// Every sample that is filled in lies at or above `prior_lo` and strictly below the final lower
/// end.
pub proof fn lemma_samples_lie_at_or_above(s: ExponentialState, calls: Seq<Call>)
    requires
        s.wf(),
        s.search.terminal(),
    ensures
        s.after_all(calls).offered() matches Some(sample) ==> s.prior_lo <= sample
            < s.search.bracket.lo,
    decreases calls.len(),
{
    assert(s.stepped() == s);
    if calls.len() > 0 {
        let t = s.after(calls.first());
        lemma_exponential_call(s, calls.first());
        assert(t.search == s.search);
        lemma_samples_lie_at_or_above(t, calls.drop_first());
    }
}

/// Filling ends once the gap left is no wider than `fidelity`: the request returns `None`,
/// filling is switched off, and the searcher has said its last word.
pub proof fn lemma_filling_ends_when_narrow(s: ExponentialState)
    requires
        s.search.terminal(),
        s.gap() <= s.search.fidelity,
    ensures
        s.offered() is None,
        s.after_next().exhausted(),
        !s.after_next().fill,
{
    assert(s.stepped() == s);
}

/// With a `fidelity` of at least `1`, every sample that goes out shrinks the gap, so filling
/// comes to an end: after as many requests as the gap is wide, whatever is reported in between,
/// the searcher is exhausted.
pub proof fn lemma_filling_runs_out(s: ExponentialState, calls: Seq<Call>)
    requires
        s.wf(),
        s.search.terminal(),
        s.search.fidelity > 0,
        requests(calls) >= s.gap(),
        requests(calls) >= 1,
    ensures
        s.after_all(calls).exhausted(),
    decreases calls.len(),
{
    assert(s.stepped() == s);
    let t = s.after(calls.first());
    lemma_exponential_call(s, calls.first());
    assert(t.search == s.search);
    if calls.first() is Next {
        if s.filling() {
            assert(t.gap() < s.gap());
            assert(t.gap() >= 1);
            lemma_filling_runs_out(t, calls.drop_first());
        } else {
            assert(t.exhausted());
            lemma_exhausted_stays_exhausted(t, calls.drop_first());
        }
    } else {
        lemma_filling_runs_out(t, calls.drop_first());
    }
}

/// Every request brings the end nearer: with a `fidelity` of at least `1`, and a lower end above
/// `0` or an upper end that is known, a request lowers the budget, and a report leaves it as it
/// is.
pub proof fn lemma_exponential_call_spends_budget(s: ExponentialState, call: Call)
    requires
        s.wf(),
        s.search.fidelity >= 1,
        s.search.bracket.lo >= 1 || s.search.bracket.hi is Some,
    ensures
        s.after(call).search.bracket.lo >= 1 || s.after(call).search.bracket.hi is Some,
        call is Overloaded ==> s.after(call).budget() == s.budget(),
        call is Next && !s.exhausted() ==> 0 <= s.after(call).budget() < s.budget(),
{
    lemma_exponential_call(s, call);
    lemma_call_narrows(s.search, call);
    lemma_call_spends_budget(s.search, call);
}

/// The searcher comes to an end: with a `fidelity` of at least `1`, and a lower end above `0` or
/// an upper end that is known, it is exhausted once as many requests have been made as the
/// budget says, whatever was reported in between and whether or not samples are filled in.
pub proof fn lemma_exponential_comes_to_an_end(s: ExponentialState, calls: Seq<Call>)
    requires
        s.wf(),
        s.search.fidelity >= 1,
        s.search.bracket.lo >= 1 || s.search.bracket.hi is Some,
        requests(calls) >= s.budget(),
    ensures
        s.after_all(calls).exhausted(),
    decreases calls.len(),
{
    if s.exhausted() {
        lemma_exhausted_stays_exhausted(s, calls);
    } else {
        lemma_exponential_call(s, calls.first());
        lemma_exponential_call_spends_budget(s, calls.first());
        lemma_exponential_comes_to_an_end(s.after(calls.first()), calls.drop_first());
    }
}

/// The search finds the cliff: where the system keeps up with the lower end to begin with, as it
/// does if it keeps up with the starting value, and the caller reports what it sees, the system
/// keeps up with the lower end after every call, and not with the upper end once there is one.
pub proof fn lemma_honest_exponential_encloses_cliff(
    s: ExponentialState,
    cliff: usize,
    calls: Seq<Call>,
)
    requires
        s.search.bracket.encloses(s.search.direction, cliff),
        s.honest(cliff, calls),
    ensures
        s.after_all(calls).search.bracket.encloses(s.search.direction, cliff),
    decreases calls.len(),
{
    if calls.len() > 0 {
        lemma_honest_exponential_encloses_cliff(
            s.after(calls.first()),
            cliff,
            calls.drop_first(),
        );
    }
}

} // verus!
