//! A walk along a list of loads that the caller chose.

use vstd::prelude::*;
use vstd::slice::slice_to_vec;
use vstd::std_specs::convert::FromSpecImpl;
use crate::bracket::{Bracket, Direction};
use crate::probe::Probe;
use crate::state::{honest_call, lemma_rest_only_reports, only_reports, requests, Call};
use crate::CliffSearch;

verus! {

/// What a [`LoadIterator`] knows: the bracket, the load that is out, and the loads still to
/// come.
pub struct WalkState {
    /// The bracket found so far.
    pub bracket: Bracket,
    /// The load that is out, and what was reported of it.
    pub probe: Probe,
    /// The loads that have not been handed out yet, in the order of the list.
    pub rest: Seq<usize>,
}

impl WalkState {
    /// The state of a walk along `loads` before the first of them has been handed out.
    pub open spec fn initial(loads: Seq<usize>) -> WalkState {
        WalkState { bracket: Bracket { lo: 0, hi: None }, probe: Probe::Unstarted, rest: loads }
    }

    /// The walk is over.
    pub open spec fn terminal(self) -> bool {
        self.probe is Finished
    }

    /// The bracket with the outcome of the load that is out taken in: a load that held up is
    /// the new lower end, one that was overloaded the new upper end.
    pub open spec fn folded(self) -> Bracket {
        match self.probe {
            Probe::Awaiting { value, overloaded } => self.bracket.resolved(
                Direction::Rising,
                value,
                overloaded,
            ),
            _ => self.bracket,
        }
    }

    /// The load that is out was reported as overloaded.
    pub open spec fn stopped(self) -> bool {
        self.probe matches Probe::Awaiting { overloaded: true, .. }
    }

    /// The state after a request for the next load.
    ///
    /// The outcome of the load that is out is taken into the bracket. The walk ends there if
    /// that load was overloaded or the list has run out; otherwise the next load of the list
    /// goes out. Once the walk is over nothing changes any more.
    pub open spec fn after_next(self) -> WalkState {
        if self.terminal() {
            self
        } else if self.stopped() || self.rest.len() == 0 {
            WalkState { bracket: self.folded(), probe: Probe::Finished, ..self }
        } else {
            WalkState {
                bracket: self.folded(),
                probe: Probe::Awaiting { value: self.rest.first(), overloaded: false },
                rest: self.rest.drop_first(),
            }
        }
    }

    /// What a request for the next load returns.
    pub open spec fn offered(self) -> Option<usize> {
        self.after_next().probe.pending()
    }

    /// The state after a report of overload.
    pub open spec fn after_overloaded(self) -> WalkState {
        WalkState { probe: self.probe.reported(), ..self }
    }

    /// The loads still to come are in rising order, none lies below the load that is out, and
    /// that load lies in the bracket, which has no upper end while the walk goes on.
    pub open spec fn ascending(self) -> bool {
        &&& forall|i: int, j: int| 0 <= i <= j < self.rest.len() ==> self.rest[i] <= self.rest[j]
        &&& self.bracket.ordered()
        &&& !self.terminal() ==> self.bracket.hi is None
        &&& self.rest.len() > 0 ==> self.folded().lo <= self.rest.first()
        &&& self.probe matches Probe::Awaiting { value, .. } ==> self.bracket.lo <= value
    }

    /// The calls in `calls`, made in order from this state, are those of a caller who tries
    /// every load on a system with its cliff at `cliff` and reports what it sees.
    pub open spec fn honest(self, cliff: usize, calls: Seq<Call>) -> bool
        decreases calls.len(),
    {
        calls.len() > 0 ==> {
            &&& honest_call(self.probe, Direction::Rising, cliff, calls.first())
            &&& self.after(calls.first()).honest(cliff, calls.drop_first())
        }
    }

    /// The state after one call.
    pub open spec fn after(self, call: Call) -> WalkState {
        match call {
            Call::Next => self.after_next(),
            Call::Overloaded => self.after_overloaded(),
        }
    }

    /// The state after a sequence of calls, made in order.
    pub open spec fn after_all(self, calls: Seq<Call>) -> WalkState
        decreases calls.len(),
    {
        if calls.len() == 0 {
            self
        } else {
            self.after(calls.first()).after_all(calls.drop_first())
        }
    }
}

/// Determines the maximum supported load by walking a list of loads until the system cannot
/// keep up.
///
/// The loads are handed out in the order of the list. The walk ends at the first load that is
/// reported as overloaded, or when the list has run out.
#[derive(Debug)]
pub struct LoadIterator {
    loads: Vec<usize>,
    taken: usize,
    bracket: Bracket,
    probe: Probe,
}

impl View for LoadIterator {
    type V = WalkState;

    closed spec fn view(&self) -> WalkState {
        WalkState {
            bracket: self.bracket,
            probe: self.probe,
            rest: self.loads@.skip(self.taken as int),
        }
    }
}

impl LoadIterator {
    #[verifier::type_invariant]
    closed spec fn inv(self) -> bool {
        self.taken <= self.loads.len()
    }

    /// Hands out the next load of the list, or `None` once the walk is over.
    pub fn next(&mut self) -> (r: Option<usize>)
        ensures
            final(self)@ == old(self)@.after_next(),
            r == old(self)@.offered(),
    {
        proof {
            use_type_invariant(&*self);
        }
        let stop: bool = match self.probe {
            Probe::Finished => {
                return None;
            },
            Probe::Unstarted => false,
            Probe::Awaiting { value, overloaded } => {
                self.bracket.resolve(Direction::Rising, value, overloaded);
                overloaded
            },
        };
        if stop || self.taken >= self.loads.len() {
            self.probe = Probe::Finished;
            None
        } else {
            let load: usize = self.loads[self.taken];
            self.taken = self.taken + 1;
            self.probe = Probe::Awaiting { value: load, overloaded: false };
            assert(self.loads@.skip(self.taken as int) == old(self)@.rest.drop_first());
            Some(load)
        }
    }

    /// Tells the walker that the system could not keep up with the load handed out last.
    ///
    /// The next call of `next` takes the report into the bracket and ends the walk. Where no
    /// load is out the call changes nothing.
    pub fn overloaded(&mut self)
        ensures
            final(self)@ == old(self)@.after_overloaded(),
    {
        proof {
            use_type_invariant(&*self);
        }
        self.probe.report();
    }

    /// The range in which the maximum is currently known to lie. Its end is `usize::MAX` as long
    /// as no load was overloaded.
    pub fn estimate(&self) -> (r: core::ops::Range<usize>)
        ensures
            r.start == self@.bracket.lo,
            r.end == self@.bracket.upper(),
    {
        self.bracket.lo..self.bracket.upper_end()
    }
}

impl From<Vec<usize>> for LoadIterator {
    /// A walk along `loads`, from the first to the last.
    fn from(loads: Vec<usize>) -> (r: Self)
        ensures
            r@ == WalkState::initial(loads@),
    {
        assert(loads@.skip(0) == loads@);
        LoadIterator {
            loads,
            taken: 0,
            bracket: Bracket { lo: 0, hi: None },
            probe: Probe::Unstarted,
        }
    }
}

impl FromSpecImpl<Vec<usize>> for LoadIterator {
    open spec fn obeys_from_spec() -> bool {
        true
    }

    closed spec fn from_spec(loads: Vec<usize>) -> Self {
        LoadIterator {
            loads,
            taken: 0,
            bracket: Bracket { lo: 0, hi: None },
            probe: Probe::Unstarted,
        }
    }
}

impl<'a, const N: usize> From<&'a [usize; N]> for LoadIterator {
    /// A walk along a copy of `loads`, from the first to the last.
    fn from(loads: &'a [usize; N]) -> (r: Self)
        ensures
            r@ == WalkState::initial(loads@),
    {
        let loads = slice_to_vec(loads.as_slice());
        assert(loads@.skip(0) == loads@);
        LoadIterator {
            loads,
            taken: 0,
            bracket: Bracket { lo: 0, hi: None },
            probe: Probe::Unstarted,
        }
    }
}

/// The walk made from an array holds a copy of the loads, and ghost code has no name for that
/// copy: what `from` returns is said in its own `ensures`, over the view.
impl<'a, const N: usize> FromSpecImpl<&'a [usize; N]> for LoadIterator {
    open spec fn obeys_from_spec() -> bool {
        false
    }

    closed spec fn from_spec(loads: &'a [usize; N]) -> Self {
        arbitrary()
    }
}

impl Clone for LoadIterator {
    /// A copy in the same state, which from then on runs on its own.
    fn clone(&self) -> (r: Self)
        ensures
            r@ == self@,
    {
        proof {
            use_type_invariant(self);
        }
        LoadIterator {
            loads: self.loads.clone(),
            taken: self.taken,
            bracket: self.bracket,
            probe: self.probe,
        }
    }
}

impl CliffSearch for LoadIterator {
    open spec fn bracket(&self) -> Bracket {
        self@.bracket
    }

    open spec fn probe(&self) -> Probe {
        self@.probe
    }

    open spec fn direction(&self) -> Direction {
        Direction::Rising
    }

    open spec fn exhausted(&self) -> bool {
        self@.terminal()
    }

    fn next(&mut self) -> (r: Option<usize>)
        ensures
            final(self)@ == old(self)@.after_next(),
            r == old(self)@.offered(),
    {
        LoadIterator::next(self)
    }

    fn overloaded(&mut self)
        ensures
            final(self)@ == old(self)@.after_overloaded(),
    {
        LoadIterator::overloaded(self)
    }

    fn estimate(&self) -> (r: core::ops::Range<usize>) {
        LoadIterator::estimate(self)
    }
}

/// `n` requests for the next load in a row.
pub open spec fn requests_in_a_row(n: nat) -> Seq<Call> {
    Seq::new(n, |i: int| Call::Next)
}

/// Once the walk is over it stays over: no call changes the state any more, so every later
/// request returns `None` and the estimate stays what it was, whatever is reported.
pub proof fn lemma_walk_finished_stays_finished(s: WalkState, calls: Seq<Call>)
    requires
        s.terminal(),
    ensures
        s.after_all(calls) == s,
        s.after_all(calls).offered() is None,
    decreases calls.len(),
{
    if calls.len() > 0 {
        assert(s.after(calls.first()) == s);
        lemma_walk_finished_stays_finished(s, calls.drop_first());
    }
}

/// Reporting the same load twice is the same as reporting it once; a report leaves the estimate
/// alone, and where no load is out it changes nothing at all.
pub proof fn lemma_walk_report_once_is_enough(s: WalkState)
    ensures
        s.after_overloaded().after_overloaded() == s.after_overloaded(),
        s.after_overloaded().bracket == s.bracket,
        s.probe.pending() is None ==> s.after_overloaded() == s,
{
}

/// The walk ends with the request that follows a report of overload: the overloaded load is
/// the upper end of the final bracket, and the lower end is what it was.
pub proof fn lemma_walk_ends_at_overload(s: WalkState)
    requires
        s.stopped(),
    ensures
        s.after_next().terminal(),
        s.offered() is None,
        s.after_next().bracket == (Bracket { lo: s.bracket.lo, hi: Some(s.probe->value) }),
        s.after_next().rest == s.rest,
{
}

/// The walk ends when the list has run out: the last load, which held up, is the lower end of
/// the final bracket, and there is still no upper end if there was none.
pub proof fn lemma_walk_ends_with_list(s: WalkState)
    requires
        !s.terminal(),
        !s.stopped(),
        s.rest.len() == 0,
    ensures
        s.after_next().terminal(),
        s.offered() is None,
        s.after_next().bracket.hi == s.bracket.hi,
        s.probe matches Probe::Awaiting { value, .. } ==> s.after_next().bracket.lo == value,
{
}

/// Reports made before any load has gone out change nothing, so the first load handed out is the
/// first of the list; an empty list hands out none.
pub proof fn lemma_walk_starts_at_first(loads: Seq<usize>, reports: Seq<Call>)
    requires
        only_reports(reports),
    ensures
        WalkState::initial(loads).after_all(reports) == WalkState::initial(loads),
        WalkState::initial(loads).after_all(reports).offered() == (if loads.len() > 0 {
            Some(loads.first())
        } else {
            None
        }),
    decreases reports.len(),
{
    let s = WalkState::initial(loads);
    if reports.len() > 0 {
        lemma_rest_only_reports(reports);
        assert(s.after(reports.first()) == s);
        lemma_walk_starts_at_first(loads, reports.drop_first());
    }
}

/// As long as nothing is reported the loads go out in the order of the list: after `n` requests
/// the `n`-th load is out, the one before it is the lower end of the bracket, and the loads
/// after it are still to come.
pub proof fn lemma_walk_follows_list(s: WalkState, n: nat)
    requires
        !s.terminal(),
        !s.stopped(),
        0 < n <= s.rest.len(),
    ensures
        ({
            let t = s.after_all(requests_in_a_row(n));
            &&& t.probe == (Probe::Awaiting { value: s.rest[n - 1], overloaded: false })
            &&& t.rest == s.rest.skip(n as int)
            &&& t.bracket.hi == s.bracket.hi
            &&& t.bracket.lo == (if n >= 2 {
                s.rest[n - 2]
            } else {
                s.folded().lo
            })
        }),
    decreases n,
{
    let calls = requests_in_a_row(n);
    let first = s.after(calls.first());
    assert(calls.drop_first() == requests_in_a_row((n - 1) as nat));
    assert(first == s.after_next());
    if n == 1 {
        assert(first.after_all(calls.drop_first()) == first);
        assert(s.rest.drop_first() == s.rest.skip(1));
    } else {
        lemma_walk_follows_list(first, (n - 1) as nat);
        assert(s.rest.drop_first().skip(n - 1) == s.rest.skip(n as int));
    }
}

/// A walk along a list in rising order only ever narrows its bracket: the lower end never
/// falls, the upper end never rises, and the lower end never lies above the upper end.
///
/// A list that is not in rising order can lower the lower end again, so the rising order is
/// asked for.
pub proof fn lemma_rising_walk_only_narrows(s: WalkState, calls: Seq<Call>)
    requires
        s.ascending(),
    ensures
        s.after_all(calls).ascending(),
        s.after_all(calls).bracket.within(s.bracket),
        s.bracket.lo <= s.after_all(calls).bracket.lo <= s.after_all(calls).bracket.upper()
            <= s.bracket.upper(),
    decreases calls.len(),
{
    if calls.len() > 0 {
        let t = s.after(calls.first());
        assert(t.ascending() && t.bracket.within(s.bracket)) by {
            if calls.first() is Next && !s.terminal() && !s.stopped() && s.rest.len() > 0 {
                assert forall|i: int, j: int| 0 <= i <= j < t.rest.len() implies t.rest[i]
                    <= t.rest[j] by {
                    assert(t.rest[i] == s.rest[i + 1] && t.rest[j] == s.rest[j + 1]);
                }
                if t.rest.len() > 0 {
                    assert(t.rest.first() == s.rest[1]);
                }
            }
        }
        lemma_rising_walk_only_narrows(t, calls.drop_first());
    }
}

/// A walk that has not begun meets what `lemma_rising_walk_only_narrows` asks for exactly if
/// its list is in rising order.
pub proof fn lemma_initial_walk_ascending(loads: Seq<usize>)
    ensures
        WalkState::initial(loads).ascending() <==> (forall|i: int, j: int|
            0 <= i <= j < loads.len() ==> loads[i] <= loads[j]),
{
}

/// The walk comes to an end: it is over once one request more has been made than loads were
/// still to come, whatever was reported in between.
pub proof fn lemma_walk_comes_to_an_end(s: WalkState, calls: Seq<Call>)
    requires
        requests(calls) > s.rest.len(),
    ensures
        s.after_all(calls).terminal(),
    decreases calls.len(),
{
    let then = s.after(calls.first());
    if then.terminal() {
        lemma_walk_finished_stays_finished(then, calls.drop_first());
    } else {
        lemma_walk_comes_to_an_end(then, calls.drop_first());
    }
}

/// Before the first request the bracket of a walk says nothing that could be wrong.
pub proof fn lemma_walk_starts_enclosing(loads: Seq<usize>, cliff: usize)
    ensures
        WalkState::initial(loads).bracket.encloses(Direction::Rising, cliff),
{
}

/// The walk finds the cliff, as far as the list lets it: where the caller reports what it sees,
/// the system keeps up with the lower end after every call, and not with the upper end once
/// there is one. This holds of every list, in whatever order.
pub proof fn lemma_honest_walk_encloses_cliff(s: WalkState, cliff: usize, calls: Seq<Call>)
    requires
        s.bracket.encloses(Direction::Rising, cliff),
        s.honest(cliff, calls),
    ensures
        s.after_all(calls).bracket.encloses(Direction::Rising, cliff),
    decreases calls.len(),
{
    if calls.len() > 0 {
        lemma_honest_walk_encloses_cliff(s.after(calls.first()), cliff, calls.drop_first());
    }
}

} // verus!
