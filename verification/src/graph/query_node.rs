//! The life of a query: waiting for it, running it, checking what is kept of it.
//!
//! Who waits is known by a number. Instants are numbers too.

use slab::Slab;
use vstd::prelude::*;

use crate::base::bytes::bytes_equal;
use crate::base::slab_map::{self, slab_insert, slab_into_vec, slab_new, slab_set};
use crate::graph::query_result::QueryResult;
use crate::source::source_reference::SourceReference;

verus! {

/// A result of another query that was used.
pub struct QueryReference {
    /// The number of the node of the query.
    pub node: u64,
    /// The hash of the output, where there was one.
    pub output_hash: Option<Vec<u8>>,
    pub cached_run_id: usize,
}

/// A result that is kept.
pub struct CachedQueryResult<P> {
    pub run_id: usize,
    /// The latest instant at which the result is known to have been up to date.
    pub last_check_time: u64,
    pub result: QueryResult<P>,
    pub source_references: Vec<SourceReference>,
    pub query_references: Vec<QueryReference>,
    /// Whether the result is known to be out of date, where changes are reported at all.
    pub known_dirty_state: Option<bool>,
}

/// Who waits for a run, and how many are interested in it.
pub struct RunningQueryWakers {
    pub run_id: usize,
    pub wakers: Slab<u64>,
    pub interest_count: usize,
}

pub enum QueryStateKind<P> {
    Empty,
    Running(RunningQueryWakers),
    Checking(RunningQueryWakers),
    Cached(CachedQueryResult<P>),
}

/// The state of a query.
pub struct QueryState<P> {
    pub next_run_id: usize,
    pub kind: QueryStateKind<P>,
}

/// Where someone waits.
#[derive(Clone, Copy, PartialEq, Eq, Structural, Debug)]
pub struct RegisteredWaker {
    pub run_id: usize,
    pub slab_index: usize,
}

/// What one who waits remembers.
#[derive(Clone, Copy, PartialEq, Eq, Structural, Debug)]
pub struct Waiter {
    pub request_time: u64,
    pub waker_index: Option<RegisteredWaker>,
    pub have_triggered_source_check: bool,
    pub have_registered_interest: Option<usize>,
}

/// A request for the result of a query.
pub struct QueryRequest {
    pub waiter: Waiter,
    pub finished: bool,
}

/// A check whether a result of a query is still up to date.
pub struct QueryCheck {
    pub waiter: Waiter,
    pub expected_cached_run_id: usize,
}

/// A run that starts: its number, the instant that it must be fresh for, and what was kept before.
pub struct RunStart<P> {
    pub run_id: usize,
    pub request_time: u64,
    pub cached_result: Option<CachedQueryResult<P>>,
}

pub enum RequestPoll<P> {
    Ready(QueryResult<P>),
    Pending,
    /// Start a run. The request waits for it.
    Run(RunStart<P>),
}

pub enum CheckPoll<P> {
    Ready(bool),
    Pending,
    /// Check what was kept. The check waits for it.
    Check(CachedQueryResult<P>),
}

/// Who waits, over maps.
#[verifier::ext_equal]
pub struct WakersModel {
    pub run_id: usize,
    pub wakers: Map<usize, u64>,
    pub interest_count: int,
}

impl RunningQueryWakers {
    pub open spec fn model(self) -> WakersModel {
        WakersModel {
            run_id: self.run_id,
            wakers: slab_map::slab_contents(self.wakers),
            interest_count: self.interest_count as int,
        }
    }
}

/// The run or check that is under way.
pub open spec fn under_way<P>(kind: QueryStateKind<P>) -> Option<WakersModel> {
    match kind {
        QueryStateKind::Running(w) => Some(w.model()),
        QueryStateKind::Checking(w) => Some(w.model()),
        _ => None,
    }
}

impl Waiter {
    /// Whether this one is registered for a run already.
    pub open spec fn registered(self, run_id: usize) -> bool {
        self.waker_index matches Some(r) && r.run_id == run_id
    }

    /// Where this one is registered for the run that is under way, it is among those who wait.
    pub open spec fn consistent(self, w: WakersModel) -> bool {
        self.registered(w.run_id) ==> w.wakers.contains_key(self.waker_index->0.slab_index)
    }

    /// This one after it joined those who wait, and they with it.
    pub open spec fn joined(
        self,
        before: Waiter,
        w: WakersModel,
        w_before: WakersModel,
        waker: u64,
    ) -> bool {
        &&& self.request_time == before.request_time
        &&& self.have_triggered_source_check == before.have_triggered_source_check
        &&& self.have_registered_interest == Some(w_before.run_id)
        &&& w.run_id == w_before.run_id
        &&& w.interest_count == if before.have_registered_interest == Some(w_before.run_id) {
            w_before.interest_count
        } else {
            w_before.interest_count + 1
        }
        &&& self.waker_index matches Some(r)
        &&& r.run_id == w_before.run_id
        &&& w.wakers == w_before.wakers.insert(r.slab_index, waker)
        &&& if before.registered(w_before.run_id) {
            self.waker_index == before.waker_index
        } else {
            !w_before.wakers.contains_key(r.slab_index)
        }
    }

    /// This one after a run with a number was started for it, with no one else waiting.
    pub open spec fn started(self, before: Waiter, w: WakersModel, run_id: usize, waker: u64) -> bool {
        &&& self.request_time == before.request_time
        &&& self.have_triggered_source_check
        &&& self.have_registered_interest == Some(run_id)
        &&& w.run_id == run_id
        &&& w.interest_count == 1
        &&& self.waker_index matches Some(r)
        &&& r.run_id == run_id
        &&& w.wakers == Map::<usize, u64>::empty().insert(r.slab_index, waker)
    }

    /// Whether a kept result is fresh enough for this one.
    pub open spec fn fresh_enough<P>(self, c: CachedQueryResult<P>) -> bool {
        self.have_triggered_source_check || c.last_check_time >= self.request_time
    }

    fn new(request_time: u64) -> (r: Waiter)
        ensures
            r == (Waiter {
                request_time,
                waker_index: None,
                have_triggered_source_check: false,
                have_registered_interest: None,
            }),
    {
        Waiter {
            request_time,
            waker_index: None,
            have_triggered_source_check: false,
            have_registered_interest: None,
        }
    }

    /// Joins those who wait for a run.
    fn join(&mut self, w: &mut RunningQueryWakers, waker: u64)
        requires
            old(self).consistent(old(w).model()),
            old(w).interest_count < usize::MAX,
        ensures
            final(self).joined(*old(self), final(w).model(), old(w).model(), waker),
    {
        if self.have_registered_interest != Some(w.run_id) {
            w.interest_count = w.interest_count + 1;
            self.have_registered_interest = Some(w.run_id);
        }
        match self.waker_index {
            Some(r) => {
                if w.run_id == r.run_id {
                    slab_set(&mut w.wakers, r.slab_index, waker);
                    return ;
                }
            },
            None => {},
        }
        let slab_index: usize = slab_insert(&mut w.wakers, waker);
        self.waker_index = Some(RegisteredWaker { run_id: w.run_id, slab_index });
    }

    /// Starts a run with a number.
    fn start(&mut self, run_id: usize, waker: u64) -> (w: RunningQueryWakers)
        ensures
            final(self).started(*old(self), w.model(), run_id, waker),
    {
        let mut wakers = slab_new();
        assert(slab_map::slab_contents(wakers) =~= Map::<usize, u64>::empty());
        let slab_index: usize = slab_insert(&mut wakers, waker);
        self.waker_index = Some(RegisteredWaker { run_id, slab_index });
        self.have_registered_interest = Some(run_id);
        self.have_triggered_source_check = true;
        RunningQueryWakers { run_id, wakers, interest_count: 1 }
    }
}

impl<P> QueryState<P> {
    pub fn new() -> (r: QueryState<P>)
        ensures
            r.next_run_id == 1,
            r.kind is Empty,
    {
        QueryState { next_run_id: 1, kind: QueryStateKind::Empty }
    }

    /// No more interest than there can be, and run numbers left.
    pub open spec fn has_room(self) -> bool {
        &&& self.next_run_id < usize::MAX
        &&& under_way(self.kind) matches Some(w) ==> w.interest_count < usize::MAX
    }

    /// Ends a run: the result is kept, and those who waited are given.
    pub fn complete_run(&mut self, cached_result: CachedQueryResult<P>) -> (r: Vec<(usize, u64)>)
        requires
            old(self).kind is Running,
        ensures
            final(self).next_run_id == old(self).next_run_id,
            final(self).kind == QueryStateKind::Cached(cached_result),
            old(self).kind matches QueryStateKind::Running(w) && slab_map::lists_in_order(
                r@,
                w.model().wakers,
            ),
    {
        let mut kind = QueryStateKind::Cached(cached_result);
        core::mem::swap(&mut kind, &mut self.kind);
        match kind {
            QueryStateKind::Running(w) => slab_into_vec(w.wakers),
            _ => Vec::new(),
        }
    }

    /// Ends a check: a result that is up to date is kept as of the instant of the request, and
    /// another is dropped. Those who waited are given.
    pub fn complete_check(
        &mut self,
        up_to_date: bool,
        cached_result: CachedQueryResult<P>,
        request_time: u64,
    ) -> (r: Vec<(usize, u64)>)
        requires
            old(self).kind is Checking,
        ensures
            final(self).next_run_id == old(self).next_run_id,
            final(self).kind == if up_to_date {
                QueryStateKind::Cached(
                    CachedQueryResult { last_check_time: request_time, ..cached_result },
                )
            } else {
                QueryStateKind::Empty
            },
            old(self).kind matches QueryStateKind::Checking(w) && slab_map::lists_in_order(
                r@,
                w.model().wakers,
            ),
    {
        let mut kind = if up_to_date {
            let mut kept = cached_result;
            kept.last_check_time = request_time;
            QueryStateKind::Cached(kept)
        } else {
            QueryStateKind::Empty
        };
        core::mem::swap(&mut kind, &mut self.kind);
        match kind {
            QueryStateKind::Checking(w) => slab_into_vec(w.wakers),
            _ => Vec::new(),
        }
    }

    /// Notes that a result is out of date. Whether the results that used it are so too.
    pub fn mark_dirty(&mut self) -> (r: bool)
        ensures
            final(self).next_run_id == old(self).next_run_id,
            match old(self).kind {
                QueryStateKind::Cached(c) if c.known_dirty_state is Some => r && final(self).kind
                    == QueryStateKind::Cached(
                    CachedQueryResult { known_dirty_state: Some(true), ..c },
                ),
                _ => !r && final(self).kind == old(self).kind,
            },
    {
        match &mut self.kind {
            QueryStateKind::Cached(c) => {
                if c.known_dirty_state.is_none() {
                    return false;
                }
                c.known_dirty_state = Some(true);
                true
            },
            _ => false,
        }
    }

    /// Gives up a run that no one is interested in any more. Whether it was given up.
    pub fn cancel_if_abandoned(&mut self) -> (r: bool)
        ensures
            final(self).next_run_id == old(self).next_run_id,
            r == (old(self).kind matches QueryStateKind::Running(w) && w.interest_count == 0),
            final(self).kind == if r {
                QueryStateKind::Empty
            } else {
                old(self).kind
            },
    {
        let abandoned = match &self.kind {
            QueryStateKind::Running(w) => w.interest_count == 0,
            _ => false,
        };
        if abandoned {
            self.kind = QueryStateKind::Empty;
        }
        abandoned
    }
}

impl QueryRequest {
    pub fn new(request_time: u64) -> (r: QueryRequest)
        ensures
            !r.finished,
            r.waiter == (Waiter {
                request_time,
                waker_index: None,
                have_triggered_source_check: false,
                have_registered_interest: None,
            }),
    {
        QueryRequest { waiter: Waiter::new(request_time), finished: false }
    }

    /// Whether a kept result answers this request.
    pub open spec fn answered_by<P>(self, c: CachedQueryResult<P>) -> bool {
        c.known_dirty_state == Some(false) || self.waiter.fresh_enough(c)
    }

    /// Goes on with a request. A kept result answers it where it was checked at or after the instant
    /// of the request. A run that is under way is waited for. Otherwise a run is started.
    pub fn poll<P>(&mut self, state: &mut QueryState<P>, waker: u64) -> (r: RequestPoll<P>)
        requires
            old(state).has_room(),
            under_way(old(state).kind) matches Some(w) ==> old(self).waiter.consistent(w),
        ensures
            r is Ready <==> (old(state).kind matches QueryStateKind::Cached(c) && (c.known_dirty_state
                == Some(false) || old(self).waiter.have_triggered_source_check || c.last_check_time
                >= old(self).waiter.request_time)),
            match old(state).kind {
                QueryStateKind::Cached(c) if old(self).answered_by(c) => {
                    &&& r == RequestPoll::Ready(c.result)
                    &&& final(self).finished
                    &&& final(self).waiter == old(self).waiter
                    &&& *final(state) == *old(state)
                },
                QueryStateKind::Running(_) | QueryStateKind::Checking(_) => {
                    &&& r is Pending
                    &&& final(self).finished == old(self).finished
                    &&& final(state).next_run_id == old(state).next_run_id
                    &&& final(state).kind is Running == old(state).kind is Running
                    &&& under_way(final(state).kind) matches Some(w)
                    &&& final(self).waiter.joined(
                        old(self).waiter,
                        w,
                        under_way(old(state).kind)->0,
                        waker,
                    )
                },
                _ => {
                    &&& r matches RequestPoll::Run(start)
                    &&& start.run_id == old(state).next_run_id
                    &&& start.request_time == old(self).waiter.request_time
                    &&& start.cached_result == match old(state).kind {
                        QueryStateKind::Cached(c) => Some(c),
                        _ => None,
                    }
                    &&& final(self).finished == old(self).finished
                    &&& final(state).next_run_id == old(state).next_run_id + 1
                    &&& final(state).kind is Running
                    &&& under_way(final(state).kind) matches Some(w)
                    &&& final(self).waiter.started(
                        old(self).waiter,
                        w,
                        old(state).next_run_id,
                        waker,
                    )
                },
            },
    {
        match &mut state.kind {
            QueryStateKind::Empty => {},
            QueryStateKind::Running(w) => {
                self.waiter.join(w, waker);
                return RequestPoll::Pending;
            },
            QueryStateKind::Checking(w) => {
                self.waiter.join(w, waker);
                return RequestPoll::Pending;
            },
            QueryStateKind::Cached(c) => {
                let clean = match c.known_dirty_state {
                    Some(dirty) => !dirty,
                    None => false,
                };
                if clean || self.waiter.have_triggered_source_check || c.last_check_time
                    >= self.waiter.request_time {
                    self.finished = true;
                    return RequestPoll::Ready(c.result.share());
                }
            },
        }
        let run_id: usize = state.next_run_id;
        state.next_run_id = run_id + 1;
        let mut kind = QueryStateKind::Running(self.waiter.start(run_id, waker));
        core::mem::swap(&mut kind, &mut state.kind);
        let cached_result = match kind {
            QueryStateKind::Cached(c) => Some(c),
            _ => None,
        };
        RequestPoll::Run(
            RunStart { run_id, request_time: self.waiter.request_time, cached_result },
        )
    }

    /// Gives up a request: a run that it waits for has one less who is interested.
    pub fn abandon<P>(&self, state: &mut QueryState<P>)
        requires
            match old(state).kind {
                QueryStateKind::Running(w) => !self.finished && self.waiter.have_registered_interest
                    == Some(w.run_id) ==> w.interest_count > 0,
                _ => true,
            },
        ensures
            final(state).next_run_id == old(state).next_run_id,
            match old(state).kind {
                QueryStateKind::Running(w) if !self.finished && self.waiter.have_registered_interest
                    == Some(w.run_id) => final(state).kind == QueryStateKind::<P>::Running(
                    RunningQueryWakers { interest_count: (w.interest_count - 1) as usize, ..w },
                ),
                _ => final(state).kind == old(state).kind,
            },
    {
        if self.finished {
            return ;
        }
        match self.waiter.have_registered_interest {
            Some(run_id) => match &mut state.kind {
                QueryStateKind::Running(w) => {
                    if run_id == w.run_id {
                        w.interest_count = w.interest_count - 1;
                    }
                },
                _ => {},
            },
            None => {},
        }
    }
}

impl QueryCheck {
    pub fn new(request_time: u64, expected_cached_run_id: usize) -> (r: QueryCheck)
        ensures
            r.expected_cached_run_id == expected_cached_run_id,
            r.waiter == (Waiter {
                request_time,
                waker_index: None,
                have_triggered_source_check: false,
                have_registered_interest: None,
            }),
    {
        QueryCheck { waiter: Waiter::new(request_time), expected_cached_run_id }
    }

    /// The answer to a check that a kept result gives, where it gives one.
    pub open spec fn answer<P>(self, c: CachedQueryResult<P>) -> Option<bool> {
        if c.known_dirty_state == Some(false) {
            Some(true)
        } else if self.waiter.fresh_enough(c) {
            Some(c.run_id == self.expected_cached_run_id)
        } else {
            None
        }
    }

    /// Goes on with a check. Where nothing is kept, what was is out of date.
    pub fn poll<P>(&mut self, state: &mut QueryState<P>, waker: u64) -> (r: CheckPoll<P>)
        requires
            old(state).has_room(),
            under_way(old(state).kind) matches Some(w) ==> old(self).waiter.consistent(w),
        ensures
            final(self).expected_cached_run_id == old(self).expected_cached_run_id,
            r == CheckPoll::<P>::Ready(true) <==> (old(state).kind matches QueryStateKind::Cached(c) && (
            c.known_dirty_state == Some(false) || (c.run_id == old(self).expected_cached_run_id && (
            old(self).waiter.have_triggered_source_check || c.last_check_time
                >= old(self).waiter.request_time)))),
            match old(state).kind {
                QueryStateKind::Empty => {
                    &&& r == CheckPoll::<P>::Ready(false)
                    &&& *final(self) == *old(self)
                    &&& *final(state) == *old(state)
                },
                QueryStateKind::Cached(c) if old(self).answer(c) is Some => {
                    &&& r == CheckPoll::<P>::Ready(old(self).answer(c)->0)
                    &&& *final(self) == *old(self)
                    &&& *final(state) == *old(state)
                },
                QueryStateKind::Cached(c) => {
                    &&& r == CheckPoll::Check(c)
                    &&& final(state).next_run_id == old(state).next_run_id + 1
                    &&& final(state).kind is Checking
                    &&& under_way(final(state).kind) matches Some(w)
                    &&& final(self).waiter.started(
                        old(self).waiter,
                        w,
                        old(state).next_run_id,
                        waker,
                    )
                },
                _ => {
                    &&& r is Pending
                    &&& final(state).next_run_id == old(state).next_run_id
                    &&& final(state).kind is Running == old(state).kind is Running
                    &&& under_way(final(state).kind) matches Some(w)
                    &&& final(self).waiter.joined(
                        old(self).waiter,
                        w,
                        under_way(old(state).kind)->0,
                        waker,
                    )
                },
            },
    {
        match &mut state.kind {
            QueryStateKind::Empty => {
                return CheckPoll::Ready(false);
            },
            QueryStateKind::Running(w) => {
                self.waiter.join(w, waker);
                return CheckPoll::Pending;
            },
            QueryStateKind::Checking(w) => {
                self.waiter.join(w, waker);
                return CheckPoll::Pending;
            },
            QueryStateKind::Cached(c) => {
                let clean = match c.known_dirty_state {
                    Some(dirty) => !dirty,
                    None => false,
                };
                if clean {
                    return CheckPoll::Ready(true);
                }
                if self.waiter.have_triggered_source_check || c.last_check_time
                    >= self.waiter.request_time {
                    return CheckPoll::Ready(c.run_id == self.expected_cached_run_id);
                }
            },
        }
        let run_id: usize = state.next_run_id;
        state.next_run_id = run_id + 1;
        let mut kind = QueryStateKind::Checking(self.waiter.start(run_id, waker));
        core::mem::swap(&mut kind, &mut state.kind);
        match kind {
            QueryStateKind::Cached(c) => CheckPoll::Check(c),
            _ => CheckPoll::Pending,
        }
    }
}

/// A kept result that is not known to be clean answers a request that has started no check of its own
/// only where it was checked at or after the instant of the request. What it used makes no
/// difference.
pub proof fn stale_results_are_not_served<P>(request: QueryRequest, c: CachedQueryResult<P>)
    requires
        !request.waiter.have_triggered_source_check,
        c.known_dirty_state != Some(false),
    ensures
        request.answered_by(c) <==> request.waiter.request_time <= c.last_check_time,
{
}

/// A kept result that is known to be clean answers every request, and so does any result one that waited
/// for its own check.
pub proof fn clean_results_are_served<P>(request: QueryRequest, c: CachedQueryResult<P>)
    requires
        request.waiter.have_triggered_source_check || c.known_dirty_state == Some(false),
    ensures
        request.answered_by(c),
{
}

/// A kept result that answers a request answers every one of an earlier instant.
pub proof fn earlier_requests_are_answered_too<P>(
    request: QueryRequest,
    earlier: QueryRequest,
    c: CachedQueryResult<P>,
)
    requires
        request.answered_by(c),
        earlier.waiter.request_time <= request.waiter.request_time,
        earlier.waiter.have_triggered_source_check == request.waiter.have_triggered_source_check,
    ensures
        earlier.answered_by(c),
{
}

/// A check is told that a result is up to date only where the result is known to be clean, or was checked
/// at or after the instant of the check and is of the run that is asked for. It is told that it is not
/// only where another run was checked since.
pub proof fn checks_are_answered_by_fresh_results<P>(check: QueryCheck, c: CachedQueryResult<P>)
    requires
        !check.waiter.have_triggered_source_check,
    ensures
        check.answer(c) == Some(true) <==> c.known_dirty_state == Some(false) || (check.waiter.request_time
            <= c.last_check_time && c.run_id == check.expected_cached_run_id),
        check.answer(c) == Some(false) <==> c.known_dirty_state != Some(false) && check.waiter.request_time
            <= c.last_check_time && c.run_id != check.expected_cached_run_id,
{
}

/// A check that waited for its own look is answered by what it left: whether the run is the one that is
/// asked for.
pub proof fn own_checks_are_answered<P>(check: QueryCheck, c: CachedQueryResult<P>)
    requires
        check.waiter.have_triggered_source_check,
        c.known_dirty_state != Some(false),
    ensures
        check.answer(c) == Some(c.run_id == check.expected_cached_run_id),
{
}

/// One who waits counts once: it adds one to those who are interested when it joins, and nothing when it
/// joins again. It keeps its place, where the waker is the one of the last time.
pub proof fn waiters_count_once(
    before: Waiter,
    once: Waiter,
    twice: Waiter,
    w_before: WakersModel,
    w_once: WakersModel,
    w_twice: WakersModel,
    waker: u64,
    later_waker: u64,
)
    requires
        before.have_registered_interest != Some(w_before.run_id),
        once.joined(before, w_once, w_before, waker),
        twice.joined(once, w_twice, w_once, later_waker),
    ensures
        w_once.interest_count == w_before.interest_count + 1,
        w_twice.interest_count == w_once.interest_count,
        twice.waker_index == once.waker_index,
        once.waker_index is Some,
        w_twice.wakers == w_once.wakers.insert(once.waker_index->0.slab_index, later_waker),
        w_once.run_id == w_before.run_id && w_twice.run_id == w_before.run_id,
        twice.request_time == before.request_time,
        twice.have_triggered_source_check == before.have_triggered_source_check,
{
}

/// One who starts a run is the only one who waits for it, and the only one who is interested.
pub proof fn starters_wait_alone(before: Waiter, after: Waiter, w: WakersModel, run_id: usize, waker: u64)
    requires
        after.started(before, w, run_id, waker),
    ensures
        w.run_id == run_id,
        w.interest_count == 1,
        after.have_registered_interest == Some(run_id),
        after.have_triggered_source_check,
        after.request_time == before.request_time,
        after.waker_index matches Some(r) && r.run_id == run_id && w.wakers.dom() == set![r.slab_index]
            && w.wakers[r.slab_index] == waker,
{
    assert(w.wakers.dom() =~= set![after.waker_index->0.slab_index]);
}

/// Who waits is woken: one that joined a run or started it is among those who are given when it ends.
pub proof fn waiters_are_woken(
    before: Waiter,
    after: Waiter,
    w: WakersModel,
    w_before: WakersModel,
    waker: u64,
    woken: Seq<(usize, u64)>,
)
    requires
        after.joined(before, w, w_before, waker) || after.started(before, w, w.run_id, waker),
        slab_map::lists_in_order(woken, w.wakers),
    ensures
        exists|i: int| 0 <= i < woken.len() && (#[trigger] woken[i]).1 == waker,
{
    let key = after.waker_index->0.slab_index;
    assert(w.wakers.contains_key(key));
    let i = choose|i: int| 0 <= i < woken.len() && (#[trigger] woken[i]).0 == key;
    assert(woken[i].1 == waker);
}

/// No one else is forgotten when another joins: all other entries stay.
pub proof fn joining_keeps_others(
    before: Waiter,
    after: Waiter,
    w: WakersModel,
    w_before: WakersModel,
    waker: u64,
    other: Waiter,
)
    requires
        after.joined(before, w, w_before, waker),
        other.consistent(w_before),
    ensures
        other.consistent(w),
{
}

/// The first decision on a kept result: an error is never served again, and a result that was
/// checked at or after the instant of the request is up to date. Otherwise what it used is checked.
pub enum CacheVerdict {
    Known(bool),
    Check(CacheCheck),
}

/// How many queries are checked at a time.
pub const MAX_QUERY_CHECKS: usize = 32;

/// How many files are checked at a time.
pub const MAX_FILE_CHECKS: usize = 128;

/// A check of all that a result used. Queries and files are counted in order.
pub struct CacheCheck {
    pub queries: usize,
    pub files: usize,
    /// How many checks were started.
    pub started_queries: usize,
    pub started_files: usize,
    /// How many checks ended well.
    pub passed_queries: usize,
    pub passed_files: usize,
}

/// What came of the check of one thing that was used.
#[derive(Clone, Copy, PartialEq, Eq, Structural, Debug)]
pub enum CheckAnswer {
    Query { up_to_date: bool },
    File { changed: bool },
}

impl CheckAnswer {
    /// Whether what was used is up to date.
    pub open spec fn is_good(self) -> bool {
        match self {
            CheckAnswer::Query { up_to_date } => up_to_date,
            CheckAnswer::File { changed } => !changed,
        }
    }
}

impl CacheCheck {
    pub open spec fn wf(self) -> bool {
        &&& self.passed_queries <= self.started_queries <= self.queries
        &&& self.passed_files <= self.started_files <= self.files
        &&& self.started_queries - self.passed_queries <= MAX_QUERY_CHECKS
        &&& self.started_files - self.passed_files <= MAX_FILE_CHECKS
    }

    /// Whether all that was used has been found up to date.
    pub open spec fn all_passed(self) -> bool {
        self.passed_queries == self.queries && self.passed_files == self.files
    }

    /// The check after an answer, and its end, where the answer ends it.
    pub open spec fn answered(self, answer: CheckAnswer) -> (CacheCheck, Option<bool>) {
        if !answer.is_good() {
            (self, Some(false))
        } else {
            let next = match answer {
                CheckAnswer::Query { .. } => CacheCheck {
                    passed_queries: (self.passed_queries + 1) as usize,
                    ..self
                },
                CheckAnswer::File { .. } => CacheCheck { passed_files: (self.passed_files + 1) as usize, ..self },
            };
            (
                next,
                if next.all_passed() {
                    Some(true)
                } else {
                    None
                },
            )
        }
    }

    /// The next query to check, where another check may start.
    pub fn next_query(&mut self) -> (r: Option<usize>)
        requires
            old(self).wf(),
        ensures
            final(self).wf(),
            if old(self).started_queries < old(self).queries && old(self).started_queries
                - old(self).passed_queries < MAX_QUERY_CHECKS {
                &&& r == Some(old(self).started_queries)
                &&& *final(self) == (CacheCheck {
                    started_queries: (old(self).started_queries + 1) as usize,
                    ..*old(self)
                })
            } else {
                r is None && *final(self) == *old(self)
            },
    {
        if self.started_queries < self.queries && self.started_queries - self.passed_queries
            < MAX_QUERY_CHECKS {
            let i: usize = self.started_queries;
            self.started_queries = i + 1;
            Some(i)
        } else {
            None
        }
    }

    /// The next file to check, where another check may start.
    pub fn next_file(&mut self) -> (r: Option<usize>)
        requires
            old(self).wf(),
        ensures
            final(self).wf(),
            if old(self).started_files < old(self).files && old(self).started_files
                - old(self).passed_files < MAX_FILE_CHECKS {
                &&& r == Some(old(self).started_files)
                &&& *final(self) == (CacheCheck {
                    started_files: (old(self).started_files + 1) as usize,
                    ..*old(self)
                })
            } else {
                r is None && *final(self) == *old(self)
            },
    {
        if self.started_files < self.files && self.started_files - self.passed_files
            < MAX_FILE_CHECKS {
            let i: usize = self.started_files;
            self.started_files = i + 1;
            Some(i)
        } else {
            None
        }
    }

    /// The end of the check, where there is nothing left to check.
    pub fn verdict(&self) -> (r: Option<bool>)
        requires
            self.wf(),
        ensures
            r == if self.all_passed() {
                Some(true)
            } else {
                None
            },
    {
        if self.passed_queries == self.queries && self.passed_files == self.files {
            Some(true)
        } else {
            None
        }
    }

    /// Takes the answer for a query. One that is out of date ends the check.
    pub fn query_checked(&mut self, up_to_date: bool) -> (r: Option<bool>)
        requires
            old(self).wf(),
            old(self).passed_queries < old(self).started_queries,
        ensures
            final(self).wf(),
            (*final(self), r) == old(self).answered(CheckAnswer::Query { up_to_date }),
            r == Some(false) <==> !up_to_date,
            up_to_date ==> final(self).passed_queries == old(self).passed_queries + 1,
    {
        if !up_to_date {
            return Some(false);
        }
        self.passed_queries = self.passed_queries + 1;
        self.verdict()
    }

    /// Takes the answer for a file. One that changed ends the check.
    pub fn file_checked(&mut self, changed: bool) -> (r: Option<bool>)
        requires
            old(self).wf(),
            old(self).passed_files < old(self).started_files,
        ensures
            final(self).wf(),
            (*final(self), r) == old(self).answered(CheckAnswer::File { changed }),
            r == Some(false) <==> changed,
            !changed ==> final(self).passed_files == old(self).passed_files + 1,
    {
        if changed {
            return Some(false);
        }
        self.passed_files = self.passed_files + 1;
        self.verdict()
    }
}

/// A check ends in failure exactly at a query that is out of date or a file that changed. It ends well
/// exactly at the answer with which as many queries and files were found up to date as were used.
pub proof fn one_change_fails_a_check(check: CacheCheck, answer: CheckAnswer)
    requires
        check.passed_queries < check.queries || answer is File,
        check.passed_files < check.files || answer is Query,
    ensures
        check.answered(answer).1 == Some(false) <==> (answer == (CheckAnswer::Query { up_to_date: false })
            || answer == (CheckAnswer::File { changed: true })),
        check.answered(answer).1 == Some(true) <==> {
            ||| answer == (CheckAnswer::Query { up_to_date: true }) && check.passed_queries + 1 == check.queries
                && check.passed_files == check.files
            ||| answer == (CheckAnswer::File { changed: false }) && check.passed_files + 1 == check.files
                && check.passed_queries == check.queries
        },
        ({
            let next = check.answered(answer).0;
            &&& next.passed_queries == check.passed_queries + if answer == (CheckAnswer::Query {
                up_to_date: true,
            }) {
                1int
            } else {
                0
            }
            &&& next.passed_files == check.passed_files + if answer == (CheckAnswer::File { changed: false }) {
                1int
            } else {
                0
            }
            &&& next.queries == check.queries
            &&& next.files == check.files
            &&& next.started_queries == check.started_queries
            &&& next.started_files == check.started_files
        }),
{
}

/// A check of answers ends well only where no query among those that count was out of date, and no file
/// had changed, and there were as many as the result used.
pub proof fn kept_results_used_nothing_that_changed(queries: nat, files: nat, answers: Seq<CheckAnswer>)
    requires
        check_after(queries, files, answers).2 == Some(true),
    ensures
        queries + files <= answers.len(),
        forall|i: int|
            0 <= i < queries + files ==> (#[trigger] answers[i] == (CheckAnswer::Query { up_to_date: true })
                || answers[i] == (CheckAnswer::File { changed: false })),
{
    results_are_kept_only_if_unchanged(queries, files, answers);
    let n = choose|n: int|
        {
            &&& 0 <= n <= answers.len()
            &&& n == queries + files
            &&& query_answers(#[trigger] answers.take(n)) == queries
            &&& forall|i: int| 0 <= i < n ==> (#[trigger] answers[i]).is_good()
        };
    assert forall|i: int| 0 <= i < queries + files implies (#[trigger] answers[i] == (CheckAnswer::Query {
        up_to_date: true,
    }) || answers[i] == (CheckAnswer::File { changed: false })) by {
        assert(answers[i].is_good());
    }
}

/// A check that has not ended always has something to start or to wait for.
pub proof fn check_goes_on(c: CacheCheck)
    requires
        c.wf(),
        !c.all_passed(),
    ensures
        ({
            ||| c.passed_queries < c.started_queries
            ||| c.passed_files < c.started_files
            ||| c.started_queries < c.queries && c.started_queries - c.passed_queries
                < MAX_QUERY_CHECKS
            ||| c.started_files < c.files && c.started_files - c.passed_files < MAX_FILE_CHECKS
        }),
{
}

/// How a check of so many queries and files stands after answers: how many queries and how many files were
/// found up to date, and its end, where it has ended.
pub open spec fn check_after(queries: nat, files: nat, answers: Seq<CheckAnswer>) -> (nat, nat, Option<bool>)
    decreases answers.len(),
{
    if answers.len() == 0 {
        (
            0,
            0,
            if queries == 0 && files == 0 {
                Some(true)
            } else {
                None
            },
        )
    } else {
        let (q, f, end) = check_after(queries, files, answers.drop_last());
        let good = answers.last().is_good();
        let next_q = if good && answers.last() is Query {
            q + 1
        } else {
            q
        };
        let next_f = if good && answers.last() is File {
            f + 1
        } else {
            f
        };
        if end is Some {
            (q, f, end)
        } else if !good {
            (q, f, Some(false))
        } else if next_q == queries && next_f == files {
            (next_q, next_f, Some(true))
        } else {
            (next_q, next_f, None)
        }
    }
}

/// How many of the answers are for queries.
pub open spec fn query_answers(answers: Seq<CheckAnswer>) -> nat {
    answers.filter(|answer: CheckAnswer| answer is Query).len()
}

/// A check takes each answer as `check_after` says, whatever was started meanwhile.
pub proof fn checks_take_answers_in_order(check: CacheCheck, answers: Seq<CheckAnswer>, answer: CheckAnswer)
    requires
        check.wf(),
        check_after(check.queries as nat, check.files as nat, answers) == (
            check.passed_queries as nat,
            check.passed_files as nat,
            None::<bool>,
        ),
        answer is Query ==> check.passed_queries < check.started_queries,
        answer is File ==> check.passed_files < check.started_files,
    ensures
        ({
            let (next, end) = check.answered(answer);
            check_after(check.queries as nat, check.files as nat, answers.push(answer)) == (
                next.passed_queries as nat,
                next.passed_files as nat,
                end,
            )
        }),
{
    assert(answers.push(answer).drop_last() =~= answers);
}

/// A result is kept only where all that it used was found up to date, and dropped only where something was
/// found out of date.
pub proof fn results_are_kept_only_if_unchanged(queries: nat, files: nat, answers: Seq<CheckAnswer>)
    ensures
        check_after(queries, files, answers).2 == Some(true) ==> exists|n: int|
            {
                &&& 0 <= n <= answers.len()
                &&& n == queries + files
                &&& query_answers(#[trigger] answers.take(n)) == queries
                &&& forall|i: int| 0 <= i < n ==> (#[trigger] answers[i]).is_good()
            },
        check_after(queries, files, answers).2 == Some(false) ==> exists|i: int|
            0 <= i < answers.len() && !(#[trigger] answers[i]).is_good(),
        check_after(queries, files, answers).2 is None ==> {
            &&& check_after(queries, files, answers).0 + check_after(queries, files, answers).1 == answers.len()
            &&& check_after(queries, files, answers).0 == query_answers(answers)
            &&& forall|i: int| 0 <= i < answers.len() ==> (#[trigger] answers[i]).is_good()
        },
    decreases answers.len(),
{
    reveal(Seq::filter);
    if answers.len() == 0 {
        assert(answers.take(0) =~= answers);
    } else {
        let before = answers.drop_last();
        results_are_kept_only_if_unchanged(queries, files, before);
        match check_after(queries, files, before).2 {
            Some(true) => {
                let n = choose|n: int|
                    {
                        &&& 0 <= n <= before.len()
                        &&& n == queries + files
                        &&& query_answers(#[trigger] before.take(n)) == queries
                        &&& forall|i: int| 0 <= i < n ==> (#[trigger] before[i]).is_good()
                    };
                assert(before.take(n) =~= answers.take(n));
                assert forall|i: int| 0 <= i < n implies (#[trigger] answers[i]).is_good() by {
                    assert(before[i] == answers[i]);
                }
            },
            Some(false) => {
                let i = choose|i: int| 0 <= i < before.len() && !(#[trigger] before[i]).is_good();
                assert(answers[i] == before[i]);
            },
            None => {
                if answers.last().is_good() {
                    assert forall|i: int| 0 <= i < answers.len() implies (#[trigger] answers[i]).is_good() by {
                        if i < before.len() {
                            assert(before[i] == answers[i]);
                        }
                    }
                    assert(answers.take(answers.len() as int) =~= answers);
                } else {
                    assert(!answers[answers.len() - 1].is_good());
                }
            },
        }
    }
}

impl<P> CachedQueryResult<P> {
    /// The first decision on a kept result.
    pub fn check_cached_result(&self, request_time: u64) -> (r: CacheVerdict)
        ensures
            if self.result.run().output is Err {
                r == CacheVerdict::Known(false)
            } else if request_time <= self.last_check_time {
                r == CacheVerdict::Known(true)
            } else {
                r == CacheVerdict::Check(
                    CacheCheck {
                        queries: self.query_references@.len() as usize,
                        files: self.source_references@.len() as usize,
                        started_queries: 0,
                        started_files: 0,
                        passed_queries: 0,
                        passed_files: 0,
                    },
                )
            },
            r matches CacheVerdict::Check(c) ==> c.wf() && c.queries == self.query_references@.len()
                && c.files == self.source_references@.len(),
    {
        match self.result.output() {
            Err(_) => {
                return CacheVerdict::Known(false);
            },
            Ok(_) => {},
        }
        if request_time <= self.last_check_time {
            return CacheVerdict::Known(true);
        }
        CacheVerdict::Check(
            CacheCheck {
                queries: self.query_references.len(),
                files: self.source_references.len(),
                started_queries: 0,
                started_files: 0,
                passed_queries: 0,
                passed_files: 0,
            },
        )
    }
}

/// What a run does after it looked at the kept result.
pub enum RunStep<P> {
    /// End the run with a result that is kept.
    Complete(CachedQueryResult<P>),
    /// Compute the result anew.
    Compute,
}

impl<P> RunStart<P> {
    /// Goes on after the kept result was checked. One that is up to date is kept as it is. A fault in
    /// the check is the result of the run.
    pub fn after_check(self, checked: Result<bool, anyhow::Error>) -> (r: RunStep<P>)
        requires
            self.cached_result is Some,
        ensures
            match checked {
                Ok(true) => r == RunStep::Complete(self.cached_result->0),
                Ok(false) => r is Compute,
                Err(e) => {
                    &&& r matches RunStep::Complete(c)
                    &&& c.run_id == self.run_id
                    &&& c.last_check_time == self.request_time
                    &&& c.result.run().output matches Err(f) && f.cause() == e
                    &&& c.result.run().events@.len() == 0
                    &&& c.result.run().run_id == self.run_id
                    &&& c.source_references@.len() == 0
                    &&& c.query_references@.len() == 0
                    &&& c.known_dirty_state is None
                },
            },
    {
        match checked {
            Ok(true) => match self.cached_result {
                Some(c) => RunStep::Complete(c),
                None => RunStep::Compute,
            },
            Ok(false) => RunStep::Compute,
            Err(e) => RunStep::Complete(
                CachedQueryResult {
                    run_id: self.run_id,
                    last_check_time: self.request_time,
                    result: QueryResult::new(Err(e), Vec::new(), self.run_id),
                    source_references: Vec::new(),
                    query_references: Vec::new(),
                    known_dirty_state: None,
                },
            ),
        }
    }
}

/// The result of a run, to be kept. It is as fresh as the instant of the request.
pub fn finish_run<P>(
    run_id: usize,
    request_time: u64,
    output: Result<P, anyhow::Error>,
    events: Vec<u64>,
    source_references: Vec<SourceReference>,
    query_references: Vec<QueryReference>,
) -> (r: CachedQueryResult<P>)
    ensures
        r.run_id == run_id,
        r.last_check_time == request_time,
        r.result.run().run_id == run_id,
        r.result.run().events == events,
        match (output, r.result.run().output) {
            (Ok(x), Ok(y)) => x == y,
            (Err(e), Err(f)) => f.cause() == e,
            _ => false,
        },
        r.source_references == source_references,
        r.query_references == query_references,
        r.known_dirty_state is None,
{
    CachedQueryResult {
        run_id,
        last_check_time: request_time,
        result: QueryResult::new(output, events, run_id),
        source_references,
        query_references,
        known_dirty_state: None,
    }
}

/// A request is answered by the run that it started, once that ended.
pub proof fn run_answers_its_request<P>(
    before: Waiter,
    after: Waiter,
    w: WakersModel,
    waker: u64,
    finished: bool,
    c: CachedQueryResult<P>,
)
    requires
        after.started(before, w, w.run_id, waker),
    ensures
        (QueryRequest { waiter: after, finished }).answered_by(c),
{
}

impl QueryReference {
    /// Whether a result that was used is up to date, where its node says at once.
    pub fn after_check(&self, definitely_up_to_date: bool) -> (r: Option<bool>)
        ensures
            r == if definitely_up_to_date {
                Some(true)
            } else if self.output_hash is None {
                Some(false)
            } else {
                None
            },
    {
        if definitely_up_to_date {
            return Some(true);
        }
        match &self.output_hash {
            None => Some(false),
            Some(_) => None,
        }
    }

    /// Whether a result that was used is up to date, after its query ran again: the output must have
    /// the same hash.
    pub fn after_rerun(&self, new_hash: &Option<Vec<u8>>) -> (r: bool)
        ensures
            r == match (self.output_hash, *new_hash) {
                (Some(a), Some(b)) => a@ == b@,
                _ => false,
            },
    {
        match (&self.output_hash, new_hash) {
            (Some(a), Some(b)) => bytes_equal(a.as_slice(), b.as_slice()),
            _ => false,
        }
    }
}

/// A run or check that is under way is told with its number, who waits and how many are interested.
pub proof fn runs_under_way_are_told_as_they_are<P>(w: RunningQueryWakers, c: CachedQueryResult<P>)
    ensures
        w.model().run_id == w.run_id,
        w.model().wakers == slab_map::slab_contents(w.wakers),
        w.model().interest_count == w.interest_count,
        under_way(QueryStateKind::<P>::Running(w)) == Some(w.model()),
        under_way(QueryStateKind::<P>::Checking(w)) == Some(w.model()),
        under_way(QueryStateKind::<P>::Empty) is None,
        under_way(QueryStateKind::Cached(c)) is None,
{
}

/// One that joins a run is interested in it and registered for it, in a place that nobody had. Nobody else's
/// waker changes.
pub proof fn joining_takes_a_free_place(
    before: Waiter,
    after: Waiter,
    w_before: WakersModel,
    w: WakersModel,
    waker: u64,
    other: usize,
)
    requires
        after.joined(before, w, w_before, waker),
        before.waker_index matches Some(r) ==> r.run_id != w_before.run_id,
    ensures
        after.have_registered_interest == Some(w.run_id),
        after.waker_index matches Some(r) && r.run_id == w.run_id && !w_before.wakers.contains_key(r.slab_index)
            && w.wakers.contains_key(r.slab_index) && w.wakers[r.slab_index] == waker,
        w_before.wakers.contains_key(other) ==> w.wakers.contains_key(other) && w.wakers[other]
            == w_before.wakers[other],
{
}

/// A check is well under way where no more passed than were started, no more were started than there are, and
/// no more are open than may be.
pub proof fn checks_are_limited(c: CacheCheck)
    requires
        c.wf(),
    ensures
        c.passed_queries <= c.started_queries && c.started_queries <= c.queries,
        c.passed_files <= c.started_files && c.started_files <= c.files,
        c.started_queries - c.passed_queries <= 32,
        c.started_files - c.passed_files <= 128,
        c.all_passed() <==> c.passed_queries == c.queries && c.passed_files == c.files,
{
}

/// A check that has not been answered has ended only where nothing was used. After that each answer counts once,
/// and nothing changes an end.
pub proof fn answers_count_once(queries: nat, files: nat, answers: Seq<CheckAnswer>, answer: CheckAnswer)
    ensures
        check_after(queries, files, Seq::empty()) == (
            0nat,
            0nat,
            if queries == 0 && files == 0 {
                Some(true)
            } else {
                None
            },
        ),
        ({
            let (q, f, end) = check_after(queries, files, answers);
            let (next_q, next_f, next_end) = check_after(queries, files, answers.push(answer));
            &&& end is Some ==> next_end == end
            &&& end is None ==> {
                &&& next_end == Some(false) <==> (answer == (CheckAnswer::Query { up_to_date: false }) || answer == (
                CheckAnswer::File { changed: true }))
                &&& answer == (CheckAnswer::Query { up_to_date: true }) ==> next_q == q + 1 && next_f == f
                &&& answer == (CheckAnswer::File { changed: false }) ==> next_q == q && next_f == f + 1
                &&& next_end == Some(true) ==> next_q == queries && next_f == files
            }
        }),
{
    assert(answers.push(answer).drop_last() =~= answers);
}

} // verus!
