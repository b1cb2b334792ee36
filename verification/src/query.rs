//! Queries: cached, shared, automatically refreshed results of asynchronous
//! work.
//!
//! A [`Query`] names a unit of work (a capability and the keys it runs
//! against) together with its caching policy. [`QueriesStorage`] keeps one
//! entry per query, whoever registers it, and decides what has to happen: the
//! host runs the work, sleeps the timers and wakes the subscribers that the
//! storage names, and reports back what came of it.
use vstd::prelude::*;
use vstd::std_specs::cmp::PartialEqSpec;
use crate::lookup::{
    first_where, lemma_first_where, lemma_first_where_is, lemma_same_keys_same_place, next_token,
    token_after,
};
use crate::requests::{drop_requests, put_request, shortest, shortest_request, with_request, without_requests};
use crate::subscribers::{add_id, copy_ids, drop_id, with_id, without_id};
use crate::time::{Clock, Moment, Span};

verus! {

/// Names a consumer of an entry; the host picks the numbers.
pub type SubscriberId = u64;

/// Names a timer or waiter that the storage asked the host to run.
pub type TaskId = u64;

/// A unit of asynchronous work that can be cached by its keys.
pub trait QueryCapability: 'static + Clone + PartialEq + std::hash::Hash + Eq {
    /// What a successful run returns.
    type Ok;

    /// What a failed run returns. A failure is an outcome like any other: it
    /// is cached and shown.
    type Err;

    /// What the work is run against.
    type Keys: std::hash::Hash + PartialEq + Clone;

    /// The work in flight.
    type Run<'a>: std::future::Future<Output = Result<Self::Ok, Self::Err>> where Self: 'a;

    /// Query logic.
    fn run<'a>(&'a self, keys: &'a Self::Keys) -> Self::Run<'a>;

    /// Custom logic to decide whether this query is invalidated by the given
    /// keys. Unless an implementation says otherwise, every key matches.
    fn matches(&self, keys: &Self::Keys) -> (hit: bool)
        default_ensures
            hit,
    {
        true
    }
}

/// What is known of a query's result.
#[allow(inconsistent_fields)]
pub enum QueryStateData<Q: QueryCapability> {
    /// Has not loaded yet.
    Pending,
    /// Is loading and may not have a previous settled value.
    Loading { res: Option<Result<Q::Ok, Q::Err>> },
    /// Is not loading and has a settled value.
    Settled { res: Result<Q::Ok, Q::Err>, settlement_instant: Moment },
}

impl<Q: QueryCapability> QueryStateData<Q> {
    /// The result this state carries, settled or kept while loading.
    pub open spec fn result(self) -> Option<Result<Q::Ok, Q::Err>> {
        match self {
            QueryStateData::Pending => None,
            QueryStateData::Loading { res } => res,
            QueryStateData::Settled { res, .. } => Some(res),
        }
    }

    /// The state while a run is in flight: `Loading`, with the result carried
    /// so far.
    pub open spec fn loading(self) -> QueryStateData<Q> {
        QueryStateData::Loading { res: self.result() }
    }

    /// Whether a value settled at this state is outdated at `now` for a policy
    /// of `stale_time`. Anything not settled is outdated.
    pub open spec fn stale_at(self, stale_time: Span, now: Moment) -> bool {
        match self {
            QueryStateData::Settled { settlement_instant, .. } => settlement_instant.spec_elapsed_until(
                now,
            ).nanos >= stale_time.nanos,
            _ => true,
        }
    }

    /// Check if the state is `Settled` and `Ok`.
    pub fn is_ok(&self) -> (ok: bool)
        ensures
            ok == (self matches QueryStateData::Settled { res: Ok(_), .. }),
    {
        matches!(self, QueryStateData::Settled { res: Ok(_), .. })
    }

    /// Check if the state is `Settled` and `Err`.
    pub fn is_err(&self) -> (err: bool)
        ensures
            err == (self matches QueryStateData::Settled { res: Err(_), .. }),
    {
        matches!(self, QueryStateData::Settled { res: Err(_), .. })
    }

    /// Check if the state is `Loading`.
    pub fn is_loading(&self) -> (loading: bool)
        ensures
            loading == (self is Loading),
    {
        matches!(self, QueryStateData::Loading { .. })
    }

    /// Check if the state is `Pending`.
    pub fn is_pending(&self) -> (pending: bool)
        ensures
            pending == (self is Pending),
    {
        matches!(self, QueryStateData::Pending)
    }

    /// Check if the state is stale at `now`, where stale means outdated.
    pub fn is_stale_at(&self, query: &Query<Q>, now: Moment) -> (stale: bool)
        ensures
            stale == self.stale_at(query.stale_time, now),
    {
        self.is_stale_for(query.stale_time, now)
    }

    /// Check if the state is stale at `now` for a policy of `stale_time`.
    pub fn is_stale_for(&self, stale_time: Span, now: Moment) -> (stale: bool)
        ensures
            stale == self.stale_at(stale_time, now),
    {
        match self {
            QueryStateData::Pending => true,
            QueryStateData::Loading { .. } => true,
            QueryStateData::Settled { settlement_instant, .. } => settlement_instant.elapsed_until(
                now,
            ).nanos >= stale_time.nanos,
        }
    }

    /// Check if the state is stale by the reading of `clock`. What is not
    /// settled is stale whatever the clock says.
    pub fn is_stale(&self, query: &Query<Q>, clock: &Clock) -> (stale: bool)
        ensures
            !(self is Settled) ==> stale,
            exists|now: Moment| stale == self.stale_at(query.stale_time, now),
    {
        let now = clock.now();
        self.is_stale_at(query, now)
    }

    /// Get the value as an `Option`.
    pub fn ok(&self) -> (value: Option<&Q::Ok>)
        ensures
            match self.result() {
                Some(Ok(v)) => value == Some(&v),
                _ => value is None,
            },
    {
        match self {
            QueryStateData::Settled { res: Ok(res), .. } => Some(res),
            QueryStateData::Loading { res: Some(Ok(res)) } => Some(res),
            _ => None,
        }
    }

    /// Get the result. There must be one: the state is settled, or loading
    /// with a previous result.
    pub fn unwrap(&self) -> (res: &Result<Q::Ok, Q::Err>)
        requires
            self.result() is Some,
        ensures
            Some(*res) == self.result(),
    {
        match self {
            QueryStateData::Loading { res: Some(v) } => v,
            QueryStateData::Settled { res, .. } => res,
            _ => vstd::pervasive::unreached(),
        }
    }

    /// Moves to `Loading`, carrying the result along.
    pub fn into_loading(self) -> (next: QueryStateData<Q>)
        ensures
            next == self.loading(),
    {
        match self {
            QueryStateData::Pending => QueryStateData::Loading { res: None },
            QueryStateData::Loading { res } => QueryStateData::Loading { res },
            QueryStateData::Settled { res, .. } => QueryStateData::Loading { res: Some(res) },
        }
    }
}

/// A query for a one-off read: it is looked up or run once, and nobody
/// subscribes.
pub struct GetQuery<Q: QueryCapability> {
    pub query: Q,
    pub keys: Q::Keys,
    pub stale_time: Span,
    pub clean_time: Span,
}

impl<Q: QueryCapability> GetQuery<Q> {
    /// The query that a one-off read stands for: enabled, and without an
    /// interval.
    pub open spec fn as_query(self) -> Query<Q> {
        Query {
            query: self.query,
            keys: self.keys,
            enabled: true,
            stale_time: self.stale_time,
            clean_time: self.clean_time,
            interval_time: Span { nanos: crate::time::NEVER_NANOS },
        }
    }

    pub fn new(keys: Q::Keys, query: Q) -> (get: Self)
        ensures
            get == (GetQuery { query, keys, stale_time: Span { nanos: 0 }, clean_time: Span { nanos: 0 } }),
    {
        GetQuery { query, keys, stale_time: Span::zero(), clean_time: Span::zero() }
    }

    /// For how long the data is considered fresh. Defaults to zero: the data
    /// is stale as soon as it has settled.
    pub fn stale_time(self, stale_time: Span) -> (get: Self)
        ensures
            get == (GetQuery { stale_time, ..self }),
    {
        GetQuery { stale_time, ..self }
    }

    /// For how long the data is kept after the last subscriber has gone.
    /// Defaults to zero: it is cleared at once.
    pub fn clean_time(self, clean_time: Span) -> (get: Self)
        ensures
            get == (GetQuery { clean_time, ..self }),
    {
        GetQuery { clean_time, ..self }
    }
}

/// The default clean-up delay of a [`Query`]: five minutes.
pub const DEFAULT_CLEAN_NANOS: u128 = 300_000_000_000;

/// A capability, the keys to run it against, and the caching policy.
pub struct Query<Q: QueryCapability> {
    pub query: Q,
    pub keys: Q::Keys,
    pub enabled: bool,
    pub stale_time: Span,
    pub clean_time: Span,
    pub interval_time: Span,
}

impl<Q: QueryCapability> Query<Q> {
    /// Whether two queries share one cache entry: equal capability and keys,
    /// and the same `enabled`, `stale_time` and `clean_time`. The interval is
    /// a wish of each subscriber and takes no part.
    pub open spec fn same_entry(&self, other: &Self) -> bool {
        &&& self.query.eq_spec(&other.query)
        &&& self.keys.eq_spec(&other.keys)
        &&& self.enabled == other.enabled
        &&& self.stale_time == other.stale_time
        &&& self.clean_time == other.clean_time
    }

    pub fn new(keys: Q::Keys, query: Q) -> (made: Self)
        ensures
            made == (Query {
                query,
                keys,
                enabled: true,
                stale_time: Span { nanos: 0 },
                clean_time: Span { nanos: DEFAULT_CLEAN_NANOS },
                interval_time: Span { nanos: crate::time::NEVER_NANOS },
            }),
    {
        Query {
            query,
            keys,
            enabled: true,
            stale_time: Span::zero(),
            clean_time: Span::from_nanos(DEFAULT_CLEAN_NANOS),
            interval_time: Span::never(),
        }
    }

    /// Enable or disable this query so that it does not run on its own.
    /// Defaults to `true`.
    pub fn enable(self, enabled: bool) -> (made: Self)
        ensures
            made == (Query { enabled, ..self }),
    {
        Query { enabled, ..self }
    }

    /// For how long the data is considered fresh. A subscriber that arrives
    /// while the data is stale makes the query run again. Defaults to zero.
    pub fn stale_time(self, stale_time: Span) -> (made: Self)
        ensures
            made == (Query { stale_time, ..self }),
    {
        Query { stale_time, ..self }
    }

    /// For how long the data is kept after the last subscriber has gone.
    /// Defaults to five minutes.
    pub fn clean_time(self, clean_time: Span) -> (made: Self)
        ensures
            made == (Query { clean_time, ..self }),
    {
        Query { clean_time, ..self }
    }

    /// How often the query runs again by itself. Defaults to never. Where
    /// subscribers of one query ask for different intervals, the shortest
    /// one is used.
    pub fn interval_time(self, interval_time: Span) -> (made: Self)
        ensures
            made == (Query { interval_time, ..self }),
    {
        Query { interval_time, ..self }
    }
}

/// What the storage tells the host after a registration.
pub struct Registration {
    /// Whether the registration made a new entry.
    pub created: bool,
    /// The clean-up timer to stop: the entry is wanted again.
    pub cancel_clean: Option<TaskId>,
    /// The interval timer to stop: a shorter one replaces it.
    pub cancel_interval: Option<TaskId>,
    /// The interval timer to start, with its period.
    pub arm_interval: Option<(TaskId, Span)>,
}

/// What the storage tells the host when a consumer lets go of an entry.
pub struct Teardown {
    /// The interval timer to stop: the shortest interval that is still asked
    /// for is another one, or none is asked for any more.
    pub cancel_interval: Option<TaskId>,
    /// The interval timer to start, with its period: the shortest interval
    /// that is still asked for.
    pub arm_interval: Option<(TaskId, Span)>,
    /// The clean-up timer to stop: a new one replaces it.
    pub cancel_clean: Option<TaskId>,
    /// The clean-up timer to start, with its delay.
    pub arm_clean: Option<(TaskId, Span)>,
}

/// What the storage tells the host when an entry may have to run.
pub struct RunPlan {
    /// Whether the host must run the capability now and settle the entry
    /// with what it returns.
    pub run: bool,
    /// The subscribers to wake, in the order in which they subscribed.
    pub notify: Vec<SubscriberId>,
}

/// What the storage tells the host when a run has settled.
pub struct Settlement {
    /// The subscribers to wake, in the order in which they subscribed.
    pub notify: Vec<SubscriberId>,
    /// The waiter to release, if a consumer was suspended on the entry.
    pub wake: Option<TaskId>,
}

/// What the storage tells the host when a consumer turns to a query.
pub struct Mount {
    /// What the registration of the query asks for.
    pub registration: Registration,
    /// What letting go of the query held before asks for.
    pub teardown: Teardown,
    /// Whether the query is due to run: the host then starts a task that
    /// asks [`QueriesStorage::maybe_run`] and runs the query if that says
    /// so. Until then the entry stays as it is.
    pub run_due: bool,
}

/// One run that an invalidation asks for.
pub struct RunOrder {
    /// The slot of the query to run; see [`QueriesStorage::query_at`].
    pub slot: usize,
    /// The subscribers to wake before the run starts.
    pub notify: Vec<SubscriberId>,
}

/// Run orders as mathematical values: the slot and the subscribers of each.
pub open spec fn orders_of(orders: Seq<RunOrder>) -> Seq<(int, Seq<SubscriberId>)> {
    Seq::new(orders.len(), |k: int| (orders[k].slot as int, orders[k].notify@))
}

/// The answer to a consumer that wants to wait for a result.
pub enum Suspension {
    /// A result is there: read it.
    Ready,
    /// No result yet. The consumer waits on `waiter`; where `armed` is set
    /// the waiter is new and the host has to create it, otherwise it exists
    /// and the consumer joins it.
    Suspended { waiter: TaskId, armed: bool },
}

/// One entry of the cache as a mathematical value: what [`QueryData`] holds.
pub struct Entry<Q: QueryCapability> {
    pub state: QueryStateData<Q>,
    pub subscribers: Seq<SubscriberId>,
    /// The interval that each consumer asked for at its registration.
    pub requests: Seq<(SubscriberId, Span)>,
    pub suspense_task: Option<TaskId>,
    pub interval_task: Option<(Span, TaskId)>,
    pub clean_task: Option<TaskId>,
}

impl<Q: QueryCapability> Entry<Q> {
    /// The entry of a query that nobody has touched: pending, without
    /// subscribers, timers or waiter.
    pub open spec fn fresh() -> Self {
        Entry {
            state: QueryStateData::Pending,
            subscribers: Seq::empty(),
            requests: Seq::empty(),
            suspense_task: None,
            interval_task: None,
            clean_task: None,
        }
    }

    /// No subscriber is listed twice, a clean-up is pending only while
    /// nobody subscribes, and the interval timer runs with the shortest
    /// interval that is asked for.
    pub open spec fn wf(self) -> bool {
        &&& self.subscribers.no_duplicates()
        &&& self.clean_task is Some ==> self.subscribers.len() == 0
        &&& self.effective_interval() == shortest_request(self.requests)
    }

    /// With `id` among the subscribers and no clean-up pending.
    pub open spec fn subscribed(self, id: SubscriberId) -> Self {
        Entry { subscribers: with_id(self.subscribers, id), clean_task: None, ..self }
    }

    /// Without `id` among the subscribers.
    pub open spec fn unsubscribed(self, id: SubscriberId) -> Self {
        Entry { subscribers: without_id(self.subscribers, id), ..self }
    }

    /// With a run in flight.
    pub open spec fn begun(self) -> Self {
        Entry { state: self.state.loading(), ..self }
    }

    /// Settled with `res` at `now`; the waiter, if any, is released.
    pub open spec fn settled(self, res: Result<Q::Ok, Q::Err>, now: Moment) -> Self {
        Entry {
            state: QueryStateData::Settled { res, settlement_instant: now },
            suspense_task: None,
            ..self
        }
    }

    /// Whether the interval timer has to change: it does not run with the
    /// shortest interval that is asked for.
    pub open spec fn retime_due(self) -> bool {
        self.effective_interval() != shortest_request(self.requests)
    }

    /// The interval timer to stop when the timer has to change.
    pub open spec fn retime_stops(self) -> Option<TaskId> {
        if self.retime_due() {
            match self.interval_task {
                Some((_, running)) => Some(running),
                None => None,
            }
        } else {
            None
        }
    }

    /// The period of the interval timer to start when the timer has to
    /// change: the shortest interval that is asked for.
    pub open spec fn retime_arms(self) -> Option<Span> {
        if self.retime_due() {
            shortest_request(self.requests)
        } else {
            None
        }
    }

    /// With the interval timer in step with the requests: where it has to
    /// change, the timer `token` runs with the shortest interval that is
    /// asked for, or none if nothing is asked for.
    pub open spec fn retimed(self, token: TaskId) -> Self {
        if self.retime_due() {
            Entry {
                interval_task: match shortest_request(self.requests) {
                    Some(period) => Some((period, token)),
                    None => None,
                },
                ..self
            }
        } else {
            self
        }
    }

    /// With the request of `id` for `interval` noted, in place of what it
    /// asked for before.
    pub open spec fn asked(self, id: SubscriberId, interval: Span) -> Self {
        Entry { requests: with_request(self.requests, id, interval), ..self }
    }

    /// Without the request of `id`.
    pub open spec fn released(self, id: SubscriberId) -> Self {
        Entry { requests: without_requests(self.requests, id), ..self }
    }

    /// After the registration of `id`, which asks for `interval`: no
    /// clean-up pending, the request noted, and the interval timer in step
    /// with the requests.
    pub open spec fn registered(self, id: SubscriberId, interval: Span, token: TaskId) -> Self {
        Entry { clean_task: None, ..self.asked(id, interval) }.retimed(token)
    }

    /// With the clean-up timer `token` if nobody subscribes.
    pub open spec fn parked(self, token: TaskId) -> Self {
        Entry {
            clean_task: if self.subscribers.len() == 0 {
                Some(token)
            } else {
                self.clean_task
            },
            ..self
        }
    }

    /// Whether a consumer that wants a result has to wait.
    pub open spec fn must_wait(self) -> bool {
        self.state.result() is None
    }

    /// With the waiter `token` armed, unless one is armed already or a
    /// result is there.
    pub open spec fn awaited(self, token: TaskId) -> Self {
        if self.must_wait() && self.suspense_task is None {
            Entry { suspense_task: Some(token), ..self }
        } else {
            self
        }
    }

    /// The period of the background revalidation, if a timer runs.
    pub open spec fn effective_interval(self) -> Option<Span> {
        match self.interval_task {
            Some((period, _)) => Some(period),
            None => None,
        }
    }
}

/// The state, subscribers and timers of one query.
pub struct QueryData<Q: QueryCapability> {
    state: QueryStateData<Q>,
    reactive_contexts: Vec<SubscriberId>,
    intervals: Vec<(SubscriberId, Span)>,
    suspense_task: Option<TaskId>,
    interval_task: Option<(Span, TaskId)>,
    clean_task: Option<TaskId>,
}

impl<Q: QueryCapability> View for QueryData<Q> {
    type V = Entry<Q>;

    closed spec fn view(&self) -> Entry<Q> {
        Entry {
            state: self.state,
            subscribers: self.reactive_contexts@,
            requests: self.intervals@,
            suspense_task: self.suspense_task,
            interval_task: self.interval_task,
            clean_task: self.clean_task,
        }
    }
}

impl<Q: QueryCapability> QueryData<Q> {
    /// A pending entry that nobody subscribes to.
    pub fn new() -> (data: Self)
        ensures
            data@ == Entry::<Q>::fresh(),
            data@.wf(),
    {
        QueryData {
            state: QueryStateData::Pending,
            reactive_contexts: Vec::new(),
            intervals: Vec::new(),
            suspense_task: None,
            interval_task: None,
            clean_task: None,
        }
    }

    /// The current state.
    pub fn state(&self) -> (state: &QueryStateData<Q>)
        ensures
            *state == self@.state,
    {
        &self.state
    }

    /// The subscribers, in the order in which they subscribed.
    pub fn subscribers(&self) -> (ids: Vec<SubscriberId>)
        ensures
            ids@ == self@.subscribers,
    {
        copy_ids(&self.reactive_contexts)
    }

    /// The armed waiter, if a consumer is suspended on this entry.
    pub fn suspense_task(&self) -> (task: Option<TaskId>)
        ensures
            task == self@.suspense_task,
    {
        self.suspense_task
    }

    /// The running interval timer with its period.
    pub fn interval_task(&self) -> (task: Option<(Span, TaskId)>)
        ensures
            task == self@.interval_task,
    {
        self.interval_task
    }

    /// The pending clean-up timer.
    pub fn clean_task(&self) -> (task: Option<TaskId>)
        ensures
            task == self@.clean_task,
    {
        self.clean_task
    }

    /// Adds a subscriber and returns the clean-up timer that must be stopped
    /// now that the entry is wanted.
    pub fn subscribe(&mut self, id: SubscriberId) -> (cancel_clean: Option<TaskId>)
        requires
            old(self)@.wf(),
        ensures
            final(self)@ == old(self)@.subscribed(id),
            final(self)@.wf(),
            cancel_clean == old(self)@.clean_task,
    {
        add_id(&mut self.reactive_contexts, id);
        self.clean_task.take()
    }

    /// Removes a subscriber.
    pub fn unsubscribe(&mut self, id: SubscriberId)
        requires
            old(self)@.wf(),
        ensures
            final(self)@ == old(self)@.unsubscribed(id),
            final(self)@.wf(),
    {
        drop_id(&mut self.reactive_contexts, id);
    }

    /// Marks a run as in flight and returns the subscribers to wake.
    pub fn begin_run(&mut self) -> (notify: Vec<SubscriberId>)
        ensures
            final(self)@ == old(self)@.begun(),
            notify@ == old(self)@.subscribers,
    {
        let mut state = QueryStateData::Pending;
        std::mem::swap(&mut self.state, &mut state);
        self.state = state.into_loading();
        copy_ids(&self.reactive_contexts)
    }

    /// Stores the outcome of a run and returns whom to wake.
    pub fn settle(&mut self, res: Result<Q::Ok, Q::Err>, now: Moment) -> (done: Settlement)
        ensures
            final(self)@ == old(self)@.settled(res, now),
            done.notify@ == old(self)@.subscribers,
            done.wake == old(self)@.suspense_task,
    {
        self.state = QueryStateData::Settled { res, settlement_instant: now };
        let wake = self.suspense_task.take();
        Settlement { notify: copy_ids(&self.reactive_contexts), wake }
    }

    /// The interval that each consumer asked for, in the order of the
    /// requests.
    pub fn requests(&self) -> (asked: Vec<(SubscriberId, Span)>)
        ensures
            asked@ == self@.requests,
    {
        let mut asked: Vec<(SubscriberId, Span)> = Vec::new();
        let mut i: usize = 0;
        while i < self.intervals.len()
            invariant
                i <= self.intervals.len(),
                asked@ == self.intervals@.take(i as int),
            decreases self.intervals.len() - i,
        {
            asked.push(self.intervals[i]);
            assert(self.intervals@.take(i + 1) == self.intervals@.take(i as int).push(
                self.intervals@[i as int],
            ));
            i += 1;
        }
        assert(self.intervals@.take(i as int) == self.intervals@);
        asked
    }

    /// Brings the interval timer in step with the requests: where it does
    /// not run with the shortest interval that is asked for, it is replaced
    /// by the timer `token` with that interval, or stopped if nothing is
    /// asked for. Returns the timer to stop and the period of the timer to
    /// start.
    fn retime(&mut self, token: TaskId) -> (change: (Option<TaskId>, Option<Span>))
        ensures
            final(self)@ == old(self)@.retimed(token),
            change.0 == old(self)@.retime_stops(),
            change.1 == old(self)@.retime_arms(),
    {
        let wanted = shortest(&self.intervals);
        let in_step = match (self.interval_task, wanted) {
            (Some((running, _)), Some(period)) => running.nanos == period.nanos,
            (None, None) => true,
            _ => false,
        };
        if in_step {
            (None, None)
        } else {
            let stop = match self.interval_task {
                Some((_, running)) => Some(running),
                None => None,
            };
            self.interval_task = match wanted {
                Some(period) => Some((period, token)),
                None => None,
            };
            (stop, wanted)
        }
    }

    /// Takes the registration of `id` into account, which asks for
    /// `interval`: stops a pending clean-up, notes the request, and brings
    /// the interval timer in step, using `token` for a new timer. Returns
    /// the clean-up timer to stop, the interval timer to stop, and the
    /// period of the interval timer to start.
    pub fn register(&mut self, id: SubscriberId, interval: Span, token: TaskId) -> (change: (
        Option<TaskId>,
        Option<TaskId>,
        Option<Span>,
    ))
        ensures
            final(self)@ == old(self)@.registered(id, interval, token),
            change.0 == old(self)@.clean_task,
            change.1 == old(self)@.asked(id, interval).retime_stops(),
            change.2 == old(self)@.asked(id, interval).retime_arms(),
    {
        let cancel_clean = self.clean_task.take();
        put_request(&mut self.intervals, id, interval);
        let (stop, arm) = self.retime(token);
        (cancel_clean, stop, arm)
    }

    /// Forgets the interval that `id` asked for and brings the interval
    /// timer in step with what the others ask for, using `token` for a new
    /// timer. Returns the interval timer to stop and the period of the
    /// interval timer to start.
    pub fn release(&mut self, id: SubscriberId, token: TaskId) -> (change: (Option<TaskId>, Option<Span>))
        ensures
            final(self)@ == old(self)@.released(id).retimed(token),
            change.0 == old(self)@.released(id).retime_stops(),
            change.1 == old(self)@.released(id).retime_arms(),
    {
        drop_requests(&mut self.intervals, id);
        self.retime(token)
    }

    /// Arms the clean-up timer `token` if nobody subscribes. Returns the
    /// clean-up timer that `token` replaces and whether `token` was used.
    pub fn park(&mut self, token: TaskId) -> (change: (Option<TaskId>, bool))
        ensures
            final(self)@ == old(self)@.parked(token),
            change.1 == (old(self)@.subscribers.len() == 0),
            change.0 == if change.1 {
                old(self)@.clean_task
            } else {
                None
            },
    {
        let idle = self.reactive_contexts.len() == 0;
        let mut cancel_clean: Option<TaskId> = None;
        if idle {
            cancel_clean = self.clean_task;
            self.clean_task = Some(token);
        }
        (cancel_clean, idle)
    }

    /// Answers a consumer that wants to wait for a result: arms the waiter
    /// `token` where there is no result and no waiter yet.
    pub fn suspend(&mut self, token: TaskId) -> (answer: Suspension)
        ensures
            final(self)@ == old(self)@.awaited(token),
            answer == if !old(self)@.must_wait() {
                Suspension::Ready
            } else {
                match old(self)@.suspense_task {
                    Some(waiter) => Suspension::Suspended { waiter, armed: false },
                    None => Suspension::Suspended { waiter: token, armed: true },
                }
            },
    {
        let waits = match &self.state {
            QueryStateData::Pending => true,
            QueryStateData::Loading { res: None } => true,
            _ => false,
        };
        if !waits {
            Suspension::Ready
        } else {
            match self.suspense_task {
                Some(waiter) => Suspension::Suspended { waiter, armed: false },
                None => {
                    self.suspense_task = Some(token);
                    Suspension::Suspended { waiter: token, armed: true }
                },
            }
        }
    }
}

/// Whether capabilities and keys can be told apart by `==`: the comparison
/// that runs is the one that the contracts of this module speak of, and
/// every capability and every key equals itself.
pub open spec fn comparable<Q: QueryCapability>() -> bool {
    &&& Q::obeys_eq_spec()
    &&& <Q::Keys as PartialEqSpec>::obeys_eq_spec()
    &&& forall|capability: Q| #[trigger] capability.eq_spec(&capability)
    &&& forall|keys: Q::Keys| #[trigger] keys.eq_spec(&keys)
}

impl<Q: QueryCapability> PartialEq for Query<Q> {
    /// Two queries are equal when they share one cache entry; the interval
    /// is not compared.
    fn eq(&self, other: &Self) -> (same: bool) {
        self.query == other.query && self.keys == other.keys && self.enabled == other.enabled
            && self.stale_time == other.stale_time && self.clean_time == other.clean_time
    }
}

impl<Q: QueryCapability> vstd::std_specs::cmp::PartialEqSpecImpl for Query<Q> {
    open spec fn obeys_eq_spec() -> bool {
        comparable::<Q>()
    }

    open spec fn eq_spec(&self, other: &Self) -> bool {
        self.same_entry(other)
    }
}

impl<Q: QueryCapability> Eq for Query<Q> {

}

impl<Q: QueryCapability> Clone for Query<Q> {
    /// A query with a clone of the capability and of the keys, and the same
    /// policy.
    fn clone(&self) -> (copy: Self)
        ensures
            cloned(self.query, copy.query),
            cloned(self.keys, copy.keys),
            copy.enabled == self.enabled,
            copy.stale_time == self.stale_time,
            copy.clean_time == self.clean_time,
            copy.interval_time == self.interval_time,
    {
        Query {
            query: self.query.clone(),
            keys: self.keys.clone(),
            enabled: self.enabled,
            stale_time: self.stale_time,
            clean_time: self.clean_time,
            interval_time: self.interval_time,
        }
    }
}

impl<Q: QueryCapability> From<GetQuery<Q>> for Query<Q> {
    fn from(value: GetQuery<Q>) -> (query: Self) {
        Query {
            query: value.query,
            keys: value.keys,
            enabled: true,
            stale_time: value.stale_time,
            clean_time: value.clean_time,
            interval_time: Span::never(),
        }
    }
}

impl<Q: QueryCapability> vstd::std_specs::convert::FromSpecImpl<GetQuery<Q>> for Query<Q> {
    open spec fn obeys_from_spec() -> bool {
        true
    }

    open spec fn from_spec(value: GetQuery<Q>) -> Self {
        value.as_query()
    }
}

/// What tells the queries apart that share an entry with `q`.
pub open spec fn sharing<Q: QueryCapability>(q: Query<Q>) -> spec_fn(Query<Q>) -> bool {
    |held: Query<Q>| held.same_entry(&q)
}

/// The cache as a mathematical value: what [`QueriesStorage`] holds. The
/// slots stand in the order in which their queries were first registered.
pub struct Cache<Q: QueryCapability> {
    pub slots: Seq<(Query<Q>, Entry<Q>)>,
    pub next_task: TaskId,
}

impl<Q: QueryCapability> Cache<Q> {
    /// The cache without entries.
    pub open spec fn empty() -> Self {
        Cache { slots: Seq::empty(), next_task: 0 }
    }

    /// The slot of `q`: the first one whose query shares its entry with `q`.
    pub open spec fn position(self, q: Query<Q>) -> Option<int> {
        first_where(self.slots, sharing(q), 0)
    }

    /// Whether `q` has an entry.
    pub open spec fn contains(self, q: Query<Q>) -> bool {
        self.position(q) is Some
    }

    /// The entry of `q`.
    pub open spec fn entry(self, q: Query<Q>) -> Entry<Q>
        recommends
            self.contains(q),
    {
        self.slots[self.position(q).unwrap()].1
    }

    /// Keys and capabilities can be compared, every entry is well formed,
    /// and no two slots share an entry.
    pub open spec fn wf(self) -> bool {
        &&& comparable::<Q>()
        &&& forall|i: int| 0 <= i < self.slots.len() ==> (#[trigger] self.slots[i]).1.wf()
        &&& forall|i: int, j: int|
            0 <= i < j < self.slots.len() ==> !(#[trigger] self.slots[i]).0.same_entry(
                &(#[trigger] self.slots[j]).0,
            )
    }

    /// The cache with a fresh entry for `q` at the end, unless `q` has one.
    pub open spec fn installed(self, q: Query<Q>) -> Self {
        if self.contains(q) {
            self
        } else {
            Cache { slots: self.slots.push((q, Entry::fresh())), ..self }
        }
    }

    /// The slot that `q` has once it is installed.
    pub open spec fn place(self, q: Query<Q>) -> int {
        match self.position(q) {
            Some(i) => i,
            None => self.slots.len() as int,
        }
    }

    /// The cache with `entry` in slot `i`.
    pub open spec fn amended(self, i: int, entry: Entry<Q>) -> Self {
        Cache { slots: self.slots.update(i, (self.slots[i].0, entry)), ..self }
    }

    /// The cache with the next task id taken, if `taken`.
    pub open spec fn advanced(self, taken: bool) -> Self {
        if taken {
            Cache { next_task: token_after(self.next_task), ..self }
        } else {
            self
        }
    }

    /// The cache after the consumer `id` registered `q`: the entry exists,
    /// no clean-up is pending on it, the interval that the consumer asks for
    /// is noted, and the interval timer runs with the shortest interval
    /// that is asked for.
    pub open spec fn registered(self, q: Query<Q>, id: SubscriberId) -> Self {
        let base = self.installed(q);
        let i = self.place(q);
        let entry = base.slots[i].1;
        base.amended(i, entry.registered(id, q.interval_time, self.next_task)).advanced(
            entry.asked(id, q.interval_time).retime_arms() is Some,
        )
    }

    /// What the host is told when the consumer `id` registers `q`.
    pub open spec fn registration(self, q: Query<Q>, id: SubscriberId) -> Registration {
        let entry = self.installed(q).slots[self.place(q)].1;
        let asked = entry.asked(id, q.interval_time);
        Registration {
            created: !self.contains(q),
            cancel_clean: entry.clean_task,
            cancel_interval: asked.retime_stops(),
            arm_interval: match asked.retime_arms() {
                Some(period) => Some((self.next_task, period)),
                None => None,
            },
        }
    }

    /// The cache after `id` subscribed to `q`.
    pub open spec fn subscribed(self, q: Query<Q>, id: SubscriberId) -> Self {
        match self.position(q) {
            Some(i) => self.amended(i, self.slots[i].1.subscribed(id)),
            None => self,
        }
    }

    /// The cache after the consumer `id` let go of `q`: the interval it
    /// asked for is forgotten.
    pub open spec fn released(self, q: Query<Q>, id: SubscriberId) -> Self {
        match self.position(q) {
            Some(i) => self.amended(i, self.slots[i].1.released(id)),
            None => self,
        }
    }

    /// The cache with the interval timer of `q` in step with the intervals
    /// that are asked for.
    pub open spec fn retimed(self, q: Query<Q>) -> Self {
        match self.position(q) {
            Some(i) => self.amended(i, self.slots[i].1.retimed(self.next_task)).advanced(
                self.slots[i].1.retime_arms() is Some,
            ),
            None => self,
        }
    }

    /// The cache after the consumer `id` let go of `q`: the interval it
    /// asked for is forgotten, the interval timer runs with the shortest
    /// interval that the others ask for, and the clean-up timer is armed if
    /// nobody subscribes.
    pub open spec fn torn_down(self, q: Query<Q>, id: SubscriberId) -> Self {
        self.released(q, id).retimed(q).parked(q)
    }

    /// What the host is told when the consumer `id` lets go of `q`.
    pub open spec fn teardown(self, q: Query<Q>, id: SubscriberId) -> Teardown {
        match self.position(q) {
            Some(i) => {
                let entry = self.slots[i].1.released(id);
                let idle = entry.subscribers.len() == 0;
                Teardown {
                    cancel_interval: entry.retime_stops(),
                    arm_interval: match entry.retime_arms() {
                        Some(period) => Some((self.next_task, period)),
                        None => None,
                    },
                    cancel_clean: if idle {
                        entry.clean_task
                    } else {
                        None
                    },
                    arm_clean: if idle {
                        Some(
                            (
                                if entry.retime_arms() is Some {
                                    token_after(self.next_task)
                                } else {
                                    self.next_task
                                },
                                q.clean_time,
                            ),
                        )
                    } else {
                        None
                    },
                }
            },
            None => Teardown {
                cancel_interval: None,
                arm_interval: None,
                cancel_clean: None,
                arm_clean: None,
            },
        }
    }

    /// The cache with `id` taken from the subscribers of `q`.
    pub open spec fn without_subscriber(self, q: Query<Q>, id: SubscriberId) -> Self {
        match self.position(q) {
            Some(i) => self.amended(i, self.slots[i].1.unsubscribed(id)),
            None => self,
        }
    }

    /// The cache after `id` unsubscribed from `q`.
    pub open spec fn unsubscribed(self, q: Query<Q>, id: SubscriberId) -> Self {
        self.without_subscriber(q, id).torn_down(q, id)
    }

    /// Whether the clean-up timer `token` of `q` may remove the entry: it is
    /// the timer that is armed, and still nobody subscribes.
    pub open spec fn clean_up_due(self, q: Query<Q>, token: TaskId) -> bool {
        match self.position(q) {
            Some(i) => self.slots[i].1.clean_task == Some(token) && self.slots[i].1.subscribers.len()
                == 0,
            None => false,
        }
    }

    /// The cache after the clean-up timer `token` of `q` fired.
    pub open spec fn cleaned_up(self, q: Query<Q>, token: TaskId) -> Self {
        if self.clean_up_due(q, token) {
            Cache { slots: self.slots.remove(self.position(q).unwrap()), ..self }
        } else {
            self
        }
    }

    /// Whether a consumer that arrives at `now` makes `q` run: the entry is
    /// not loading, its value is stale, and the query runs on its own.
    pub open spec fn needs_run(self, q: Query<Q>, now: Moment) -> bool {
        match self.position(q) {
            Some(i) => !(self.slots[i].1.state is Loading) && self.slots[i].1.state.stale_at(
                q.stale_time,
                now,
            ) && q.enabled,
            None => false,
        }
    }

    /// Whether a consumer that arrives at `now` finds `q` fresh: settled and
    /// not stale.
    pub open spec fn is_fresh(self, q: Query<Q>, now: Moment) -> bool {
        match self.position(q) {
            Some(i) => !self.slots[i].1.state.stale_at(q.stale_time, now),
            None => false,
        }
    }

    /// The cache with a run of `q` in flight.
    pub open spec fn begun(self, q: Query<Q>) -> Self {
        match self.position(q) {
            Some(i) => self.amended(i, self.slots[i].1.begun()),
            None => self,
        }
    }

    /// The subscribers of `q`; none where `q` has no entry.
    pub open spec fn subscribers(self, q: Query<Q>) -> Seq<SubscriberId> {
        match self.position(q) {
            Some(i) => self.slots[i].1.subscribers,
            None => Seq::empty(),
        }
    }

    /// The cache after a consumer arrived at `q` at `now`.
    pub open spec fn maybe_run(self, q: Query<Q>, now: Moment) -> Self {
        if self.needs_run(q, now) {
            self.begun(q)
        } else {
            self
        }
    }

    /// Whom to wake when a consumer arrives at `q` at `now`: the subscribers,
    /// if a run starts or the value is fresh; nobody while a run is in
    /// flight or the query is switched off.
    pub open spec fn maybe_run_wakes(self, q: Query<Q>, now: Moment) -> Seq<SubscriberId> {
        if self.needs_run(q, now) || self.is_fresh(q, now) {
            self.subscribers(q)
        } else {
            Seq::empty()
        }
    }

    /// The cache with the clean-up timer of `q` armed if nobody subscribes.
    pub open spec fn parked(self, q: Query<Q>) -> Self {
        match self.position(q) {
            Some(i) => self.amended(i, self.slots[i].1.parked(self.next_task)).advanced(
                self.slots[i].1.subscribers.len() == 0,
            ),
            None => self,
        }
    }

    /// What the host is told when `q` is parked.
    pub open spec fn parking(self, q: Query<Q>) -> Teardown {
        match self.position(q) {
            Some(i) => {
                let idle = self.slots[i].1.subscribers.len() == 0;
                Teardown {
                    cancel_interval: None,
                    arm_interval: None,
                    cancel_clean: if idle {
                        self.slots[i].1.clean_task
                    } else {
                        None
                    },
                    arm_clean: if idle {
                        Some((self.next_task, q.clean_time))
                    } else {
                        None
                    },
                }
            },
            None => Teardown {
                cancel_interval: None,
                arm_interval: None,
                cancel_clean: None,
                arm_clean: None,
            },
        }
    }

    /// The cache after a run of `q` settled with `res` at `now`.
    pub open spec fn settled(self, q: Query<Q>, res: Result<Q::Ok, Q::Err>, now: Moment) -> Self {
        match self.position(q) {
            Some(i) => self.amended(i, self.slots[i].1.settled(res, now)),
            None => self,
        }
    }

    /// The waiter of `q`, if one is armed.
    pub open spec fn waiter(self, q: Query<Q>) -> Option<TaskId> {
        match self.position(q) {
            Some(i) => self.slots[i].1.suspense_task,
            None => None,
        }
    }

    /// Whether `token` is the interval timer that runs for `q`.
    pub open spec fn interval_is(self, q: Query<Q>, token: TaskId) -> bool {
        match self.position(q) {
            Some(i) => match self.slots[i].1.interval_task {
                Some((_, running)) => running == token,
                None => false,
            },
            None => false,
        }
    }

    /// The cache after a consumer of `q` asked to wait for a result: it
    /// subscribes, and a waiter is armed where there is no result and no
    /// waiter yet.
    pub open spec fn suspended(self, q: Query<Q>, id: SubscriberId) -> Self {
        match self.position(q) {
            Some(i) => {
                let entry = self.slots[i].1.subscribed(id);
                self.amended(i, entry.awaited(self.next_task)).advanced(
                    entry.must_wait() && entry.suspense_task is None,
                )
            },
            None => self,
        }
    }

    /// The answer to a consumer of `q` that asks to wait for a result.
    pub open spec fn suspension(self, q: Query<Q>) -> Suspension {
        let entry = self.entry(q);
        if !entry.must_wait() {
            Suspension::Ready
        } else {
            match entry.suspense_task {
                Some(waiter) => Suspension::Suspended { waiter, armed: false },
                None => Suspension::Suspended { waiter: self.next_task, armed: true },
            }
        }
    }

    /// The cache after the slots marked in `hits` were invalidated: a run is
    /// in flight on each of them.
    pub open spec fn invalidated(self, hits: Seq<bool>) -> Self {
        Cache {
            slots: Seq::new(
                self.slots.len(),
                |i: int|
                    if hits[i] {
                        (self.slots[i].0, self.slots[i].1.begun())
                    } else {
                        self.slots[i]
                    },
            ),
            ..self
        }
    }

    /// The runs that an invalidation of the slots marked in `hits` asks for
    /// among the first `upto` slots: each marked slot, in order, with the
    /// subscribers to wake before its run starts.
    pub open spec fn run_orders(self, hits: Seq<bool>, upto: int) -> Seq<(int, Seq<SubscriberId>)>
        decreases upto,
    {
        if upto <= 0 {
            Seq::empty()
        } else {
            let before = self.run_orders(hits, upto - 1);
            if hits[upto - 1] {
                before.push((upto - 1, self.slots[upto - 1].1.subscribers))
            } else {
                before
            }
        }
    }

    /// Whether `hits` holds, slot by slot, an answer that the capability of
    /// that slot may give when asked whether it matches `keys`.
    pub open spec fn verdicts(self, keys: Q::Keys, hits: Seq<bool>) -> bool {
        &&& hits.len() == self.slots.len()
        &&& forall|i: int|
            0 <= i < self.slots.len() ==> call_ensures(
                Q::matches,
                (&self.slots[i].0.query, &keys),
                #[trigger] hits[i],
            )
    }

    /// The cache after the consumer `id`, which held `previous` before,
    /// turned to `q`: `q` is registered and `previous` is let go. Nothing
    /// runs yet: a new entry is still pending.
    pub open spec fn remounted(self, previous: Option<Query<Q>>, q: Query<Q>, id: SubscriberId) -> Self {
        match previous {
            Some(p) => self.registered(q, id).torn_down(p, id),
            None => self.registered(q, id),
        }
    }

    /// The slot of `q` is the first one that shares its entry with `q`, and
    /// there is none exactly when no slot does.
    pub proof fn lemma_position(self, q: Query<Q>)
        ensures
            match self.position(q) {
                Some(i) => 0 <= i < self.slots.len() && self.slots[i].0.same_entry(&q)
                    && forall|j: int| 0 <= j < i ==> !(#[trigger] self.slots[j]).0.same_entry(&q),
                None => forall|j: int|
                    0 <= j < self.slots.len() ==> !(#[trigger] self.slots[j]).0.same_entry(&q),
            },
    {
        lemma_first_where(self.slots, sharing(q), 0);
    }

    /// A slot that matches `q` with no match before it is the slot of `q`.
    pub proof fn lemma_position_is(self, q: Query<Q>, i: int)
        requires
            0 <= i < self.slots.len(),
            self.slots[i].0.same_entry(&q),
            forall|j: int| 0 <= j < i ==> !(#[trigger] self.slots[j]).0.same_entry(&q),
        ensures
            self.position(q) == Some(i),
    {
        lemma_first_where_is(self.slots, sharing(q), i);
    }

    /// Mounting runs nothing: the entry of the query that a consumer turns
    /// to is in the state it was in, and pending if it is new.
    pub proof fn lemma_mounting_runs_nothing(
        self,
        previous: Option<Query<Q>>,
        q: Query<Q>,
        id: SubscriberId,
    )
        requires
            self.wf(),
        ensures
            self.remounted(previous, q, id).contains(q),
            self.remounted(previous, q, id).entry(q).state == if self.contains(q) {
                self.entry(q).state
            } else {
                QueryStateData::Pending
            },
    {
        let registered = self.registered(q, id);
        let i = self.place(q);
        self.lemma_position(q);
        assert(registered.slots[i].0.same_entry(&q));
        assert forall|j: int| 0 <= j < i implies !(#[trigger] registered.slots[j]).0.same_entry(
            &q,
        ) by {
            assert(registered.slots[j].0 == self.slots[j].0);
        }
        registered.lemma_position_is(q, i);
        match previous {
            Some(p) => {
                registered.lemma_torn_down_keeps_positions(p, id, q);
                registered.lemma_position(p);
                match registered.position(p) {
                    Some(j) => {
                        let released = registered.released(p, id);
                        let retimed = released.retimed(p);
                        registered.lemma_amended_keeps_positions(
                            j,
                            registered.slots[j].1.released(id),
                            p,
                        );
                        released.lemma_amended_keeps_positions(
                            j,
                            released.slots[j].1.retimed(released.next_task),
                            p,
                        );
                        assert(registered.torn_down(p, id).slots[i].1.state
                            == registered.slots[i].1.state);
                    },
                    None => {},
                }
            },
            None => {},
        }
    }

    /// Letting go of a query moves no query: every lookup finds what it
    /// found.
    pub proof fn lemma_torn_down_keeps_positions(self, p: Query<Q>, id: SubscriberId, q: Query<Q>)
        ensures
            self.torn_down(p, id).position(q) == self.position(q),
            self.torn_down(p, id).slots.len() == self.slots.len(),
    {
        self.lemma_position(p);
        match self.position(p) {
            Some(j) => {
                let released = self.released(p, id);
                self.lemma_amended_keeps_positions(j, self.slots[j].1.released(id), q);
                self.lemma_amended_keeps_positions(j, self.slots[j].1.released(id), p);
                let retimed = released.retimed(p);
                released.lemma_amended_keeps_positions(
                    j,
                    released.slots[j].1.retimed(released.next_task),
                    q,
                );
                released.lemma_amended_keeps_positions(
                    j,
                    released.slots[j].1.retimed(released.next_task),
                    p,
                );
                retimed.lemma_amended_keeps_positions(
                    j,
                    retimed.slots[j].1.parked(retimed.next_task),
                    q,
                );
            },
            None => {},
        }
    }

    /// Replacing an entry moves no query: every lookup finds what it found.
    pub proof fn lemma_amended_keeps_positions(self, i: int, entry: Entry<Q>, q: Query<Q>)
        requires
            0 <= i < self.slots.len(),
        ensures
            self.amended(i, entry).position(q) == self.position(q),
    {
        lemma_same_keys_same_place(self.amended(i, entry).slots, self.slots, sharing(q));
    }
}

/// A query with the data kept for it.
struct Slot<Q: QueryCapability> {
    query: Query<Q>,
    data: QueryData<Q>,
}

/// The cache of one kind of query: one entry per query, whoever registered
/// it.
pub struct QueriesStorage<Q: QueryCapability> {
    slots: Vec<Slot<Q>>,
    next_task: TaskId,
}

impl<Q: QueryCapability> View for QueriesStorage<Q> {
    type V = Cache<Q>;

    closed spec fn view(&self) -> Cache<Q> {
        Cache {
            slots: Seq::new(self.slots@.len(), |i: int| (self.slots@[i].query, self.slots@[i].data@)),
            next_task: self.next_task,
        }
    }
}

impl<Q: QueryCapability> QueriesStorage<Q> {
    /// An empty storage.
    pub fn new() -> (storage: Self)
        requires
            comparable::<Q>(),
        ensures
            storage@ == Cache::<Q>::empty(),
            storage@.wf(),
    {
        let storage = QueriesStorage { slots: Vec::new(), next_task: 0 };
        assert(storage@.slots =~= Seq::empty());
        storage
    }

    /// How many entries the storage holds.
    pub fn len(&self) -> (count: usize)
        ensures
            count == self@.slots.len(),
    {
        self.slots.len()
    }

    /// The slot of `query`, if it has an entry.
    fn find(&self, query: &Query<Q>) -> (found: Option<usize>)
        requires
            comparable::<Q>(),
        ensures
            match found {
                Some(i) => self@.position(*query) == Some(i as int) && i < self.slots.len(),
                None => self@.position(*query) is None,
            },
    {
        let mut i: usize = 0;
        while i < self.slots.len()
            invariant
                comparable::<Q>(),
                i <= self.slots.len(),
                self@.position(*query) == first_where(self@.slots, sharing(*query), i as int),
            decreases self.slots.len() - i,
        {
            if self.slots[i].query == *query {
                return Some(i);
            }
            i += 1;
        }
        None
    }

    /// Hands out the next task id.
    fn take_token(&mut self) -> (token: TaskId)
        ensures
            token == old(self).next_task,
            final(self).next_task == token_after(old(self).next_task),
            final(self).slots == old(self).slots,
    {
        let token = self.next_task;
        self.next_task = next_token(token);
        token
    }

    /// Whether `query` has an entry.
    pub fn contains(&self, query: &Query<Q>) -> (found: bool)
        requires
            self@.wf(),
        ensures
            found == self@.contains(*query),
    {
        self.find(query).is_some()
    }

    /// The data kept for `query`, if it has an entry.
    pub fn entry(&self, query: &Query<Q>) -> (data: Option<&QueryData<Q>>)
        requires
            self@.wf(),
        ensures
            match data {
                Some(data) => self@.contains(*query) && data@ == self@.entry(*query),
                None => !self@.contains(*query),
            },
    {
        match self.find(query) {
            Some(i) => Some(&self.slots[i].data),
            None => None,
        }
    }

    /// The state of `query`, which must have an entry. Nobody subscribes.
    pub fn peek(&self, query: &Query<Q>) -> (state: &QueryStateData<Q>)
        requires
            self@.wf(),
            self@.contains(*query),
        ensures
            *state == self@.entry(*query).state,
    {
        match self.find(query) {
            Some(i) => self.slots[i].data.state(),
            None => vstd::pervasive::unreached(),
        }
    }

    /// Registers `query` for the consumer `id`: creates its entry if there
    /// is none, stops a pending clean-up, notes the interval that the
    /// consumer asks for, and brings the interval timer in step: it runs
    /// with the shortest interval that any consumer asks for.
    pub fn insert_or_get_query(&mut self, query: Query<Q>, id: SubscriberId) -> (told: Registration)
        requires
            old(self)@.wf(),
        ensures
            final(self)@ == old(self)@.registered(query, id),
            told == old(self)@.registration(query, id),
            final(self)@.wf(),
            final(self)@.contains(query),
    {
        self.register_slot(query, id).1
    }

    /// [`QueriesStorage::insert_or_get_query`], which also says in which
    /// slot the query stands.
    fn register_slot(&mut self, query: Query<Q>, id: SubscriberId) -> (told: (usize, Registration))
        requires
            old(self)@.wf(),
        ensures
            final(self)@ == old(self)@.registered(query, id),
            told.1 == old(self)@.registration(query, id),
            final(self)@.wf(),
            final(self)@.position(query) == Some(told.0 as int),
            told.0 < final(self)@.slots.len(),
    {
        let ghost before = self@;
        let interval = query.interval_time;
        let found = self.find(&query);
        proof {
            before.lemma_position(query);
        }
        let i = match found {
            Some(i) => i,
            None => {
                self.slots.push(Slot { query, data: QueryData::new() });
                self.slots.len() - 1
            },
        };
        let ghost base = self@;
        proof {
            assert(base.slots =~= before.installed(query).slots);
            assert(i as int == before.place(query));
        }
        let token = self.next_task;
        let (cancel_clean, cancel_interval, arm) = self.slots[i].data.register(id, interval, token);
        if arm.is_some() {
            self.take_token();
        }
        proof {
            let goal = before.registered(query, id);
            assert(self@.slots =~= goal.slots);
            assert(self@.next_task == goal.next_task);
            assert(goal.slots[i as int].0.same_entry(&query));
            goal.lemma_position_is(query, i as int);
        }
        (
            i,
            Registration {
                created: found.is_none(),
                cancel_clean,
                cancel_interval,
                arm_interval: match arm {
                    Some(period) => Some((token, period)),
                    None => None,
                },
            },
        )
    }

    /// Adds `id` to the subscribers of `query`, which must have an entry.
    /// Returns the clean-up timer to stop.
    pub fn subscribe(&mut self, query: &Query<Q>, id: SubscriberId) -> (cancel_clean: Option<TaskId>)
        requires
            old(self)@.wf(),
            old(self)@.contains(*query),
        ensures
            final(self)@ == old(self)@.subscribed(*query, id),
            cancel_clean == old(self)@.entry(*query).clean_task,
            final(self)@.wf(),
            final(self)@.contains(*query),
    {
        let ghost before = self@;
        match self.find(query) {
            Some(i) => {
                let cancel = self.slots[i].data.subscribe(id);
                proof {
                    assert(self@.slots =~= before.subscribed(*query, id).slots);
                    before.lemma_amended_keeps_positions(
                        i as int,
                        before.slots[i as int].1.subscribed(id),
                        *query,
                    );
                }
                cancel
            },
            None => vstd::pervasive::unreached(),
        }
    }

    /// Lets the consumer `id` go of `query`: the interval it asked for is
    /// forgotten, the interval timer is brought in step with what the other
    /// consumers ask for, and the clean-up timer is armed if nobody
    /// subscribes. A query without an entry is left alone.
    pub fn update_tasks(&mut self, query: &Query<Q>, id: SubscriberId) -> (told: Teardown)
        requires
            old(self)@.wf(),
        ensures
            final(self)@ == old(self)@.torn_down(*query, id),
            told == old(self)@.teardown(*query, id),
            final(self)@.wf(),
    {
        let ghost before = self@;
        match self.find(query) {
            Some(i) => {
                let interval_token = self.next_task;
                let (cancel_interval, arm) = self.slots[i].data.release(id, interval_token);
                if arm.is_some() {
                    self.take_token();
                }
                proof {
                    let released = before.released(*query, id);
                    before.lemma_amended_keeps_positions(
                        i as int,
                        before.slots[i as int].1.released(id),
                        *query,
                    );
                    assert(self@.slots =~= released.retimed(*query).slots);
                    released.lemma_amended_keeps_positions(
                        i as int,
                        released.slots[i as int].1.retimed(released.next_task),
                        *query,
                    );
                }
                let ghost retimed = self@;
                let clean_token = self.next_task;
                let (cancel_clean, idle) = self.slots[i].data.park(clean_token);
                if idle {
                    self.take_token();
                }
                proof {
                    assert(self@.slots =~= retimed.parked(*query).slots);
                }
                Teardown {
                    cancel_interval,
                    arm_interval: match arm {
                        Some(period) => Some((interval_token, period)),
                        None => None,
                    },
                    cancel_clean,
                    arm_clean: if idle {
                        Some((clean_token, query.clean_time))
                    } else {
                        None
                    },
                }
            },
            None => Teardown {
                cancel_interval: None,
                arm_interval: None,
                cancel_clean: None,
                arm_clean: None,
            },
        }
    }

    /// Takes `id` from the subscribers of `query` and lets it go of the
    /// query as [`QueriesStorage::update_tasks`] does. A query without an
    /// entry is left alone, so a consumer may leave after its entry has
    /// gone.
    pub fn unsubscribe(&mut self, query: &Query<Q>, id: SubscriberId) -> (told: Teardown)
        requires
            old(self)@.wf(),
        ensures
            final(self)@ == old(self)@.unsubscribed(*query, id),
            told == old(self)@.without_subscriber(*query, id).teardown(*query, id),
            final(self)@.wf(),
    {
        let ghost before = self@;
        match self.find(query) {
            Some(i) => {
                self.slots[i].data.unsubscribe(id);
                proof {
                    assert(self@.slots =~= before.without_subscriber(*query, id).slots);
                    before.lemma_amended_keeps_positions(
                        i as int,
                        before.slots[i as int].1.unsubscribed(id),
                        *query,
                    );
                }
            },
            None => {},
        }
        self.update_tasks(query, id)
    }

    /// Removes the entry of `query` when its clean-up timer `token` fires,
    /// if that timer is still the armed one and still nobody subscribes.
    /// Returns the data of the entry removed.
    pub fn clean_up(&mut self, query: &Query<Q>, token: TaskId) -> (removed: Option<QueryData<Q>>)
        requires
            old(self)@.wf(),
        ensures
            final(self)@ == old(self)@.cleaned_up(*query, token),
            match removed {
                Some(data) => old(self)@.clean_up_due(*query, token) && data@ == old(self)@.entry(
                    *query,
                ),
                None => !old(self)@.clean_up_due(*query, token),
            },
            final(self)@.wf(),
    {
        let ghost before = self@;
        match self.find(query) {
            Some(i) => {
                let due = match self.slots[i].data.clean_task() {
                    Some(armed) => armed == token,
                    None => false,
                } && self.slots[i].data.reactive_contexts.len() == 0;
                if due {
                    let slot = self.slots.remove(i);
                    proof {
                        assert(self@.slots =~= before.cleaned_up(*query, token).slots);
                    }
                    Some(slot.data)
                } else {
                    None
                }
            },
            None => None,
        }
    }
}

impl<Q: QueryCapability> QueriesStorage<Q> {
    /// Decides what the arrival of a consumer at `query` at the moment `now`
    /// asks for. While a run is in flight nothing happens: the run that is
    /// under way serves the newcomer too. A stale value makes the query run,
    /// if it is enabled: the entry turns to loading and its subscribers are
    /// woken before the host starts the work. A fresh value is shown as it
    /// is: the subscribers are woken and nothing runs.
    pub fn maybe_run(&mut self, query: &Query<Q>, now: Moment) -> (plan: RunPlan)
        requires
            old(self)@.wf(),
        ensures
            final(self)@ == old(self)@.maybe_run(*query, now),
            plan.run == old(self)@.needs_run(*query, now),
            plan.notify@ == old(self)@.maybe_run_wakes(*query, now),
            final(self)@.wf(),
    {
        match self.find(query) {
            Some(i) => self.maybe_run_slot(Ghost(*query), i, query.enabled, query.stale_time, now),
            None => RunPlan { run: false, notify: Vec::new() },
        }
    }

    /// [`QueriesStorage::maybe_run`] for the query `q`, whose slot is `i`
    /// and whose policy is `enabled` and `stale_time`.
    fn maybe_run_slot(
        &mut self,
        Ghost(q): Ghost<Query<Q>>,
        i: usize,
        enabled: bool,
        stale_time: Span,
        now: Moment,
    ) -> (plan: RunPlan)
        requires
            old(self)@.wf(),
            old(self)@.position(q) == Some(i as int),
            i < old(self)@.slots.len(),
            q.enabled == enabled,
            q.stale_time == stale_time,
        ensures
            final(self)@ == old(self)@.maybe_run(q, now),
            plan.run == old(self)@.needs_run(q, now),
            plan.notify@ == old(self)@.maybe_run_wakes(q, now),
            final(self)@.wf(),
    {
        let ghost before = self@;
        let loading = self.slots[i].data.state.is_loading();
        let stale = self.slots[i].data.state.is_stale_for(stale_time, now);
        if loading {
            RunPlan { run: false, notify: Vec::new() }
        } else if stale {
            if enabled {
                let notify = self.slots[i].data.begin_run();
                proof {
                    assert(self@.slots =~= before.begun(q).slots);
                }
                RunPlan { run: true, notify }
            } else {
                RunPlan { run: false, notify: Vec::new() }
            }
        } else {
            RunPlan { run: false, notify: self.slots[i].data.subscribers() }
        }
    }

    /// Serves a one-off read at the moment `now`: makes sure the query has
    /// an entry and decides as [`QueriesStorage::maybe_run`] does whether it
    /// has to run. Nobody subscribes.
    pub fn get(&mut self, get_query: GetQuery<Q>, now: Moment) -> (plan: RunPlan)
        requires
            old(self)@.wf(),
        ensures
            final(self)@ == old(self)@.installed(get_query.as_query()).maybe_run(
                get_query.as_query(),
                now,
            ),
            plan.run == old(self)@.installed(get_query.as_query()).needs_run(
                get_query.as_query(),
                now,
            ),
            plan.notify@ == old(self)@.installed(get_query.as_query()).maybe_run_wakes(
                get_query.as_query(),
                now,
            ),
            final(self)@.wf(),
            final(self)@.contains(get_query.as_query()),
    {
        let ghost before = self@;
        let ghost wanted = get_query.as_query();
        let query = Query::from(get_query);
        let found = self.find(&query);
        proof {
            before.lemma_position(wanted);
        }
        let plan = match found {
            Some(_) => self.maybe_run(&query, now),
            None => {
                let ghost placed = before.slots.len() as int;
                self.slots.push(Slot { query, data: QueryData::new() });
                proof {
                    assert(self@.slots =~= before.installed(wanted).slots);
                    self@.lemma_position_is(wanted, placed);
                }
                let last = self.slots.len() - 1;
                let notify = self.slots[last].data.begin_run();
                proof {
                    assert(self@.slots =~= before.installed(wanted).begun(wanted).slots);
                    self@.lemma_position_is(wanted, placed);
                }
                RunPlan { run: true, notify }
            },
        };
        proof {
            let base = before.installed(wanted);
            match base.position(wanted) {
                Some(i) => {
                    base.lemma_amended_keeps_positions(i, base.slots[i].1.begun(), wanted);
                },
                None => {},
            }
        }
        plan
    }

    /// Arms the clean-up timer of `query` if nobody subscribes to it, as
    /// after a one-off read. A query without an entry is left alone.
    pub fn park(&mut self, query: &Query<Q>) -> (told: Teardown)
        requires
            old(self)@.wf(),
        ensures
            final(self)@ == old(self)@.parked(*query),
            told == old(self)@.parking(*query),
            final(self)@.wf(),
    {
        let ghost before = self@;
        match self.find(query) {
            Some(i) => {
                let token = self.next_task;
                let (cancel_clean, idle) = self.slots[i].data.park(token);
                if idle {
                    self.take_token();
                }
                proof {
                    assert(self@.slots =~= before.parked(*query).slots);
                }
                Teardown {
                    cancel_interval: None,
                    arm_interval: None,
                    cancel_clean,
                    arm_clean: if idle {
                        Some((token, query.clean_time))
                    } else {
                        None
                    },
                }
            },
            None => Teardown {
                cancel_interval: None,
                arm_interval: None,
                cancel_clean: None,
                arm_clean: None,
            },
        }
    }

    /// Starts a run of `query` whatever its state: the entry turns to
    /// loading, keeping the result it has, and its subscribers are to be
    /// woken before the host starts the work. Without an entry nothing runs.
    pub fn run_queries(&mut self, query: &Query<Q>) -> (plan: RunPlan)
        requires
            old(self)@.wf(),
        ensures
            final(self)@ == old(self)@.begun(*query),
            plan.run == old(self)@.contains(*query),
            plan.notify@ == old(self)@.subscribers(*query),
            final(self)@.wf(),
    {
        let ghost before = self@;
        match self.find(query) {
            Some(i) => {
                let notify = self.slots[i].data.begin_run();
                proof {
                    assert(self@.slots =~= before.begun(*query).slots);
                }
                RunPlan { run: true, notify }
            },
            None => RunPlan { run: false, notify: Vec::new() },
        }
    }

    /// Starts a run of `query` when its interval timer `token` fires, as
    /// [`QueriesStorage::run_queries`] does. A timer that is no longer the
    /// one that runs for the query starts nothing.
    pub fn interval_fired(&mut self, query: &Query<Q>, token: TaskId) -> (plan: RunPlan)
        requires
            old(self)@.wf(),
        ensures
            final(self)@ == if old(self)@.interval_is(*query, token) {
                old(self)@.begun(*query)
            } else {
                old(self)@
            },
            plan.run == old(self)@.interval_is(*query, token),
            plan.notify@ == if old(self)@.interval_is(*query, token) {
                old(self)@.subscribers(*query)
            } else {
                Seq::empty()
            },
            final(self)@.wf(),
    {
        let current = match self.find(query) {
            Some(i) => match self.slots[i].data.interval_task() {
                Some((_, running)) => running == token,
                None => false,
            },
            None => false,
        };
        if current {
            self.run_queries(query)
        } else {
            RunPlan { run: false, notify: Vec::new() }
        }
    }

    /// Stores what a run of `query` returned at the moment `now`: the entry
    /// is settled, its subscribers are to be woken and its waiter released.
    /// Where the entry has gone in the meantime the result is dropped.
    pub fn settle(&mut self, query: &Query<Q>, res: Result<Q::Ok, Q::Err>, now: Moment) -> (done:
        Settlement)
        requires
            old(self)@.wf(),
        ensures
            final(self)@ == old(self)@.settled(*query, res, now),
            done.notify@ == old(self)@.subscribers(*query),
            done.wake == old(self)@.waiter(*query),
            final(self)@.wf(),
    {
        let ghost before = self@;
        match self.find(query) {
            Some(i) => {
                let done = self.slots[i].data.settle(res, now);
                proof {
                    assert(self@.slots =~= before.settled(*query, res, now).slots);
                }
                done
            },
            None => Settlement { notify: Vec::new(), wake: None },
        }
    }

    /// Reads the state of `query`, which must have an entry, and subscribes
    /// `id` to it. Returns the state and the clean-up timer to stop.
    pub fn read(&mut self, query: &Query<Q>, id: SubscriberId) -> (seen: (
        &QueryStateData<Q>,
        Option<TaskId>,
    ))
        requires
            old(self)@.wf(),
            old(self)@.contains(*query),
        ensures
            final(self)@ == old(self)@.subscribed(*query, id),
            *seen.0 == old(self)@.entry(*query).state,
            seen.1 == old(self)@.entry(*query).clean_task,
            final(self)@.wf(),
            final(self)@.contains(*query),
    {
        proof {
            let i = self@.position(*query).unwrap();
            self@.lemma_position(*query);
            self@.lemma_amended_keeps_positions(i, self@.slots[i].1.subscribed(id), *query);
        }
        let cancel_clean = self.subscribe(query, id);
        (self.peek(query), cancel_clean)
    }

    /// Answers a consumer `id` of `query`, which must have an entry, that
    /// wants to wait until a result is there. The consumer subscribes. If
    /// the entry is pending, or loading for the first time, the consumer
    /// has to wait: on the waiter that is armed already, or on a new one.
    /// Otherwise the result can be read at once.
    pub fn suspend(&mut self, query: &Query<Q>, id: SubscriberId) -> (told: (
        Suspension,
        Option<TaskId>,
    ))
        requires
            old(self)@.wf(),
            old(self)@.contains(*query),
        ensures
            final(self)@ == old(self)@.suspended(*query, id),
            told.0 == old(self)@.suspension(*query),
            told.1 == old(self)@.entry(*query).clean_task,
            final(self)@.wf(),
            final(self)@.contains(*query),
    {
        let ghost before = self@;
        proof {
            let i = before.position(*query).unwrap();
            before.lemma_position(*query);
            before.lemma_amended_keeps_positions(i, before.slots[i].1.subscribed(id), *query);
        }
        let cancel_clean = self.subscribe(query, id);
        let ghost between = self@;
        match self.find(query) {
            Some(i) => {
                let token = self.next_task;
                let answer = self.slots[i].data.suspend(token);
                if let Suspension::Suspended { armed: true, .. } = answer {
                    self.take_token();
                }
                proof {
                    let waiting = between.amended(i as int, between.slots[i as int].1.awaited(token));
                    assert(self@.slots =~= waiting.slots);
                    assert(waiting.slots =~= before.suspended(*query, id).slots);
                    between.lemma_amended_keeps_positions(
                        i as int,
                        between.slots[i as int].1.awaited(token),
                        *query,
                    );
                }
                (answer, cancel_clean)
            },
            None => vstd::pervasive::unreached(),
        }
    }
}

impl<Q: QueryCapability> QueriesStorage<Q> {
    /// The query in slot `slot`.
    pub fn query_at(&self, slot: usize) -> (query: &Query<Q>)
        requires
            slot < self@.slots.len(),
        ensures
            *query == self@.slots[slot as int].0,
    {
        &self.slots[slot].query
    }

    /// Invalidates the slots marked in `hits`, which has one mark per slot.
    /// Every marked entry turns to loading, keeping the result it has,
    /// before this function returns, and so before any of the runs starts.
    /// The orders tell the host which queries to run and whom to wake first.
    pub fn invalidate_selected(&mut self, hits: &Vec<bool>) -> (orders: Vec<RunOrder>)
        requires
            old(self)@.wf(),
            hits@.len() == old(self)@.slots.len(),
        ensures
            final(self)@ == old(self)@.invalidated(hits@),
            orders_of(orders@) == old(self)@.run_orders(hits@, hits@.len() as int),
            final(self)@.wf(),
    {
        let ghost before = self@;
        let mut orders: Vec<RunOrder> = Vec::new();
        let mut i: usize = 0;
        while i < self.slots.len()
            invariant
                i <= self.slots.len(),
                self.slots.len() == hits@.len(),
                before.slots.len() == hits@.len(),
                before.wf(),
                self@.next_task == before.next_task,
                forall|j: int| 0 <= j < i ==> #[trigger] self@.slots[j] == before.invalidated(hits@).slots[j],
                forall|j: int| i <= j < self.slots.len() ==> #[trigger] self@.slots[j] == before.slots[j],
                orders_of(orders@) == before.run_orders(hits@, i as int),
            decreases self.slots.len() - i,
        {
            let ghost so_far = orders_of(orders@);
            let ghost at_top = self@;
            assert(at_top.slots[i as int] == before.slots[i as int]);
            if hits[i] {
                let notify = self.slots[i].data.begin_run();
                orders.push(RunOrder { slot: i, notify });
                proof {
                    assert(orders@.last().notify@ == before.slots[i as int].1.subscribers);
                    assert(orders_of(orders@) =~= so_far.push(
                        (i as int, before.slots[i as int].1.subscribers),
                    ));
                    assert(self@.slots[i as int] == (
                        before.slots[i as int].0,
                        before.slots[i as int].1.begun(),
                    ));
                }
            }
            proof {
                assert forall|j: int| 0 <= j < i + 1 implies #[trigger] self@.slots[j]
                    == before.invalidated(hits@).slots[j] by {
                    if j < i {
                        assert(self@.slots[j] == at_top.slots[j]);
                    } else {
                        assert(self@.slots[i as int] == before.invalidated(hits@).slots[i as int]);
                    }
                }
                assert forall|j: int| i + 1 <= j < self.slots.len() implies #[trigger] self@.slots[j]
                    == before.slots[j] by {
                    assert(self@.slots[j] == at_top.slots[j]);
                }
            }
            i += 1;
        }
        proof {
            assert(self@.slots =~= before.invalidated(hits@).slots);
        }
        orders
    }

    /// Invalidates every query.
    pub fn invalidate_all(&mut self) -> (orders: Vec<RunOrder>)
        requires
            old(self)@.wf(),
        ensures
            final(self)@ == old(self)@.invalidated(
                Seq::new(old(self)@.slots.len(), |i: int| true),
            ),
            orders_of(orders@) == old(self)@.run_orders(
                Seq::new(old(self)@.slots.len(), |i: int| true),
                old(self)@.slots.len() as int,
            ),
            final(self)@.wf(),
    {
        let mut hits: Vec<bool> = Vec::new();
        let mut i: usize = 0;
        while i < self.slots.len()
            invariant
                i <= self.slots.len(),
                hits@ == Seq::new(i as nat, |i: int| true),
            decreases self.slots.len() - i,
        {
            hits.push(true);
            assert(hits@ =~= Seq::new((i + 1) as nat, |i: int| true));
            i += 1;
        }
        self.invalidate_selected(&hits)
    }

    /// Asks the capability of every query whether it matches `matching_keys`
    /// and returns the answers, slot by slot.
    pub fn select_matching(&self, matching_keys: &Q::Keys) -> (hits: Vec<bool>)
        ensures
            self@.verdicts(*matching_keys, hits@),
    {
        let mut hits: Vec<bool> = Vec::new();
        let mut i: usize = 0;
        while i < self.slots.len()
            invariant
                i <= self.slots.len(),
                hits@.len() == i,
                forall|j: int|
                    0 <= j < i ==> call_ensures(
                        Q::matches,
                        (&self@.slots[j].0.query, matching_keys),
                        #[trigger] hits@[j],
                    ),
            decreases self.slots.len() - i,
        {
            let hit = self.slots[i].query.query.matches(matching_keys);
            hits.push(hit);
            i += 1;
        }
        hits
    }

    /// Invalidates the queries whose capability says that it matches
    /// `matching_keys`. The contract holds for whatever the capabilities
    /// answer: `hits` stands for their answers, slot by slot, and the rest
    /// is [`QueriesStorage::invalidate_selected`] on these answers.
    pub fn invalidate_matching(&mut self, matching_keys: &Q::Keys) -> (orders: Vec<RunOrder>)
        requires
            old(self)@.wf(),
        ensures
            exists|hits: Seq<bool>|
                {
                    &&& #[trigger] old(self)@.verdicts(*matching_keys, hits)
                    &&& final(self)@ == old(self)@.invalidated(hits)
                    &&& orders_of(orders@) == old(self)@.run_orders(hits, hits.len() as int)
                },
            final(self)@.wf(),
    {
        let hits = self.select_matching(matching_keys);
        self.invalidate_selected(&hits)
    }
}

/// Turns the consumer `id` to `query` at the moment `now`. The query is
/// registered; if the consumer held another query before, that one is let
/// go. Nothing runs yet, and a new entry is pending: the result says whether
/// a run is due, and the transition to loading happens when the host's task
/// asks [`QueriesStorage::maybe_run`], which also keeps two such tasks from
/// running the query twice. The host keeps its own copy of the query to make
/// the handle.
pub fn use_query<Q: QueryCapability>(
    storage: &mut QueriesStorage<Q>,
    previous: Option<&Query<Q>>,
    query: Query<Q>,
    id: SubscriberId,
    now: Moment,
) -> (told: Mount)
    requires
        old(storage)@.wf(),
    ensures
        final(storage)@ == old(storage)@.remounted(
            match previous {
                Some(p) => Some(*p),
                None => None,
            },
            query,
            id,
        ),
        told.registration == old(storage)@.registration(query, id),
        told.teardown == match previous {
            Some(p) => old(storage)@.registered(query, id).teardown(*p, id),
            None => Teardown {
                cancel_interval: None,
                arm_interval: None,
                cancel_clean: None,
                arm_clean: None,
            },
        },
        told.run_due == final(storage)@.needs_run(query, now),
        final(storage)@.wf(),
        final(storage)@.contains(query),
        final(storage)@.entry(query).state == if old(storage)@.contains(query) {
            old(storage)@.entry(query).state
        } else {
            QueryStateData::Pending
        },
{
    let ghost q = query;
    let ghost before = storage@;
    let enabled = query.enabled;
    let stale_time = query.stale_time;
    let (i, registration) = storage.register_slot(query, id);
    let ghost registered = storage@;
    let teardown = match previous {
        Some(p) => {
            let told = storage.update_tasks(p, id);
            proof {
                registered.lemma_torn_down_keeps_positions(*p, id, q);
            }
            told
        },
        None => Teardown {
            cancel_interval: None,
            arm_interval: None,
            cancel_clean: None,
            arm_clean: None,
        },
    };
    let state = &storage.slots[i].data.state;
    let run_due = !state.is_loading() && state.is_stale_for(stale_time, now) && enabled;
    proof {
        before.lemma_mounting_runs_nothing(
            match previous {
                Some(p) => Some(*p),
                None => None,
            },
            q,
            id,
        );
    }
    Mount { registration, teardown, run_due }
}

/// A view of a query's state.
pub struct QueryReader<'a, Q: QueryCapability> {
    state: &'a QueryStateData<Q>,
}

impl<'a, Q: QueryCapability> QueryReader<'a, Q> {
    /// The state that was read.
    pub closed spec fn seen(&self) -> QueryStateData<Q> {
        *self.state
    }

    /// The state that was read.
    pub fn state(&self) -> (state: &QueryStateData<Q>)
        ensures
            *state == self.seen(),
    {
        self.state
    }

    /// The result of the query, which must be settled.
    pub fn as_settled(&self) -> (res: &Result<Q::Ok, Q::Err>)
        requires
            self.seen() is Settled,
        ensures
            Some(*res) == self.seen().result(),
    {
        match self.state {
            QueryStateData::Settled { res, .. } => res,
            _ => vstd::pervasive::unreached(),
        }
    }
}

/// The handle of one consumer on one query.
pub struct UseQuery<Q: QueryCapability> {
    query: Query<Q>,
    subscriber: SubscriberId,
}

impl<Q: QueryCapability> UseQuery<Q> {
    /// The handle of the consumer `subscriber` on `query`.
    pub fn new(query: Query<Q>, subscriber: SubscriberId) -> (handle: Self)
        ensures
            handle.query() == query,
            handle.subscriber() == subscriber,
    {
        UseQuery { query, subscriber }
    }

    /// The query that the handle is on.
    pub closed spec fn query(&self) -> Query<Q> {
        self.query
    }

    /// The consumer that holds the handle.
    pub closed spec fn subscriber(&self) -> SubscriberId {
        self.subscriber
    }

    /// The query that the handle is on.
    pub fn get_query(&self) -> (query: &Query<Q>)
        ensures
            *query == self.query(),
    {
        &self.query
    }

    /// Reads the state of the query, which must be registered, and
    /// subscribes the consumer. Also returns the clean-up timer to stop.
    pub fn read<'a>(&self, storage: &'a mut QueriesStorage<Q>) -> (seen: (
        QueryReader<'a, Q>,
        Option<TaskId>,
    ))
        requires
            old(storage)@.wf(),
            old(storage)@.contains(self.query()),
        ensures
            final(storage)@ == old(storage)@.subscribed(self.query(), self.subscriber()),
            seen.0.seen() == old(storage)@.entry(self.query()).state,
            seen.1 == old(storage)@.entry(self.query()).clean_task,
            final(storage)@.wf(),
            final(storage)@.contains(self.query()),
    {
        let (state, cancel_clean) = storage.read(&self.query, self.subscriber);
        (QueryReader { state }, cancel_clean)
    }

    /// Reads the state of the query, which must be registered, without
    /// subscribing.
    pub fn peek<'a>(&self, storage: &'a QueriesStorage<Q>) -> (seen: QueryReader<'a, Q>)
        requires
            storage@.wf(),
            storage@.contains(self.query()),
        ensures
            seen.seen() == storage@.entry(self.query()).state,
    {
        QueryReader { state: storage.peek(&self.query) }
    }

    /// Suspends the consumer until the query, which must be registered, has
    /// a result; see [`QueriesStorage::suspend`]. The consumer subscribes.
    pub fn suspend(&self, storage: &mut QueriesStorage<Q>) -> (told: (Suspension, Option<TaskId>))
        requires
            old(storage)@.wf(),
            old(storage)@.contains(self.query()),
        ensures
            final(storage)@ == old(storage)@.suspended(self.query(), self.subscriber()),
            told.0 == old(storage)@.suspension(self.query()),
            told.1 == old(storage)@.entry(self.query()).clean_task,
            final(storage)@.wf(),
            final(storage)@.contains(self.query()),
    {
        storage.suspend(&self.query, self.subscriber)
    }

    /// Invalidates the query: a run starts whatever the state of the entry.
    pub fn invalidate(&self, storage: &mut QueriesStorage<Q>) -> (plan: RunPlan)
        requires
            old(storage)@.wf(),
        ensures
            final(storage)@ == old(storage)@.begun(self.query()),
            plan.run == old(storage)@.contains(self.query()),
            plan.notify@ == old(storage)@.subscribers(self.query()),
            final(storage)@.wf(),
    {
        storage.run_queries(&self.query)
    }

    /// Gives the handle up: the consumer stops subscribing and the timers of
    /// the query are let go. The handle is consumed, so this happens once;
    /// and it is in order that the entry has gone before.
    pub fn dispose(self, storage: &mut QueriesStorage<Q>) -> (told: Teardown)
        requires
            old(storage)@.wf(),
        ensures
            final(storage)@ == old(storage)@.unsubscribed(self.query(), self.subscriber()),
            told == old(storage)@.without_subscriber(self.query(), self.subscriber()).teardown(
                self.query(),
                self.subscriber(),
            ),
            final(storage)@.wf(),
    {
        storage.unsubscribe(&self.query, self.subscriber)
    }
}

impl<Q: QueryCapability> TryFrom<QueryStateData<Q>> for Result<Q::Ok, Q::Err> {
    type Error = ();

    /// The result that the state carries; an error if it carries none.
    fn try_from(value: QueryStateData<Q>) -> (res: Result<Self, Self::Error>) {
        match value {
            QueryStateData::Loading { res: Some(res) } => Ok(res),
            QueryStateData::Settled { res, .. } => Ok(res),
            _ => Err(()),
        }
    }
}

impl<Q: QueryCapability> vstd::std_specs::convert::TryFromSpecImpl<QueryStateData<Q>> for Result<Q::Ok, Q::Err> {
    open spec fn obeys_try_from_spec() -> bool {
        true
    }

    open spec fn try_from_spec(value: QueryStateData<Q>) -> Result<Self, Self::Error> {
        match value.result() {
            Some(res) => Ok(res),
            None => Err(()),
        }
    }
}

} // verus!
