//! What holds of the query cache across several steps.
use vstd::prelude::*;
use vstd::std_specs::cmp::PartialEqSpec;
use crate::lookup::lemma_same_keys_same_place;
use crate::query::{
    sharing, Cache, Entry, Query, QueryCapability, QueryStateData, SubscriberId, TaskId,
};
use crate::requests::{lemma_shortest_is_least, shortest_request, with_request, without_requests};
use crate::subscribers::{lemma_without_id, without_id};
use crate::time::{Moment, Span};

verus! {

/// Whether equality of capabilities and of keys is symmetric and transitive,
/// as an equality should be.
pub open spec fn equivalence<Q: QueryCapability>() -> bool {
    &&& forall|a: Q, b: Q| #[trigger] a.eq_spec(&b) ==> b.eq_spec(&a)
    &&& forall|a: Q, b: Q, c: Q| #[trigger] a.eq_spec(&b) && #[trigger] b.eq_spec(&c) ==> a.eq_spec(&c)
    &&& forall|a: Q::Keys, b: Q::Keys| #[trigger] a.eq_spec(&b) ==> b.eq_spec(&a)
    &&& forall|a: Q::Keys, b: Q::Keys, c: Q::Keys| #[trigger]
        a.eq_spec(&b) && #[trigger] b.eq_spec(&c) ==> a.eq_spec(&c)
}

/// Queries that share an entry are found in the same slot.
pub proof fn lemma_same_entry_same_slot<Q: QueryCapability>(cache: Cache<Q>, a: Query<Q>, b: Query<Q>)
    requires
        equivalence::<Q>(),
        a.same_entry(&b),
    ensures
        cache.position(a) == cache.position(b),
{
    cache.lemma_position(a);
    cache.lemma_position(b);
    assert forall|j: int| 0 <= j < cache.slots.len() implies (#[trigger] cache.slots[j]).0.same_entry(&a)
        == cache.slots[j].0.same_entry(&b) by {
        let s = cache.slots[j].0;
        if s.same_entry(&a) {
            assert(s.query.eq_spec(&a.query) && a.query.eq_spec(&b.query));
            assert(s.keys.eq_spec(&a.keys) && a.keys.eq_spec(&b.keys));
        }
        if s.same_entry(&b) {
            assert(a.query.eq_spec(&b.query));
            assert(b.query.eq_spec(&a.query));
            assert(s.query.eq_spec(&b.query) && b.query.eq_spec(&a.query));
            assert(a.keys.eq_spec(&b.keys));
            assert(b.keys.eq_spec(&a.keys));
            assert(s.keys.eq_spec(&b.keys) && b.keys.eq_spec(&a.keys));
        }
    }
    match cache.position(a) {
        Some(i) => {
            assert(cache.slots[i].0.same_entry(&b));
            match cache.position(b) {
                Some(j) => {
                    assert(cache.slots[j].0.same_entry(&a));
                },
                None => {},
            }
        },
        None => {
            match cache.position(b) {
                Some(j) => {
                    assert(cache.slots[j].0.same_entry(&a));
                },
                None => {},
            }
        },
    }
}

/// Two registrations that differ only in what they captured, or in the
/// interval they ask for, share one entry: the second one finds the entry of
/// the first and creates none.
pub proof fn lemma_same_entry_registers_once<Q: QueryCapability>(
    cache: Cache<Q>,
    a: Query<Q>,
    b: Query<Q>,
    first: SubscriberId,
    second: SubscriberId,
)
    requires
        cache.wf(),
        equivalence::<Q>(),
        a.same_entry(&b),
    ensures
        !cache.registered(a, first).registration(b, second).created,
        cache.registered(a, first).registered(b, second).slots.len() == cache.registered(
            a,
            first,
        ).slots.len(),
        cache.registered(a, first).registered(b, second).position(b) == cache.registered(
            a,
            first,
        ).position(a),
{
    let once = cache.registered(a, first);
    let base = cache.installed(a);
    let i = cache.place(a);
    cache.lemma_position(a);
    assert(base.slots[i].0.same_entry(&a));
    assert(once.slots[i].0.same_entry(&a));
    once.lemma_position(a);
    assert forall|j: int| 0 <= j < i implies !(#[trigger] once.slots[j]).0.same_entry(&a) by {
        assert(once.slots[j].0 == cache.slots[j].0);
    }
    once.lemma_position_is(a, i);
    lemma_same_entry_same_slot(once, a, b);
    let entry = once.slots[i].1;
    once.lemma_amended_keeps_positions(
        i,
        entry.registered(second, b.interval_time, once.next_task),
        b,
    );
}

/// How many runs a series of arrivals at `q` starts, one arrival at each of
/// the moments in `arrivals`, with no run settling in between.
pub open spec fn runs_started<Q: QueryCapability>(
    cache: Cache<Q>,
    q: Query<Q>,
    arrivals: Seq<Moment>,
) -> nat
    decreases arrivals.len(),
{
    if arrivals.len() == 0 {
        0
    } else {
        let first: nat = if cache.needs_run(q, arrivals[0]) {
            1
        } else {
            0
        };
        first + runs_started(cache.maybe_run(q, arrivals[0]), q, arrivals.drop_first())
    }
}

/// While a run of `q` is in flight, no arrival starts another one.
pub proof fn lemma_no_run_while_loading<Q: QueryCapability>(
    cache: Cache<Q>,
    q: Query<Q>,
    arrivals: Seq<Moment>,
)
    requires
        cache.contains(q),
        cache.entry(q).state is Loading,
    ensures
        runs_started(cache, q, arrivals) == 0,
    decreases arrivals.len(),
{
    if arrivals.len() > 0 {
        assert(!cache.needs_run(q, arrivals[0]));
        lemma_no_run_while_loading(cache.maybe_run(q, arrivals[0]), q, arrivals.drop_first());
    }
}

/// However many consumers arrive at a query before it settles, it runs at
/// most once; and it runs exactly once if the first of them finds it stale.
pub proof fn lemma_one_run_until_settled<Q: QueryCapability>(
    cache: Cache<Q>,
    q: Query<Q>,
    arrivals: Seq<Moment>,
)
    requires
        cache.wf(),
    ensures
        runs_started(cache, q, arrivals) <= 1,
        arrivals.len() > 0 && cache.needs_run(q, arrivals[0]) ==> runs_started(cache, q, arrivals)
            == 1,
    decreases arrivals.len(),
{
    if arrivals.len() > 0 {
        let now = arrivals[0];
        let rest = arrivals.drop_first();
        if cache.needs_run(q, now) {
            cache.lemma_position(q);
            let i = cache.position(q).unwrap();
            cache.lemma_amended_keeps_positions(i, cache.slots[i].1.begun(), q);
            lemma_no_run_while_loading(cache.maybe_run(q, now), q, rest);
        } else {
            lemma_one_run_until_settled(cache, q, rest);
        }
    }
}

/// An invalidation shows loading before the result that follows it. The
/// step that starts the run leaves the entry loading, with the result it
/// had, and names every subscriber of the entry to be woken. Only the step
/// that takes the outcome of that run settles the entry, and it names the
/// same subscribers again.
pub proof fn lemma_loading_before_settled<Q: QueryCapability>(
    cache: Cache<Q>,
    q: Query<Q>,
    res: Result<Q::Ok, Q::Err>,
    now: Moment,
)
    requires
        cache.wf(),
        cache.contains(q),
    ensures
        cache.begun(q).contains(q),
        cache.begun(q).entry(q).state == (QueryStateData::<Q>::Loading {
            res: cache.entry(q).state.result(),
        }),
        cache.begun(q).subscribers(q) == cache.subscribers(q),
        cache.begun(q).settled(q, res, now).contains(q),
        cache.begun(q).settled(q, res, now).entry(q).state == (QueryStateData::<Q>::Settled {
            res,
            settlement_instant: now,
        }),
        cache.begun(q).settled(q, res, now).subscribers(q) == cache.subscribers(q),
{
    cache.lemma_position(q);
    let i = cache.position(q).unwrap();
    cache.lemma_amended_keeps_positions(i, cache.slots[i].1.begun(), q);
    let loading = cache.begun(q);
    loading.lemma_amended_keeps_positions(i, loading.slots[i].1.settled(res, now), q);
}

/// In a batch, every invalidated entry is loading when the batch is handed
/// out, and there is a run order for it that names its subscribers; the
/// other entries are untouched.
pub proof fn lemma_batch_loads_before_any_run<Q: QueryCapability>(
    cache: Cache<Q>,
    hits: Seq<bool>,
    i: int,
)
    requires
        hits.len() == cache.slots.len(),
        0 <= i < cache.slots.len(),
    ensures
        hits[i] ==> cache.invalidated(hits).slots[i].1.state is Loading,
        hits[i] ==> cache.run_orders(hits, hits.len() as int).contains(
            (i, cache.slots[i].1.subscribers),
        ),
        !hits[i] ==> cache.invalidated(hits).slots[i] == cache.slots[i],
{
    if hits[i] {
        lemma_run_orders_cover(cache, hits, hits.len() as int, i);
    }
}

/// A query that an invalidation marks runs again and settles anew, whoever
/// asked for the invalidation: a mutation's hook, a timer or a consumer. The
/// entry is loading, with the result it had, when the orders go out; there
/// is a run order for it; and when that run settles, the entry holds the new
/// result and the moment of the new settlement, which is later than the old
/// one if the clock has moved on.
pub proof fn lemma_invalidation_settles_anew<Q: QueryCapability>(
    cache: Cache<Q>,
    hits: Seq<bool>,
    q: Query<Q>,
    res: Result<Q::Ok, Q::Err>,
    later: Moment,
)
    requires
        hits.len() == cache.slots.len(),
        cache.contains(q),
        hits[cache.position(q).unwrap()],
    ensures
        cache.invalidated(hits).contains(q),
        cache.invalidated(hits).entry(q).state == (QueryStateData::<Q>::Loading {
            res: cache.entry(q).state.result(),
        }),
        cache.run_orders(hits, hits.len() as int).contains(
            (cache.position(q).unwrap(), cache.entry(q).subscribers),
        ),
        cache.invalidated(hits).settled(q, res, later).contains(q),
        cache.invalidated(hits).settled(q, res, later).entry(q).state == (QueryStateData::<
            Q,
        >::Settled { res, settlement_instant: later }),
        cache.entry(q).state matches QueryStateData::Settled { settlement_instant, .. }
            ==> settlement_instant.nanos < later.nanos ==> cache.invalidated(hits).settled(
            q,
            res,
            later,
        ).entry(q).state->settlement_instant.nanos > settlement_instant.nanos,
{
    cache.lemma_position(q);
    let i = cache.position(q).unwrap();
    let loading = cache.invalidated(hits);
    lemma_same_keys_same_place(loading.slots, cache.slots, sharing(q));
    lemma_run_orders_cover(cache, hits, hits.len() as int, i);
    loading.lemma_amended_keeps_positions(i, loading.slots[i].1.settled(res, later), q);
}

/// The run orders for the first `upto` slots hold one for each marked slot
/// among them.
pub proof fn lemma_run_orders_cover<Q: QueryCapability>(
    cache: Cache<Q>,
    hits: Seq<bool>,
    upto: int,
    i: int,
)
    requires
        0 <= i < upto <= hits.len(),
        hits[i],
    ensures
        cache.run_orders(hits, upto).contains((i, cache.slots[i].1.subscribers)),
    decreases upto,
{
    let orders = cache.run_orders(hits, upto);
    let before = cache.run_orders(hits, upto - 1);
    if i == upto - 1 {
        assert(orders.last() == (i, cache.slots[i].1.subscribers));
    } else {
        lemma_run_orders_cover(cache, hits, upto - 1, i);
        let k = choose|k: int| 0 <= k < before.len() && before[k] == (i, cache.slots[i].1.subscribers);
        assert(orders[k] == before[k]);
    }
}

/// The entry after a series of registrations, each by a consumer, with the
/// interval it asks for and the task id that a new timer may use.
pub open spec fn after_registrations<Q: QueryCapability>(
    entry: Entry<Q>,
    asks: Seq<(SubscriberId, Span, TaskId)>,
) -> Entry<Q>
    decreases asks.len(),
{
    if asks.len() == 0 {
        entry
    } else {
        after_registrations(entry, asks.drop_last()).registered(
            asks.last().0,
            asks.last().1,
            asks.last().2,
        )
    }
}

/// The shortest interval wins. After a registration the entry holds the
/// request of the consumer in place of what it asked for before, and the
/// interval timer runs with the shortest interval that any consumer asks
/// for: one of the intervals asked for, and none is shorter. No timer runs
/// exactly when nothing is asked for.
pub proof fn lemma_interval_min_wins<Q: QueryCapability>(
    entry: Entry<Q>,
    id: SubscriberId,
    interval: Span,
    token: TaskId,
)
    ensures
        entry.registered(id, interval, token).requests == with_request(entry.requests, id, interval),
        entry.registered(id, interval, token).effective_interval() == shortest_request(
            entry.registered(id, interval, token).requests,
        ),
        match entry.registered(id, interval, token).effective_interval() {
            Some(period) => forall|i: int|
                0 <= i < entry.registered(id, interval, token).requests.len() ==> period.nanos
                    <= (#[trigger] entry.registered(id, interval, token).requests[i]).1.nanos,
            None => entry.registered(id, interval, token).requests.len() == 0,
        },
{
    lemma_shortest_is_least(entry.registered(id, interval, token).requests);
}

/// After any series of registrations the interval timer runs with the
/// shortest interval that is asked for.
pub proof fn lemma_interval_follows_registrations<Q: QueryCapability>(
    entry: Entry<Q>,
    asks: Seq<(SubscriberId, Span, TaskId)>,
)
    requires
        entry.wf(),
    ensures
        after_registrations(entry, asks).effective_interval() == shortest_request(
            after_registrations(entry, asks).requests,
        ),
    decreases asks.len(),
{
    if asks.len() > 0 {
        lemma_interval_follows_registrations(entry, asks.drop_last());
    }
}

/// When a consumer lets go of an entry, the next-shortest interval takes
/// over: what the consumer asked for is forgotten, and the interval timer
/// runs with the shortest interval that the others ask for, which is one of
/// their intervals and no longer than any of them. No timer runs exactly
/// when nobody else asks for one.
pub proof fn lemma_next_shortest_takes_over<Q: QueryCapability>(
    entry: Entry<Q>,
    id: SubscriberId,
    token: TaskId,
)
    ensures
        entry.released(id).retimed(token).requests == without_requests(entry.requests, id),
        entry.released(id).retimed(token).effective_interval() == shortest_request(
            without_requests(entry.requests, id),
        ),
        match entry.released(id).retimed(token).effective_interval() {
            Some(period) => forall|i: int|
                0 <= i < without_requests(entry.requests, id).len() ==> period.nanos
                    <= (#[trigger] without_requests(entry.requests, id)[i]).1.nanos,
            None => without_requests(entry.requests, id).len() == 0,
        },
{
    lemma_shortest_is_least(without_requests(entry.requests, id));
}

/// A registration asks the entry of its query: what the cache holds for the
/// query afterwards is what the entry makes of the request.
pub proof fn lemma_registration_asks_the_entry<Q: QueryCapability>(
    cache: Cache<Q>,
    q: Query<Q>,
    id: SubscriberId,
)
    requires
        cache.wf(),
    ensures
        cache.registered(q, id).contains(q),
        cache.registered(q, id).entry(q) == cache.installed(q).slots[cache.place(q)].1.registered(
            id,
            q.interval_time,
            cache.next_task,
        ),
{
    let after = cache.registered(q, id);
    let i = cache.place(q);
    cache.lemma_position(q);
    assert(after.slots[i].0.same_entry(&q));
    assert forall|j: int| 0 <= j < i implies !(#[trigger] after.slots[j]).0.same_entry(&q) by {
        assert(after.slots[j].0 == cache.slots[j].0);
    }
    after.lemma_position_is(q, i);
}

/// Letting go of a query at the cache asks its entry: the request of the
/// consumer is forgotten and the interval timer follows the others.
pub proof fn lemma_teardown_asks_the_entry<Q: QueryCapability>(
    cache: Cache<Q>,
    q: Query<Q>,
    id: SubscriberId,
)
    requires
        cache.contains(q),
    ensures
        cache.torn_down(q, id).contains(q),
        cache.torn_down(q, id).entry(q).requests == without_requests(cache.entry(q).requests, id),
        cache.torn_down(q, id).entry(q).effective_interval() == shortest_request(
            without_requests(cache.entry(q).requests, id),
        ),
        cache.torn_down(q, id).entry(q).state == cache.entry(q).state,
        cache.torn_down(q, id).entry(q).subscribers == cache.entry(q).subscribers,
{
    cache.lemma_position(q);
    let i = cache.position(q).unwrap();
    let released = cache.released(q, id);
    cache.lemma_amended_keeps_positions(i, cache.slots[i].1.released(id), q);
    let retimed = released.retimed(q);
    released.lemma_amended_keeps_positions(i, released.slots[i].1.retimed(released.next_task), q);
    retimed.lemma_amended_keeps_positions(i, retimed.slots[i].1.parked(retimed.next_task), q);
}

/// Clean-up is deferred. When the last subscriber of `q` leaves, the entry
/// stays, with its state, and a clean-up timer is armed with the query's
/// clean time. If a subscriber arrives before the timer fires, the timer is
/// called off and its firing changes nothing. If nobody arrives, the firing
/// removes the entry.
pub proof fn lemma_clean_up_is_deferred<Q: QueryCapability>(
    cache: Cache<Q>,
    q: Query<Q>,
    last: SubscriberId,
    late: SubscriberId,
)
    requires
        cache.wf(),
        equivalence::<Q>(),
        cache.contains(q),
        cache.subscribers(q) == seq![last],
    ensures
        cache.unsubscribed(q, last).contains(q),
        cache.unsubscribed(q, last).entry(q).state == cache.entry(q).state,
        cache.without_subscriber(q, last).teardown(q, last).arm_clean matches Some((timer, delay))
            && {
            &&& delay == q.clean_time
            &&& cache.unsubscribed(q, last).entry(q).clean_task == Some(timer)
            &&& cache.unsubscribed(q, last).subscribed(q, late).cleaned_up(q, timer)
                == cache.unsubscribed(q, last).subscribed(q, late)
            &&& cache.unsubscribed(q, last).subscribed(q, late).entry(q).state == cache.entry(
                q,
            ).state
            &&& !cache.unsubscribed(q, last).cleaned_up(q, timer).contains(q)
        },
{
    cache.lemma_position(q);
    let i = cache.position(q).unwrap();
    let entry = cache.slots[i].1;
    let bare = cache.without_subscriber(q, last);
    cache.lemma_amended_keeps_positions(i, entry.unsubscribed(last), q);
    assert(bare.slots[i].1.subscribers =~= Seq::<SubscriberId>::empty()) by {
        let left_over = without_id(seq![last], last);
        lemma_without_id(seq![last], last);
        if left_over.len() > 0 {
            let other = left_over[0];
            assert(left_over.contains(other));
            assert(seq![last].contains(other));
            assert(false);
        }
    }
    let released = bare.released(q, last);
    bare.lemma_amended_keeps_positions(i, bare.slots[i].1.released(last), q);
    let retimed = released.retimed(q);
    released.lemma_amended_keeps_positions(i, released.slots[i].1.retimed(released.next_task), q);
    let left = cache.unsubscribed(q, last);
    retimed.lemma_amended_keeps_positions(i, retimed.slots[i].1.parked(retimed.next_task), q);
    assert(left == retimed.parked(q));
    assert(left.position(q) == Some(i));
    let timer = retimed.next_task;
    assert(left.slots[i].1.clean_task == Some(timer));
    let back = left.subscribed(q, late);
    left.lemma_amended_keeps_positions(i, left.slots[i].1.subscribed(late), q);
    assert(back.position(q) == Some(i));
    assert(back.slots[i].1.clean_task is None);
    let gone = left.cleaned_up(q, timer);
    assert(left.clean_up_due(q, timer));
    gone.lemma_position(q);
    left.lemma_position(q);
    match gone.position(q) {
        Some(j) => {
            let k = if j < i {
                j
            } else {
                j + 1
            };
            assert(gone.slots[j] == left.slots[k]);
            assert(left.slots[k].0 == cache.slots[k].0);
            assert(left.slots[i].0 == cache.slots[i].0);
            if k < i {
                assert(false);
            } else {
                let s = cache.slots[k].0;
                let t = cache.slots[i].0;
                assert(t.same_entry(&q) && s.same_entry(&q));
                assert(q.query.eq_spec(&s.query)) by {
                    assert(s.query.eq_spec(&q.query));
                }
                assert(q.keys.eq_spec(&s.keys)) by {
                    assert(s.keys.eq_spec(&q.keys));
                }
                assert(t.query.eq_spec(&q.query) && q.query.eq_spec(&s.query));
                assert(t.keys.eq_spec(&q.keys) && q.keys.eq_spec(&s.keys));
                assert(t.same_entry(&s));
                assert(false);
            }
        },
        None => {},
    }
}

} // verus!
