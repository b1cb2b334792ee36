//! The registry of queries that are grouped by their keys, and what a
//! listener's arrival, an invalidation and a listener's leaving ask for.
use vstd::prelude::*;
use vstd::std_specs::cmp::PartialEqSpec;
use crate::cached_result::{CachedResult, RevalidationOptions};
use crate::lookup::{
    first_where, lemma_first_where, lemma_same_keys_same_place, next_token, token_after,
};
use crate::query::{SubscriberId, TaskId};
use crate::result::QueryState;
use crate::subscribers::{add_id, copy_ids, drop_id, with_id, without_id};
use crate::time::{Moment, Span};

verus! {

/// Whether keys can be told apart by `==`: the comparison that runs is the
/// one that the contracts of this module speak of, and every key equals
/// itself.
pub open spec fn comparable<K: PartialEq>() -> bool {
    &&& K::obeys_eq_spec()
    &&& forall|key: K| #[trigger] key.eq_spec(&key)
}

/// Whether two lists of keys are equal: as long as each other, and equal key
/// by key.
pub open spec fn same_keys<K: PartialEq>(a: Seq<K>, b: Seq<K>) -> bool {
    &&& a.len() == b.len()
    &&& forall|i: int| 0 <= i < a.len() ==> (#[trigger] a[i]).eq_spec(&b[i])
}

/// Whether `key` is among `keys`.
pub open spec fn has_key<K: PartialEq>(keys: Seq<K>, key: K) -> bool {
    exists|j: int| 0 <= j < keys.len() && (#[trigger] keys[j]).eq_spec(&key)
}

/// Whether every one of `wanted` is among `keys`.
pub open spec fn covers<K: PartialEq>(keys: Seq<K>, wanted: Seq<K>) -> bool {
    forall|i: int| 0 <= i < wanted.len() ==> has_key(keys, #[trigger] wanted[i])
}

/// Whether `key` is among `keys`.
pub fn contains_key<K: PartialEq>(keys: &Vec<K>, key: &K) -> (found: bool)
    requires
        comparable::<K>(),
    ensures
        found == has_key(keys@, *key),
{
    let mut j: usize = 0;
    while j < keys.len()
        invariant
            comparable::<K>(),
            j <= keys.len(),
            forall|k: int| 0 <= k < j ==> !(#[trigger] keys@[k]).eq_spec(key),
        decreases keys.len() - j,
    {
        if keys[j] == *key {
            return true;
        }
        j += 1;
    }
    false
}

/// Whether every one of `wanted` is among `keys`.
pub fn covers_keys<K: PartialEq>(keys: &Vec<K>, wanted: &[K]) -> (all: bool)
    requires
        comparable::<K>(),
    ensures
        all == covers(keys@, wanted@),
{
    let mut i: usize = 0;
    while i < wanted.len()
        invariant
            comparable::<K>(),
            i <= wanted.len(),
            forall|k: int| 0 <= k < i ==> has_key(keys@, #[trigger] wanted@[k]),
        decreases wanted.len() - i,
    {
        if !contains_key(keys, &wanted[i]) {
            return false;
        }
        i += 1;
    }
    true
}

/// Query listeners are grouped by their query keys and query functions, so
/// that the same data is not requested twice.
pub struct RegistryEntry<K: PartialEq> {
    pub query_keys: Vec<K>,
    pub query_fn_id: u64,
}

impl<K: PartialEq> RegistryEntry<K> {
    /// Whether two entries stand for the same group of listeners: the same
    /// query function and equal keys.
    pub open spec fn same_entry(&self, other: &Self) -> bool {
        same_keys(self.query_keys@, other.query_keys@) && self.query_fn_id == other.query_fn_id
    }
}

impl<K: PartialEq> PartialEq for RegistryEntry<K> {
    fn eq(&self, other: &Self) -> (same: bool) {
        if self.query_fn_id != other.query_fn_id || self.query_keys.len() != other.query_keys.len() {
            return false;
        }
        let mut i: usize = 0;
        while i < self.query_keys.len()
            invariant
                i <= self.query_keys.len(),
                self.query_keys.len() == other.query_keys.len(),
                self.query_fn_id == other.query_fn_id,
                K::obeys_eq_spec() ==> forall|k: int|
                    0 <= k < i ==> (#[trigger] self.query_keys@[k]).eq_spec(&other.query_keys@[k]),
            decreases self.query_keys.len() - i,
        {
            if self.query_keys[i] != other.query_keys[i] {
                return false;
            }
            i += 1;
        }
        true
    }
}

impl<K: PartialEq> vstd::std_specs::cmp::PartialEqSpecImpl for RegistryEntry<K> {
    open spec fn obeys_eq_spec() -> bool {
        K::obeys_eq_spec()
    }

    open spec fn eq_spec(&self, other: &Self) -> bool {
        self.same_entry(other)
    }
}

impl<K: PartialEq + Clone> Clone for RegistryEntry<K> {
    /// An entry for the same query function, with a clone of each key.
    fn clone(&self) -> (copy: Self)
        ensures
            copy.query_fn_id == self.query_fn_id,
            copy.query_keys@.len() == self.query_keys@.len(),
            forall|i: int|
                0 <= i < self.query_keys@.len() ==> cloned(
                    self.query_keys@[i],
                    #[trigger] copy.query_keys@[i],
                ),
    {
        let mut query_keys: Vec<K> = Vec::new();
        let mut i: usize = 0;
        while i < self.query_keys.len()
            invariant
                i <= self.query_keys.len(),
                query_keys@.len() == i,
                forall|j: int|
                    0 <= j < i ==> cloned(self.query_keys@[j], #[trigger] query_keys@[j]),
            decreases self.query_keys.len() - i,
        {
            query_keys.push(self.query_keys[i].clone());
            i += 1;
        }
        RegistryEntry { query_keys, query_fn_id: self.query_fn_id }
    }
}

/// The group of listeners of one registry entry as a mathematical value:
/// what [`QueryListeners`] holds.
pub struct Listeners<T, E> {
    pub value: CachedResult<T, E>,
    pub listeners: Seq<SubscriberId>,
}

/// The cached result of one registry entry and the consumers that listen to
/// it.
pub struct QueryListeners<T, E> {
    value: CachedResult<T, E>,
    listeners: Vec<SubscriberId>,
}

impl<T, E> View for QueryListeners<T, E> {
    type V = Listeners<T, E>;

    closed spec fn view(&self) -> Listeners<T, E> {
        Listeners { value: self.value, listeners: self.listeners@ }
    }
}

impl<T, E> QueryListeners<T, E> {
    /// The cached result.
    pub fn value(&self) -> (value: &CachedResult<T, E>)
        ensures
            *value == self@.value,
    {
        &self.value
    }

    /// The listeners, in the order in which they arrived.
    pub fn listeners(&self) -> (ids: Vec<SubscriberId>)
        ensures
            ids@ == self@.listeners,
    {
        copy_ids(&self.listeners)
    }
}

/// What tells the entries apart that are the same as `entry`.
pub open spec fn sharing<K: PartialEq>(entry: RegistryEntry<K>) -> spec_fn(RegistryEntry<K>) -> bool {
    |held: RegistryEntry<K>| held.same_entry(&entry)
}

/// The registry as a mathematical value: what [`UseQueryClient`] holds, in
/// the order in which the entries were first registered.
pub struct Registry<T, E, K: PartialEq> {
    pub slots: Seq<(RegistryEntry<K>, Listeners<T, E>)>,
    pub next_task: TaskId,
}

impl<T, E, K: PartialEq> Registry<T, E, K> {
    /// The registry without entries.
    pub open spec fn empty() -> Self {
        Registry { slots: Seq::empty(), next_task: 0 }
    }

    /// The slot of `entry`: the first one that holds the same entry.
    pub open spec fn position(self, entry: RegistryEntry<K>) -> Option<int> {
        first_where(self.slots, sharing(entry), 0)
    }

    /// Whether `entry` is registered.
    pub open spec fn contains(self, entry: RegistryEntry<K>) -> bool {
        self.position(entry) is Some
    }

    /// The listeners of `entry`.
    pub open spec fn group(self, entry: RegistryEntry<K>) -> Listeners<T, E>
        recommends
            self.contains(entry),
    {
        self.slots[self.position(entry).unwrap()].1
    }

    /// The listeners of `entry`; none where it is not registered.
    pub open spec fn listeners(self, entry: RegistryEntry<K>) -> Seq<SubscriberId> {
        match self.position(entry) {
            Some(i) => self.slots[i].1.listeners,
            None => Seq::empty(),
        }
    }

    /// Keys can be compared, no listener is listed twice, and no two slots
    /// hold the same entry.
    pub open spec fn wf(self) -> bool {
        &&& comparable::<K>()
        &&& forall|i: int|
            0 <= i < self.slots.len() ==> (#[trigger] self.slots[i]).1.listeners.no_duplicates()
        &&& forall|i: int, j: int|
            0 <= i < j < self.slots.len() ==> !(#[trigger] self.slots[i]).0.same_entry(
                &(#[trigger] self.slots[j]).0,
            )
    }

    /// The registry with `group` in slot `i`.
    pub open spec fn amended(self, i: int, group: Listeners<T, E>) -> Self {
        Registry { slots: self.slots.update(i, (self.slots[i].0, group)), ..self }
    }

    /// The registry with what `change` makes of the group of `entry`;
    /// unchanged where `entry` is not registered.
    pub open spec fn with_group(
        self,
        entry: RegistryEntry<K>,
        change: spec_fn(Listeners<T, E>) -> Listeners<T, E>,
    ) -> Self {
        match self.position(entry) {
            Some(i) => self.amended(i, change(self.slots[i].1)),
            None => self,
        }
    }

    /// The registry after the consumer `scope` registered as a listener of
    /// `entry`. A new entry starts in the state `initial`, or loading if
    /// there is none.
    pub open spec fn registered(
        self,
        entry: RegistryEntry<K>,
        initial: Option<QueryState<T, E>>,
        scope: SubscriberId,
    ) -> Self {
        match self.position(entry) {
            Some(i) => self.amended(
                i,
                Listeners { listeners: with_id(self.slots[i].1.listeners, scope), ..self.slots[i].1 },
            ),
            None => Registry {
                slots: self.slots.push(
                    (
                        entry,
                        Listeners {
                            value: CachedResult {
                                state: match initial {
                                    Some(state) => state,
                                    None => QueryState::Loading(None),
                                },
                                instant: None,
                                has_been_loaded: false,
                                revalidation_options: None,
                            },
                            listeners: seq![scope],
                        },
                    ),
                ),
                ..self
            },
        }
    }

    /// Whether a listener that arrives at `entry` at `now` makes it run:
    /// it was never queried, or its result is stale and no run is under way.
    pub open spec fn needs_query(self, entry: RegistryEntry<K>, stale_time: Span, now: Moment) -> bool {
        match self.position(entry) {
            Some(i) => {
                let value = self.slots[i].1.value;
                (value.stale_at(stale_time, now) && !(value.state is Loading))
                    || !value.has_been_loaded
            },
            None => false,
        }
    }

    /// Whether a listener that arrives at `entry` at `now` finds a settled
    /// result that is not stale.
    pub open spec fn is_fresh(self, entry: RegistryEntry<K>, stale_time: Span, now: Moment) -> bool {
        match self.position(entry) {
            Some(i) => {
                let value = self.slots[i].1.value;
                value.state is Settled && !value.stale_at(stale_time, now)
            },
            None => false,
        }
    }

    /// Whom to wake when a listener arrives at `entry` at `now`: the
    /// listeners, if a run starts or the result is fresh; nobody while a run
    /// is under way.
    pub open spec fn query_wakes(self, entry: RegistryEntry<K>, stale_time: Span, now: Moment) -> Seq<
        SubscriberId,
    > {
        if self.needs_query(entry, stale_time, now) || self.is_fresh(entry, stale_time, now) {
            self.listeners(entry)
        } else {
            Seq::empty()
        }
    }

    /// The registry after a listener arrived at `entry` at `now`: where a
    /// run starts, the result is loading, with the value it could show, and
    /// counts as queried.
    pub open spec fn queried(self, entry: RegistryEntry<K>, stale_time: Span, now: Moment) -> Self {
        if self.needs_query(entry, stale_time, now) {
            self.with_group(
                entry,
                |g: Listeners<T, E>|
                    Listeners {
                        value: CachedResult {
                            state: QueryState::Loading(g.value.state.value()),
                            instant: Some(now),
                            has_been_loaded: true,
                            ..g.value
                        },
                        ..g
                    },
            )
        } else {
            self
        }
    }

    /// How many runs a series of arrivals at `entry` starts, each arrival
    /// with its stale time and its moment, with no run settling in between.
    pub open spec fn queries_started(self, entry: RegistryEntry<K>, arrivals: Seq<(Span, Moment)>) -> nat
        decreases arrivals.len(),
    {
        if arrivals.len() == 0 {
            0
        } else {
            let first: nat = if self.needs_query(entry, arrivals[0].0, arrivals[0].1) {
                1
            } else {
                0
            };
            first + self.queried(entry, arrivals[0].0, arrivals[0].1).queries_started(
                entry,
                arrivals.drop_first(),
            )
        }
    }

    /// The registry after a run of `entry` returned `result` at `now`.
    pub open spec fn settled(self, entry: RegistryEntry<K>, result: Result<T, E>, now: Moment) -> Self {
        self.with_group(
            entry,
            |g: Listeners<T, E>|
                Listeners {
                    value: CachedResult { state: QueryState::Settled(result), instant: Some(now), ..g.value },
                    ..g
                },
        )
    }

    /// Whether a request to revalidate `entry` every `interval` changes its
    /// timer: the entry is registered, the request names an interval, and
    /// no timer runs or the one that runs is slower.
    pub open spec fn revalidation_changes(self, entry: RegistryEntry<K>, interval: Option<Span>) -> bool {
        match (self.position(entry), interval) {
            (Some(i), Some(period)) => match self.slots[i].1.value.revalidation_options {
                Some(options) => options.interval.nanos > period.nanos,
                None => true,
            },
            _ => false,
        }
    }

    /// The registry after a request to revalidate `entry` every `interval`:
    /// a timer with that period runs in place of a slower or missing one.
    pub open spec fn revalidated(self, entry: RegistryEntry<K>, interval: Option<Span>) -> Self {
        if self.revalidation_changes(entry, interval) {
            let armed = self.with_group(
                entry,
                |g: Listeners<T, E>|
                    Listeners {
                        value: CachedResult {
                            revalidation_options: Some(
                                RevalidationOptions { interval: interval.unwrap(), task: self.next_task },
                            ),
                            ..g.value
                        },
                        ..g
                    },
            );
            Registry { next_task: token_after(self.next_task), ..armed }
        } else {
            self
        }
    }

    /// Whether an invalidation of `keys` concerns slot `i`: its entry holds
    /// every one of the keys, and somebody listens to it.
    pub open spec fn concerns(self, keys: Seq<K>, i: int) -> bool {
        covers(self.slots[i].0.query_keys@, keys) && self.slots[i].1.listeners.len() > 0
    }

    /// The registry after `keys` were invalidated at `now`: every entry that
    /// the invalidation concerns is loading, with the value it could show,
    /// and counts as queried.
    pub open spec fn invalidated(self, keys: Seq<K>, now: Moment) -> Self {
        Registry {
            slots: Seq::new(
                self.slots.len(),
                |i: int|
                    if self.concerns(keys, i) {
                        (
                            self.slots[i].0,
                            Listeners {
                                value: CachedResult {
                                    state: QueryState::Loading(self.slots[i].1.value.state.value()),
                                    instant: Some(now),
                                    has_been_loaded: true,
                                    ..self.slots[i].1.value
                                },
                                ..self.slots[i].1
                            },
                        )
                    } else {
                        self.slots[i]
                    },
            ),
            ..self
        }
    }

    /// The runs that an invalidation of `keys` asks for among the first
    /// `upto` slots: each slot that it concerns, in order, with the
    /// listeners to wake.
    pub open spec fn run_orders(self, keys: Seq<K>, upto: int) -> Seq<(int, Seq<SubscriberId>)>
        decreases upto,
    {
        if upto <= 0 {
            Seq::empty()
        } else {
            let before = self.run_orders(keys, upto - 1);
            if self.concerns(keys, upto - 1) {
                before.push((upto - 1, self.slots[upto - 1].1.listeners))
            } else {
                before
            }
        }
    }

    /// Whether the leaving of its listener `scope` at `now` removes `entry`:
    /// nobody else listens, and the result is stale.
    pub open spec fn release_removes(
        self,
        entry: RegistryEntry<K>,
        scope: SubscriberId,
        stale_time: Span,
        now: Moment,
    ) -> bool {
        match self.position(entry) {
            Some(i) => without_id(self.slots[i].1.listeners, scope).len() == 0
                && self.slots[i].1.value.stale_at(stale_time, now),
            None => false,
        }
    }

    /// The registry after the listener `scope` left `entry` at `now`.
    pub open spec fn released(
        self,
        entry: RegistryEntry<K>,
        scope: SubscriberId,
        stale_time: Span,
        now: Moment,
    ) -> Self {
        if self.release_removes(entry, scope, stale_time, now) {
            Registry { slots: self.slots.remove(self.position(entry).unwrap()), ..self }
        } else {
            self.with_group(
                entry,
                |g: Listeners<T, E>| Listeners { listeners: without_id(g.listeners, scope), ..g },
            )
        }
    }

    /// The slot of `entry` is the first one that holds the same entry, and
    /// there is none exactly when no slot does.
    pub proof fn lemma_position(self, entry: RegistryEntry<K>)
        ensures
            match self.position(entry) {
                Some(i) => 0 <= i < self.slots.len() && self.slots[i].0.same_entry(&entry)
                    && forall|j: int|
                    0 <= j < i ==> !(#[trigger] self.slots[j]).0.same_entry(&entry),
                None => forall|j: int|
                    0 <= j < self.slots.len() ==> !(#[trigger] self.slots[j]).0.same_entry(&entry),
            },
    {
        lemma_first_where(self.slots, sharing(entry), 0);
    }

    /// Replacing a group moves no entry: every lookup finds what it found.
    pub proof fn lemma_amended_keeps_positions(
        self,
        i: int,
        group: Listeners<T, E>,
        entry: RegistryEntry<K>,
    )
        requires
            0 <= i < self.slots.len(),
        ensures
            self.amended(i, group).position(entry) == self.position(entry),
    {
        lemma_same_keys_same_place(self.amended(i, group).slots, self.slots, sharing(entry));
    }

    /// While a run of `entry` is under way, no arrival starts another one.
    pub proof fn lemma_no_query_while_loading(
        self,
        entry: RegistryEntry<K>,
        arrivals: Seq<(Span, Moment)>,
    )
        requires
            self.contains(entry),
            self.group(entry).value.state is Loading,
            self.group(entry).value.has_been_loaded,
        ensures
            self.queries_started(entry, arrivals) == 0,
        decreases arrivals.len(),
    {
        if arrivals.len() > 0 {
            assert(!self.needs_query(entry, arrivals[0].0, arrivals[0].1));
            self.lemma_no_query_while_loading(entry, arrivals.drop_first());
        }
    }

    /// However many listeners arrive at an entry before its run settles, the
    /// query runs at most once; and it runs exactly once if the first of
    /// them finds it stale or never queried.
    pub proof fn lemma_one_query_until_settled(
        self,
        entry: RegistryEntry<K>,
        arrivals: Seq<(Span, Moment)>,
    )
        ensures
            self.queries_started(entry, arrivals) <= 1,
            arrivals.len() > 0 && self.needs_query(entry, arrivals[0].0, arrivals[0].1)
                ==> self.queries_started(entry, arrivals) == 1,
        decreases arrivals.len(),
    {
        if arrivals.len() > 0 {
            let stale_time = arrivals[0].0;
            let now = arrivals[0].1;
            let rest = arrivals.drop_first();
            if self.needs_query(entry, stale_time, now) {
                self.lemma_position(entry);
                let i = self.position(entry).unwrap();
                let g = self.slots[i].1;
                let after = Listeners {
                    value: CachedResult {
                        state: QueryState::Loading(g.value.state.value()),
                        instant: Some(now),
                        has_been_loaded: true,
                        ..g.value
                    },
                    ..g
                };
                self.lemma_amended_keeps_positions(i, after, entry);
                self.queried(entry, stale_time, now).lemma_no_query_while_loading(entry, rest);
            } else {
                self.lemma_one_query_until_settled(entry, rest);
            }
        }
    }

    /// An invalidation touches the entries that hold every one of the keys,
    /// and no others: an entry that lacks one of them stays as it is.
    pub proof fn lemma_invalidation_needs_every_key(self, keys: Seq<K>, now: Moment, i: int, k: int)
        requires
            0 <= i < self.slots.len(),
            0 <= k < keys.len(),
            !has_key(self.slots[i].0.query_keys@, keys[k]),
        ensures
            self.invalidated(keys, now).slots[i] == self.slots[i],
            forall|n: int|
                0 <= n < self.run_orders(keys, self.slots.len() as int).len()
                    ==> (#[trigger] self.run_orders(keys, self.slots.len() as int)[n]).0 != i,
    {
        assert(!covers(self.slots[i].0.query_keys@, keys));
        self.lemma_run_orders_concern(keys, self.slots.len() as int);
    }

    /// Invalidating the two keys `a` and `b` concerns an entry only if it
    /// holds both: one that holds only `a`, or only `b`, stays as it is.
    pub proof fn lemma_two_keys_need_both(self, a: K, b: K, now: Moment, i: int)
        requires
            0 <= i < self.slots.len(),
        ensures
            self.concerns(seq![a, b], i) == (has_key(self.slots[i].0.query_keys@, a) && has_key(
                self.slots[i].0.query_keys@,
                b,
            ) && self.slots[i].1.listeners.len() > 0),
            !(has_key(self.slots[i].0.query_keys@, a) && has_key(self.slots[i].0.query_keys@, b))
                ==> self.invalidated(seq![a, b], now).slots[i] == self.slots[i],
    {
        let keys = seq![a, b];
        let held = self.slots[i].0.query_keys@;
        assert(keys[0] == a && keys[1] == b);
        if covers(held, keys) {
            assert(has_key(held, keys[0]));
            assert(has_key(held, keys[1]));
        }
        if has_key(held, a) && has_key(held, b) {
            assert forall|n: int| 0 <= n < keys.len() implies has_key(held, #[trigger] keys[n]) by {
                if n == 0 {
                } else {
                    assert(n == 1);
                }
            }
        }
    }

    /// Every run order is for a slot that the invalidation concerns.
    pub proof fn lemma_run_orders_concern(self, keys: Seq<K>, upto: int)
        requires
            upto <= self.slots.len(),
        ensures
            forall|n: int|
                0 <= n < self.run_orders(keys, upto).len() ==> {
                    let order = #[trigger] self.run_orders(keys, upto)[n];
                    0 <= order.0 < upto && self.concerns(keys, order.0)
                },
        decreases upto,
    {
        if upto > 0 {
            self.lemma_run_orders_concern(keys, upto - 1);
            let orders = self.run_orders(keys, upto);
            let before = self.run_orders(keys, upto - 1);
            assert forall|n: int| 0 <= n < orders.len() implies {
                let order = #[trigger] orders[n];
                0 <= order.0 < upto && self.concerns(keys, order.0)
            } by {
                if n < before.len() {
                    assert(orders[n] == before[n]);
                }
            }
        }
    }
}

/// One run that an invalidation asks for.
pub struct Invalidation {
    /// The slot of the entry to run; see [`UseQueryClient::entry_at`].
    pub slot: usize,
    /// The listeners to wake before the run starts, and again when it has
    /// settled.
    pub listeners: Vec<SubscriberId>,
}

/// Invalidations as mathematical values: the slot and the listeners of each.
pub open spec fn invalidations_of(orders: Seq<Invalidation>) -> Seq<(int, Seq<SubscriberId>)> {
    Seq::new(orders.len(), |k: int| (orders[k].slot as int, orders[k].listeners@))
}

/// A registry entry with its listeners.
struct Slot<T, E, K: PartialEq> {
    entry: RegistryEntry<K>,
    group: QueryListeners<T, E>,
}

/// Manage the queries of your application.
pub struct UseQueryClient<T, E, K: PartialEq> {
    queries_registry: Vec<Slot<T, E, K>>,
    next_task: TaskId,
}

impl<T, E, K: PartialEq> View for UseQueryClient<T, E, K> {
    type V = Registry<T, E, K>;

    closed spec fn view(&self) -> Registry<T, E, K> {
        Registry {
            slots: Seq::new(
                self.queries_registry@.len(),
                |i: int| (self.queries_registry@[i].entry, self.queries_registry@[i].group@),
            ),
            next_task: self.next_task,
        }
    }
}

/// A client without queries.
pub fn use_init_query_client<T, E, K: PartialEq>() -> (client: UseQueryClient<T, E, K>)
    requires
        comparable::<K>(),
    ensures
        client@ == Registry::<T, E, K>::empty(),
        client@.wf(),
{
    let client = UseQueryClient { queries_registry: Vec::new(), next_task: 0 };
    assert(client@.slots =~= Seq::empty());
    client
}

impl<T, E, K: PartialEq> UseQueryClient<T, E, K> {
    /// The slot of `entry`, if it is registered.
    fn find(&self, entry: &RegistryEntry<K>) -> (found: Option<usize>)
        requires
            comparable::<K>(),
        ensures
            match found {
                Some(i) => self@.position(*entry) == Some(i as int) && i < self.queries_registry.len(),
                None => self@.position(*entry) is None,
            },
    {
        let mut i: usize = 0;
        while i < self.queries_registry.len()
            invariant
                comparable::<K>(),
                i <= self.queries_registry.len(),
                self@.position(*entry) == first_where(self@.slots, sharing(*entry), i as int),
            decreases self.queries_registry.len() - i,
        {
            if self.queries_registry[i].entry == *entry {
                return Some(i);
            }
            i += 1;
        }
        None
    }

    /// How many entries are registered.
    pub fn len(&self) -> (count: usize)
        ensures
            count == self@.slots.len(),
    {
        self.queries_registry.len()
    }

    /// Whether `entry` is registered.
    pub fn contains(&self, entry: &RegistryEntry<K>) -> (found: bool)
        requires
            self@.wf(),
        ensures
            found == self@.contains(*entry),
    {
        self.find(entry).is_some()
    }

    /// The listeners and the cached result of `entry`, which must be
    /// registered.
    pub fn get_entry(&self, entry: &RegistryEntry<K>) -> (group: &QueryListeners<T, E>)
        requires
            self@.wf(),
            self@.contains(*entry),
        ensures
            group@ == self@.group(*entry),
    {
        match self.find(entry) {
            Some(i) => &self.queries_registry[i].group,
            None => vstd::pervasive::unreached(),
        }
    }

    /// The entry in slot `slot`.
    pub fn entry_at(&self, slot: usize) -> (entry: &RegistryEntry<K>)
        requires
            slot < self@.slots.len(),
        ensures
            *entry == self@.slots[slot as int].0,
    {
        &self.queries_registry[slot].entry
    }

    /// Registers the consumer `scope` as a listener of `entry`. A new entry
    /// starts in the state `initial`, or loading if there is none. Returns
    /// whether the entry is new.
    pub fn register(
        &mut self,
        entry: RegistryEntry<K>,
        initial: Option<QueryState<T, E>>,
        scope: SubscriberId,
    ) -> (created: bool)
        requires
            old(self)@.wf(),
        ensures
            final(self)@ == old(self)@.registered(entry, initial, scope),
            created == !old(self)@.contains(entry),
            final(self)@.wf(),
            final(self)@.contains(entry),
    {
        let ghost before = self@;
        proof {
            before.lemma_position(entry);
        }
        match self.find(&entry) {
            Some(i) => {
                add_id(&mut self.queries_registry[i].group.listeners, scope);
                proof {
                    assert(self@.slots =~= before.registered(entry, initial, scope).slots);
                    before.lemma_amended_keeps_positions(
                        i as int,
                        Listeners {
                            listeners: with_id(before.slots[i as int].1.listeners, scope),
                            ..before.slots[i as int].1
                        },
                        entry,
                    );
                }
                false
            },
            None => {
                let state = match initial {
                    Some(state) => state,
                    None => QueryState::Loading(None),
                };
                let mut listeners: Vec<SubscriberId> = Vec::new();
                listeners.push(scope);
                self.queries_registry.push(
                    Slot { entry, group: QueryListeners { value: CachedResult::new(state), listeners } },
                );
                proof {
                    assert(listeners@ =~= seq![scope]);
                    assert(self@.slots =~= before.registered(entry, initial, scope).slots);
                    self@.lemma_position(entry);
                    assert(self@.slots[before.slots.len() as int].0.same_entry(&entry)) by {
                        assert(same_keys(entry.query_keys@, entry.query_keys@));
                    }
                }
                true
            },
        }
    }

    /// Decides what the arrival of a listener at `entry` at the moment `now`
    /// asks for. While a run is under way nothing happens: that run serves
    /// the newcomer too. The query runs if it was never queried, or if its
    /// result is stale: the result turns to loading, keeping the value it
    /// could show, and the listeners returned are to be woken before the
    /// work starts. A fresh result is shown as it is: the listeners are
    /// woken and nothing runs. Returns whether to run.
    pub fn run_new_query(&mut self, entry: &RegistryEntry<K>, stale_time: Span, now: Moment) -> (plan: (
        bool,
        Vec<SubscriberId>,
    ))
        requires
            old(self)@.wf(),
        ensures
            final(self)@ == old(self)@.queried(*entry, stale_time, now),
            plan.0 == old(self)@.needs_query(*entry, stale_time, now),
            plan.1@ == old(self)@.query_wakes(*entry, stale_time, now),
            final(self)@.wf(),
    {
        let ghost before = self@;
        match self.find(entry) {
            Some(i) => {
                let is_fresh = self.queries_registry[i].group.value.is_fresh_at(stale_time, now);
                let is_loading = self.queries_registry[i].group.value.state.is_loading();
                let has_been_queried = self.queries_registry[i].group.value.has_been_loaded();
                if (!is_fresh && !is_loading) || !has_been_queried {
                    self.queries_registry[i].group.value.set_to_loading(now);
                    self.queries_registry[i].group.value.set_to_loaded();
                    proof {
                        assert(self@.slots =~= before.queried(*entry, stale_time, now).slots);
                    }
                    (true, copy_ids(&self.queries_registry[i].group.listeners))
                } else if is_fresh && !is_loading {
                    (false, copy_ids(&self.queries_registry[i].group.listeners))
                } else {
                    (false, Vec::new())
                }
            },
            None => (false, Vec::new()),
        }
    }

    /// Stores what a run of `entry` returned at the moment `now`. Returns
    /// the listeners that the entry has by now. Where the entry has gone in
    /// the meantime the result is dropped.
    pub fn settle_query(&mut self, entry: &RegistryEntry<K>, result: Result<T, E>, now: Moment) -> (notify:
        Vec<SubscriberId>)
        requires
            old(self)@.wf(),
        ensures
            final(self)@ == old(self)@.settled(*entry, result, now),
            notify@ == old(self)@.listeners(*entry),
            final(self)@.wf(),
    {
        let ghost before = self@;
        match self.find(entry) {
            Some(i) => {
                self.queries_registry[i].group.value.set_value(QueryState::from(result), now);
                proof {
                    assert(self@.slots =~= before.settled(*entry, result, now).slots);
                }
                copy_ids(&self.queries_registry[i].group.listeners)
            },
            None => Vec::new(),
        }
    }

    /// Takes a wish to revalidate `entry` every `interval` into account.
    /// Only a shorter interval replaces the one that runs: then the timer
    /// that runs is to be stopped and a new one started. A wish for a longer
    /// interval, or for none, changes nothing. Returns the timer to stop and
    /// the timer to start with its period.
    pub fn revalidate(&mut self, entry: &RegistryEntry<K>, interval: Option<Span>) -> (told: (
        Option<TaskId>,
        Option<(TaskId, Span)>,
    ))
        requires
            old(self)@.wf(),
        ensures
            final(self)@ == old(self)@.revalidated(*entry, interval),
            told.0 == if old(self)@.revalidation_changes(*entry, interval) {
                match old(self)@.group(*entry).value.revalidation_options {
                    Some(options) => Some(options.task),
                    None => None,
                }
            } else {
                None
            },
            told.1 == if old(self)@.revalidation_changes(*entry, interval) {
                Some((old(self)@.next_task, interval.unwrap()))
            } else {
                None
            },
            final(self)@.wf(),
    {
        let ghost before = self@;
        match (self.find(entry), interval) {
            (Some(i), Some(period)) => {
                let current = self.queries_registry[i].group.value.revalidation_options;
                let shorter = match current {
                    Some(options) => options.interval.nanos > period.nanos,
                    None => true,
                };
                if shorter {
                    let cancel = match current {
                        Some(options) => Some(options.task),
                        None => None,
                    };
                    let token = self.next_task;
                    self.queries_registry[i].group.value.set_revalidate_options(
                        Some(RevalidationOptions { interval: period, task: token }),
                    );
                    self.next_task = next_token(token);
                    proof {
                        assert(self@.slots =~= before.revalidated(*entry, interval).slots);
                    }
                    (cancel, Some((token, period)))
                } else {
                    (None, None)
                }
            },
            _ => (None, None),
        }
    }

    /// Invalidate the queries that contain all the specified keys and that
    /// somebody listens to. Each of them turns to loading at the moment
    /// `now`, keeping the value it could show, before this function returns,
    /// and so before any of the runs starts. The runs are independent of
    /// each other: the host runs them concurrently.
    pub fn invalidate_queries(&mut self, keys_to_invalidate: &[K], now: Moment) -> (orders: Vec<
        Invalidation,
    >)
        requires
            old(self)@.wf(),
        ensures
            final(self)@ == old(self)@.invalidated(keys_to_invalidate@, now),
            invalidations_of(orders@) == old(self)@.run_orders(
                keys_to_invalidate@,
                old(self)@.slots.len() as int,
            ),
            final(self)@.wf(),
    {
        let ghost before = self@;
        let ghost keys = keys_to_invalidate@;
        let mut orders: Vec<Invalidation> = Vec::new();
        let mut i: usize = 0;
        while i < self.queries_registry.len()
            invariant
                i <= self.queries_registry.len(),
                before.slots.len() == self.queries_registry.len(),
                before.wf(),
                keys == keys_to_invalidate@,
                self@.next_task == before.next_task,
                forall|j: int|
                    0 <= j < i ==> #[trigger] self@.slots[j] == before.invalidated(keys, now).slots[j],
                forall|j: int|
                    i <= j < self.queries_registry.len() ==> #[trigger] self@.slots[j]
                        == before.slots[j],
                invalidations_of(orders@) == before.run_orders(keys, i as int),
            decreases self.queries_registry.len() - i,
        {
            let ghost so_far = invalidations_of(orders@);
            let ghost at_top = self@;
            assert(at_top.slots[i as int] == before.slots[i as int]);
            let concerned = covers_keys(&self.queries_registry[i].entry.query_keys, keys_to_invalidate)
                && self.queries_registry[i].group.listeners.len() > 0;
            if concerned {
                self.queries_registry[i].group.value.set_to_loading(now);
                self.queries_registry[i].group.value.set_to_loaded();
                let listeners = copy_ids(&self.queries_registry[i].group.listeners);
                orders.push(Invalidation { slot: i, listeners });
                proof {
                    assert(orders@.last().listeners@ == before.slots[i as int].1.listeners);
                    assert(invalidations_of(orders@) =~= so_far.push(
                        (i as int, before.slots[i as int].1.listeners),
                    ));
                    assert(self@.slots[i as int] == before.invalidated(keys, now).slots[i as int]);
                }
            }
            proof {
                assert forall|j: int| 0 <= j < i + 1 implies #[trigger] self@.slots[j]
                    == before.invalidated(keys, now).slots[j] by {
                    if j < i {
                        assert(self@.slots[j] == at_top.slots[j]);
                    } else {
                        assert(self@.slots[i as int] == before.invalidated(keys, now).slots[i as int]);
                    }
                }
                assert forall|j: int|
                    i + 1 <= j < self.queries_registry.len() implies #[trigger] self@.slots[j]
                    == before.slots[j] by {
                    assert(self@.slots[j] == at_top.slots[j]);
                }
            }
            i += 1;
        }
        proof {
            assert(self@.slots =~= before.invalidated(keys, now).slots);
        }
        orders
    }

    /// Takes the listener `scope` from `entry` at the moment `now`. If it
    /// was the last one and the result is stale, the entry is removed, and
    /// what it held is returned, so that the host can stop its timer. An
    /// entry that is not registered is left alone, so a listener may leave
    /// after its entry has gone.
    pub fn release(&mut self, entry: &RegistryEntry<K>, scope: SubscriberId, stale_time: Span, now: Moment) -> (removed:
        Option<QueryListeners<T, E>>)
        requires
            old(self)@.wf(),
        ensures
            final(self)@ == old(self)@.released(*entry, scope, stale_time, now),
            match removed {
                Some(group) => old(self)@.release_removes(*entry, scope, stale_time, now) && group@
                    == (Listeners {
                    value: old(self)@.group(*entry).value,
                    listeners: Seq::empty(),
                }),
                None => !old(self)@.release_removes(*entry, scope, stale_time, now),
            },
            final(self)@.wf(),
    {
        let ghost before = self@;
        match self.find(entry) {
            Some(i) => {
                assert(before.slots[i as int].1.listeners.no_duplicates());
                drop_id(&mut self.queries_registry[i].group.listeners, scope);
                let is_stale = self.queries_registry[i].group.value.is_stale_at(stale_time, now);
                if self.queries_registry[i].group.listeners.len() == 0 && is_stale {
                    let slot = self.queries_registry.remove(i);
                    proof {
                        assert(self@.slots =~= before.released(*entry, scope, stale_time, now).slots);
                        assert(slot.group@.listeners =~= Seq::empty());
                    }
                    Some(slot.group)
                } else {
                    proof {
                        assert(self@.slots =~= before.released(*entry, scope, stale_time, now).slots);
                    }
                    None
                }
            },
            None => None,
        }
    }
}

} // verus!
