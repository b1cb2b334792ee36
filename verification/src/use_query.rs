//! Query listeners: how a consumer configures a query, registers as its
//! listener, reads its result and leaves it.
use vstd::prelude::*;
use vstd::std_specs::cmp::PartialEqSpec;
use crate::cached_result::CachedResult;
use crate::query::SubscriberId;
use crate::result::QueryState;
use crate::time::{Moment, Span};
use crate::use_query_client::{Listeners, QueryListeners, RegistryEntry, UseQueryClient};

verus! {

/// The configuration for a given query listener.
pub struct Query<T, E, K: PartialEq> {
    pub initial_state: Option<QueryState<T, E>>,
    pub registry_entry: RegistryEntry<K>,
    pub stale_time: Span,
}

impl<T, E, K: PartialEq> Query<T, E, K> {
    /// The configuration of a query that is run by the query function
    /// `query_fn_id`: no keys yet, no initial value, stale at once.
    pub fn new(query_fn_id: u64) -> (query: Self)
        ensures
            query.initial_state is None,
            query.registry_entry.query_keys@ == Seq::<K>::empty(),
            query.registry_entry.query_fn_id == query_fn_id,
            query.stale_time == (Span { nanos: 0 }),
    {
        Query {
            initial_state: None,
            registry_entry: RegistryEntry { query_keys: Vec::new(), query_fn_id },
            stale_time: Span::zero(),
        }
    }

    /// Set the initial value of the query.
    pub fn initial(self, initial_value: QueryState<T, E>) -> (query: Self)
        ensures
            query == (Query { initial_state: Some(initial_value), ..self }),
    {
        Query { initial_state: Some(initial_value), ..self }
    }

    /// Set the stale time of the query.
    pub fn stale(self, stale_time: Span) -> (query: Self)
        ensures
            query == (Query { stale_time, ..self }),
    {
        Query { stale_time, ..self }
    }
}

/// A query listener.
pub struct UseQuery<K: PartialEq> {
    registry_entry: RegistryEntry<K>,
    scope_id: SubscriberId,
    stale_time: Span,
}

impl<K: PartialEq> UseQuery<K> {
    /// The listener `scope_id` of `registry_entry`.
    pub fn new(registry_entry: RegistryEntry<K>, scope_id: SubscriberId, stale_time: Span) -> (listener:
        Self)
        ensures
            listener.entry() == registry_entry,
            listener.scope() == scope_id,
            listener.stale_time() == stale_time,
    {
        UseQuery { registry_entry, scope_id, stale_time }
    }

    /// The entry that is listened to.
    pub closed spec fn entry(&self) -> RegistryEntry<K> {
        self.registry_entry
    }

    /// The consumer that listens.
    pub closed spec fn scope(&self) -> SubscriberId {
        self.scope_id
    }

    /// The stale time that the listener asked for.
    pub closed spec fn stale_time(&self) -> Span {
        self.stale_time
    }

    /// The entry that is listened to.
    pub fn registry_entry(&self) -> (entry: &RegistryEntry<K>)
        ensures
            *entry == self.entry(),
    {
        &self.registry_entry
    }

    /// Get the current result from the query, which must be registered.
    pub fn result<'a, T, E>(&self, client: &'a UseQueryClient<T, E, K>) -> (cached: &'a CachedResult<
        T,
        E,
    >)
        requires
            client@.wf(),
            client@.contains(self.entry()),
        ensures
            *cached == client@.group(self.entry()).value,
    {
        client.get_entry(&self.registry_entry).value()
    }

    /// Turns the listener into what takes it off the registry when the
    /// consumer goes.
    pub fn cleaner(self) -> (cleaner: UseQueryCleaner<K>)
        ensures
            cleaner.entry() == self.entry(),
            cleaner.scope() == self.scope(),
            cleaner.stale_time() == self.stale_time(),
    {
        UseQueryCleaner {
            registry_entry: self.registry_entry,
            scope_id: self.scope_id,
            stale_time: self.stale_time,
        }
    }
}

/// Takes a listener off the registry when its consumer goes.
pub struct UseQueryCleaner<K: PartialEq> {
    registry_entry: RegistryEntry<K>,
    scope_id: SubscriberId,
    stale_time: Span,
}

impl<K: PartialEq> UseQueryCleaner<K> {
    /// The entry that is listened to.
    pub closed spec fn entry(&self) -> RegistryEntry<K> {
        self.registry_entry
    }

    /// The consumer that listens.
    pub closed spec fn scope(&self) -> SubscriberId {
        self.scope_id
    }

    /// The stale time that the listener asked for.
    pub closed spec fn stale_time(&self) -> Span {
        self.stale_time
    }

    /// Takes the listener off the registry at the moment `now`; the entry
    /// goes with it if it was the last one and the result is stale. The
    /// cleaner is consumed, so this happens once; and it is in order that
    /// the entry has gone before. Returns what the entry held if it was
    /// removed.
    pub fn clean<T, E>(self, client: &mut UseQueryClient<T, E, K>, now: Moment) -> (removed: Option<
        QueryListeners<T, E>,
    >)
        requires
            old(client)@.wf(),
        ensures
            final(client)@ == old(client)@.released(self.entry(), self.scope(), self.stale_time(), now),
            match removed {
                Some(group) => old(client)@.release_removes(
                    self.entry(),
                    self.scope(),
                    self.stale_time(),
                    now,
                ) && group@ == (Listeners {
                    value: old(client)@.group(self.entry()).value,
                    listeners: Seq::empty(),
                }),
                None => !old(client)@.release_removes(
                    self.entry(),
                    self.scope(),
                    self.stale_time(),
                    now,
                ),
            },
            final(client)@.wf(),
    {
        client.release(&self.registry_entry, self.scope_id, self.stale_time, now)
    }
}

/// Register the consumer `scope` as a listener of the query configured by
/// `query`, run against `query_keys`. Returns whether the registration made
/// a new entry; the host then asks [`UseQueryClient::run_new_query`] whether
/// the query has to run.
pub fn use_query<T, E, K: PartialEq>(
    client: &mut UseQueryClient<T, E, K>,
    query_keys: Vec<K>,
    query: Query<T, E, K>,
    scope: SubscriberId,
) -> (created: bool)
    requires
        old(client)@.wf(),
    ensures
        final(client)@ == old(client)@.registered(
            RegistryEntry { query_keys, query_fn_id: query.registry_entry.query_fn_id },
            query.initial_state,
            scope,
        ),
        created == !old(client)@.contains(
            RegistryEntry { query_keys, query_fn_id: query.registry_entry.query_fn_id },
        ),
        final(client)@.wf(),
        final(client)@.contains(
            RegistryEntry { query_keys, query_fn_id: query.registry_entry.query_fn_id },
        ),
{
    let entry = RegistryEntry { query_keys, query_fn_id: query.registry_entry.query_fn_id };
    client.register(entry, query.initial_state, scope)
}

/// Register the consumer `scope` as a listener of the query that the query
/// function `query_fn_id` runs against `query_keys`, with the default
/// configuration.
pub fn use_get_query<T, E, K: PartialEq>(
    client: &mut UseQueryClient<T, E, K>,
    query_keys: Vec<K>,
    query_fn_id: u64,
    scope: SubscriberId,
) -> (created: bool)
    requires
        old(client)@.wf(),
    ensures
        final(client)@ == old(client)@.registered(
            RegistryEntry { query_keys, query_fn_id },
            None,
            scope,
        ),
        created == !old(client)@.contains(RegistryEntry { query_keys, query_fn_id }),
        final(client)@.wf(),
        final(client)@.contains(RegistryEntry { query_keys, query_fn_id }),
{
    use_query(client, query_keys, Query::new(query_fn_id), scope)
}

/// A value together with what it was computed from.
pub struct Memoized<T, D> {
    pub value: T,
    pub deps: D,
}

/// Whether `slot` has to be computed again for `deps`: it is empty, or what
/// it holds was computed from something else.
pub open spec fn memo_outdated<T, D: PartialEq>(slot: Option<Memoized<T, D>>, deps: D) -> bool {
    match slot {
        Some(memoized) => !memoized.deps.eq_spec(&deps),
        None => true,
    }
}

/// Keeps the value in `slot` in step with `deps` and returns it. The value
/// is computed by `init` when the slot is empty or when `deps` differ from
/// what the value was computed from; otherwise `init` is not called and the
/// slot stays as it is.
pub fn use_sync_memo<T, D: PartialEq, F: FnOnce(&D) -> T>(
    slot: &mut Option<Memoized<T, D>>,
    deps: D,
    init: F,
) -> (value: &T)
    requires
        init.requires((&deps,)),
    ensures
        *final(slot) is Some,
        *value == (*final(slot)).unwrap().value,
        *old(slot) is None ==> (*final(slot)).unwrap().deps == deps && init.ensures(
            (&deps,),
            (*final(slot)).unwrap().value,
        ),
        D::obeys_eq_spec() && memo_outdated(*old(slot), deps) ==> (*final(slot)).unwrap().deps
            == deps && init.ensures((&deps,), (*final(slot)).unwrap().value),
        D::obeys_eq_spec() && !memo_outdated(*old(slot), deps) ==> *final(slot) == *old(slot),
{
    let deps_have_changed = match slot {
        Some(memoized) => !(memoized.deps == deps),
        None => true,
    };
    if deps_have_changed {
        let new_value = init(&deps);
        *slot = Some(Memoized { value: new_value, deps });
    }
    match slot {
        Some(memoized) => &memoized.value,
        None => vstd::pervasive::unreached(),
    }
}

} // verus!
