use dioxus_query::cached_result::{CachedResult, RevalidationOptions, Stopwatch};
use dioxus_query::result::QueryState;
use dioxus_query::time::{Moment, Span};
use dioxus_query::use_mutation::{use_mutation, MutationState};
use dioxus_query::use_query::{use_get_query, use_query, use_sync_memo, Memoized, Query, UseQuery};
use dioxus_query::use_query_client::{
    contains_key, covers_keys, use_init_query_client, RegistryEntry, UseQueryClient,
};

#[derive(Clone, PartialEq, Eq, Hash, Debug)]
enum QueryKey {
    User(usize),
    Users,
    Other,
}

fn entry(keys: Vec<QueryKey>) -> RegistryEntry<QueryKey> {
    RegistryEntry { query_keys: keys, query_fn_id: 1 }
}

fn client() -> UseQueryClient<String, (), QueryKey> {
    use_init_query_client()
}

#[test]
fn query_state_kinds() {
    let ok: QueryState<u32, ()> = QueryState::Settled(Ok(1));
    let err: QueryState<u32, ()> = QueryState::Settled(Err(()));
    let loading: QueryState<u32, ()> = QueryState::Loading(Some(2));
    assert!(ok.is_ok() && !ok.is_err() && !ok.is_loading());
    assert!(!err.is_ok() && err.is_err() && !err.is_loading());
    assert!(!loading.is_ok() && !loading.is_err() && loading.is_loading());
    assert!(matches!(QueryState::<u32, ()>::default(), QueryState::Loading(None)));
    assert_eq!(Option::<u32>::from(ok.clone()), Some(1));
    assert_eq!(Option::<u32>::from(err), None);
    assert_eq!(Option::<u32>::from(loading), Some(2));
    assert_eq!(QueryState::<u32, ()>::from(Ok(3)), QueryState::Settled(Ok(3)));
    assert_eq!(QueryState::<u32, ()>::from(Err(())), QueryState::Settled(Err(())));
    let plain: QueryState<u8, ()> = QueryState::from(4u8);
    assert_eq!(plain, QueryState::Settled(Ok(4)));
    assert_eq!(ok.clone(), ok);
}

#[test]
fn mutation_state_kinds() {
    let ok: MutationState<u32, ()> = MutationState::Settled(Ok(1));
    let err: MutationState<u32, ()> = MutationState::Settled(Err(()));
    let loading: MutationState<u32, ()> = MutationState::Loading(None);
    let pending: MutationState<u32, ()> = MutationState::Pending;
    assert!(ok.is_ok() && !ok.is_err());
    assert!(err.is_err() && !err.is_ok());
    assert!(loading.is_loading() && !loading.is_pending());
    assert!(pending.is_pending() && !pending.is_loading());
    assert_eq!(Option::<u32>::from(ok), Some(1));
    assert_eq!(Option::<u32>::from(pending), None);
    assert_eq!(MutationState::<u32, ()>::from(Err(())), MutationState::Settled(Err(())));
    let mut state: MutationState<u32, ()> = MutationState::Settled(Ok(5));
    state.set_loading();
    assert_eq!(state, MutationState::Loading(Some(5)));
    let mut state: MutationState<u32, ()> = MutationState::Pending;
    state.set_loading();
    assert_eq!(state, MutationState::Loading(None));
}

#[test]
fn mutation_of_one_consumer() {
    let mut mutation = use_mutation::<u32, String>(9);
    assert!(mutation.result().is_pending());
    assert_eq!(mutation.mutate(), 9);
    assert!(mutation.result().is_loading());
    assert_eq!(mutation.settle(Ok(3)), 9);
    assert!(mutation.result().is_ok());
    mutation.mutate_silent();
    assert_eq!(mutation.result(), &MutationState::Loading(Some(3)));
    mutation.settle_silent(Err("no".to_string()));
    assert!(mutation.result().is_err());
    mutation.mutate();
    assert_eq!(mutation.result(), &MutationState::Loading(None));
}

#[test]
fn cached_result_staleness() {
    let mut cached: CachedResult<u32, ()> = CachedResult::default();
    assert!(cached.is_loading());
    assert!(!cached.has_been_loaded());
    assert!(cached.is_stale_at(Span::from_secs(10), Moment::at(0)));
    assert!(cached.is_stale(Span::from_secs(10), &Stopwatch::start()));
    cached.set_value(QueryState::Settled(Ok(1)), Moment::at(100));
    assert!(cached.state().is_ok());
    assert!(!cached.is_stale_at(Span::from_nanos(5), Moment::at(104)));
    assert!(cached.is_stale_at(Span::from_nanos(5), Moment::at(105)));
    assert!(cached.is_fresh_at(Span::from_nanos(5), Moment::at(104)));
    assert!(!cached.is_fresh_at(Span::from_nanos(5), Moment::at(105)));
    assert!(cached.is_stale_at(Span::zero(), Moment::at(100)));
    cached.set_to_loading(Moment::at(200));
    assert_eq!(cached.state(), &QueryState::Loading(Some(1)));
    assert_eq!(cached.instant, Some(Moment::at(200)));
    cached.set_to_loaded();
    assert!(cached.has_been_loaded());
    cached.set_revalidate_options(Some(RevalidationOptions { interval: Span::from_secs(1), task: 3 }));
    assert_eq!(cached.revalidation_options.unwrap().task, 3);
    let clock = Stopwatch::start();
    let mut recent: CachedResult<u32, ()> = CachedResult::new(QueryState::Settled(Ok(2)));
    recent.set_value(QueryState::Settled(Ok(2)), clock.now());
    assert!(!recent.is_stale(Span::from_secs(3600), &clock));
}

#[test]
fn keys_are_found_by_equality() {
    let keys = vec![QueryKey::User(1), QueryKey::Users];
    assert!(contains_key(&keys, &QueryKey::Users));
    assert!(!contains_key(&keys, &QueryKey::User(2)));
    assert!(covers_keys(&keys, &[QueryKey::Users, QueryKey::User(1)]));
    assert!(covers_keys(&keys, &[]));
    assert!(!covers_keys(&keys, &[QueryKey::Users, QueryKey::Other]));
    assert!(entry(vec![QueryKey::Users]) == entry(vec![QueryKey::Users]));
    assert!(entry(vec![QueryKey::Users]) != entry(vec![QueryKey::Other]));
    assert!(entry(vec![QueryKey::Users]) != entry(vec![QueryKey::Users, QueryKey::Users]));
    assert!(entry(vec![]) != RegistryEntry { query_keys: vec![], query_fn_id: 2 });
}

#[test]
fn listeners_share_an_entry() {
    let mut client = client();
    assert!(use_get_query(&mut client, vec![QueryKey::User(1)], 1, 10));
    assert!(!use_get_query(&mut client, vec![QueryKey::User(1)], 1, 11));
    assert!(!use_get_query(&mut client, vec![QueryKey::User(1)], 1, 10));
    assert!(use_get_query(&mut client, vec![QueryKey::User(1)], 2, 10));
    assert!(use_get_query(&mut client, vec![QueryKey::User(2)], 1, 10));
    assert_eq!(client.len(), 3);
    let group = client.get_entry(&entry(vec![QueryKey::User(1)]));
    assert_eq!(group.listeners(), vec![10, 11]);
    assert!(group.value().is_loading());
    assert!(client.contains(&entry(vec![QueryKey::User(2)])));
    assert!(!client.contains(&entry(vec![QueryKey::Users])));
}

#[test]
fn initial_value_is_shown() {
    let mut client = client();
    let query: Query<String, (), QueryKey> =
        Query::new(1).initial(QueryState::Settled(Ok("cached".to_string()))).stale(Span::from_secs(1));
    assert_eq!(query.stale_time, Span::from_secs(1));
    assert!(use_query(&mut client, vec![QueryKey::Users], query, 1));
    let listener = UseQuery::new(entry(vec![QueryKey::Users]), 1, Span::from_secs(1));
    assert_eq!(listener.result(&client).state(), &QueryState::Settled(Ok("cached".to_string())));
    assert_eq!(listener.registry_entry().query_fn_id, 1);
}

#[test]
fn first_arrival_runs_the_query() {
    let mut client = client();
    use_get_query(&mut client, vec![QueryKey::Users], 1, 1);
    let key = entry(vec![QueryKey::Users]);
    let (run, notify) = client.run_new_query(&key, Span::zero(), Moment::at(0));
    assert!(run);
    assert_eq!(notify, vec![1]);
    assert!(client.get_entry(&key).value().has_been_loaded());
    // A second listener arrives while the first run is in flight.
    use_get_query(&mut client, vec![QueryKey::Users], 1, 2);
    let (again, woken) = client.run_new_query(&key, Span::zero(), Moment::at(1));
    assert!(!again);
    assert!(woken.is_empty());
    let notify = client.settle_query(&key, Ok("all".to_string()), Moment::at(10));
    assert_eq!(notify, vec![1, 2]);
    assert!(client.get_entry(&key).value().is_ok());

    // Fresh for five nanoseconds: the listeners are woken, nothing runs.
    let (fresh, woken) = client.run_new_query(&key, Span::from_nanos(5), Moment::at(14));
    assert!(!fresh);
    assert_eq!(woken, vec![1, 2]);
    assert!(client.get_entry(&key).value().is_ok());
    // Stale from then on.
    let (stale, notify) = client.run_new_query(&key, Span::from_nanos(5), Moment::at(15));
    assert!(stale);
    assert_eq!(notify, vec![1, 2]);
    assert_eq!(
        client.get_entry(&key).value().state(),
        &QueryState::Loading(Some("all".to_string()))
    );
    let (unknown, _) = client.run_new_query(&entry(vec![QueryKey::Other]), Span::zero(), Moment::at(0));
    assert!(!unknown);
}

#[test]
fn initial_value_runs_once() {
    let mut client = client();
    let query: Query<String, (), QueryKey> =
        Query::new(1).initial(QueryState::Settled(Ok("cached".to_string())));
    use_query(&mut client, vec![QueryKey::Users], query, 1);
    let key = entry(vec![QueryKey::Users]);
    let (first, _) = client.run_new_query(&key, Span::zero(), Moment::at(0));
    let (second, _) = client.run_new_query(&key, Span::zero(), Moment::at(0));
    let (third, _) = client.run_new_query(&key, Span::zero(), Moment::at(3));
    assert!(first);
    assert!(!second);
    assert!(!third);
    // The initial value is still shown while the run is in flight.
    assert_eq!(
        client.get_entry(&key).value().state(),
        &QueryState::Loading(Some("cached".to_string()))
    );
    client.settle_query(&key, Ok("loaded".to_string()), Moment::at(5));
    assert_eq!(client.get_entry(&key).value().state(), &QueryState::Settled(Ok("loaded".to_string())));
}

#[test]
fn invalidation_needs_every_key() {
    let mut client = client();
    use_get_query(&mut client, vec![QueryKey::User(1), QueryKey::Users], 1, 1);
    use_get_query(&mut client, vec![QueryKey::User(1)], 1, 2);
    use_get_query(&mut client, vec![QueryKey::Users], 1, 3);
    use_get_query(&mut client, vec![QueryKey::Users, QueryKey::Other, QueryKey::User(1)], 1, 4);
    for slot in 0..4 {
        let key = entry(client.entry_at(slot).query_keys.clone());
        client.settle_query(&key, Ok("v".to_string()), Moment::at(1));
    }

    let orders = client.invalidate_queries(&[QueryKey::User(1), QueryKey::Users], Moment::at(2));
    assert_eq!(orders.len(), 2);
    assert_eq!(orders[0].slot, 0);
    assert_eq!(orders[0].listeners, vec![1]);
    assert_eq!(orders[1].slot, 3);
    assert_eq!(orders[1].listeners, vec![4]);
    assert!(client.get_entry(&entry(vec![QueryKey::User(1), QueryKey::Users])).value().is_loading());
    assert!(client.get_entry(&entry(vec![QueryKey::User(1)])).value().is_ok());
    assert!(client.get_entry(&entry(vec![QueryKey::Users])).value().is_ok());

    // A single key is a list of one.
    let orders = client.invalidate_queries(&[QueryKey::Users], Moment::at(3));
    assert_eq!(orders.len(), 3);
    assert!(client.get_entry(&entry(vec![QueryKey::User(1)])).value().is_ok());
    assert!(client.get_entry(&entry(vec![QueryKey::Users])).value().is_loading());
}

#[test]
fn invalidation_skips_entries_without_listeners() {
    let mut client = client();
    use_get_query(&mut client, vec![QueryKey::Users], 1, 1);
    client.settle_query(&entry(vec![QueryKey::Users]), Ok("v".to_string()), Moment::at(10));
    // The listener leaves while the result is fresh: the entry stays.
    let listener = UseQuery::new(entry(vec![QueryKey::Users]), 1, Span::from_secs(1));
    assert!(listener.cleaner().clean(&mut client, Moment::at(11)).is_none());
    assert_eq!(client.len(), 1);
    assert!(client.invalidate_queries(&[QueryKey::Users], Moment::at(12)).is_empty());
    assert!(client.get_entry(&entry(vec![QueryKey::Users])).value().is_ok());
}

#[test]
fn last_listener_takes_a_stale_entry_along() {
    let mut client = client();
    use_get_query(&mut client, vec![QueryKey::Users], 1, 1);
    use_get_query(&mut client, vec![QueryKey::Users], 1, 2);
    let key = entry(vec![QueryKey::Users]);
    client.settle_query(&key, Ok("v".to_string()), Moment::at(10));
    assert!(client.release(&key, 1, Span::zero(), Moment::at(20)).is_none());
    assert_eq!(client.get_entry(&key).listeners(), vec![2]);
    let removed = client.release(&key, 2, Span::zero(), Moment::at(20)).unwrap();
    assert!(removed.value().is_ok());
    assert!(removed.listeners().is_empty());
    assert_eq!(client.len(), 0);
    // Leaving again finds nothing and does nothing.
    assert!(client.release(&key, 2, Span::zero(), Moment::at(21)).is_none());
}

#[test]
fn only_a_shorter_interval_replaces_the_timer() {
    let mut client = client();
    use_get_query(&mut client, vec![QueryKey::Users], 1, 1);
    let key = entry(vec![QueryKey::Users]);
    assert_eq!(client.revalidate(&key, None), (None, None));
    let (cancel, arm) = client.revalidate(&key, Some(Span::from_secs(2)));
    assert_eq!(cancel, None);
    assert_eq!(arm, Some((0, Span::from_secs(2))));
    assert_eq!(client.revalidate(&key, Some(Span::from_secs(2))), (None, None));
    let (cancel, arm) = client.revalidate(&key, Some(Span::from_secs(1)));
    assert_eq!(cancel, Some(0));
    assert_eq!(arm, Some((1, Span::from_secs(1))));
    // A longer wish, or none, leaves the timer as it is.
    assert_eq!(client.revalidate(&key, Some(Span::from_secs(3))), (None, None));
    assert_eq!(client.revalidate(&key, None), (None, None));
    let options = client.get_entry(&key).value().revalidation_options.unwrap();
    assert_eq!(options.interval, Span::from_secs(1));
    assert_eq!(options.task, 1);
    assert_eq!(client.revalidate(&entry(vec![QueryKey::Other]), Some(Span::zero())), (None, None));
}

#[test]
fn memo_follows_its_dependencies() {
    let mut slot: Option<Memoized<String, u32>> = None;
    let mut calls = 0;
    assert_eq!(
        use_sync_memo(&mut slot, 1, |deps| {
            calls += 1;
            format!("for {deps}")
        }),
        "for 1"
    );
    assert_eq!(
        use_sync_memo(&mut slot, 1, |deps| {
            calls += 1;
            format!("again for {deps}")
        }),
        "for 1"
    );
    assert_eq!(
        use_sync_memo(&mut slot, 2, |deps| {
            calls += 1;
            format!("for {deps}")
        }),
        "for 2"
    );
    assert_eq!(calls, 2);
    assert_eq!(slot.unwrap().deps, 2);
}
