use dioxus_query::captured::Captured;
use dioxus_query::query::{
    use_query, GetQuery, QueriesStorage, Query, QueryCapability, QueryStateData, Suspension, UseQuery,
};
use dioxus_query::time::{Clock, Moment, Span};

#[derive(Clone, PartialEq, Eq, Hash)]
struct GetUser {
    client: Captured<&'static str>,
}

impl QueryCapability for GetUser {
    type Ok = String;
    type Err = ();
    type Keys = usize;
    type Run<'a> = std::future::Ready<Result<String, ()>>;

    fn run<'a>(&'a self, keys: &'a usize) -> Self::Run<'a> {
        std::future::ready(if *keys == 0 { Ok("Marc".to_string()) } else { Err(()) })
    }
}

#[derive(Clone, PartialEq, Eq, Hash)]
struct GetAge;

impl QueryCapability for GetAge {
    type Ok = u32;
    type Err = String;
    type Keys = usize;
    type Run<'a> = std::future::Ready<Result<u32, String>>;

    fn run<'a>(&'a self, keys: &'a usize) -> Self::Run<'a> {
        std::future::ready(Ok(*keys as u32 + 30))
    }

    fn matches(&self, keys: &usize) -> bool {
        *keys % 2 == 0
    }
}

fn user(key: usize) -> Query<GetUser> {
    Query::new(key, GetUser { client: Captured("primary") })
}

fn settled_at(state: &QueryStateData<GetUser>) -> Moment {
    match state {
        QueryStateData::Settled { settlement_instant, .. } => *settlement_instant,
        _ => panic!("not settled"),
    }
}

#[test]
fn query_defaults() {
    let query = user(0);
    assert!(query.enabled);
    assert_eq!(query.stale_time, Span::zero());
    assert_eq!(query.clean_time, Span::from_secs(5 * 60));
    assert!(query.interval_time.is_never());
    let get = GetQuery::new(0, GetUser { client: Captured("primary") });
    assert_eq!(get.stale_time, Span::zero());
    assert_eq!(get.clean_time, Span::zero());
    let query = Query::from(get.stale_time(Span::from_secs(1)).clean_time(Span::from_secs(2)));
    assert!(query.enabled);
    assert_eq!(query.stale_time, Span::from_secs(1));
    assert_eq!(query.clean_time, Span::from_secs(2));
    assert!(query.interval_time.is_never());
}

#[test]
fn builders_change_one_field() {
    let query = user(3)
        .enable(false)
        .stale_time(Span::from_millis(5))
        .clean_time(Span::from_secs(9))
        .interval_time(Span::from_secs(2));
    assert!(!query.enabled);
    assert_eq!(query.stale_time.as_nanos(), 5_000_000);
    assert_eq!(query.clean_time.as_nanos(), 9_000_000_000);
    assert_eq!(query.interval_time.as_nanos(), 2_000_000_000);
    assert_eq!(query.keys, 3);
}

#[test]
fn get_user_scenario() {
    let mut storage: QueriesStorage<GetUser> = QueriesStorage::new();
    let query = user(0);
    let handle = UseQuery::new(user(0), 1);
    let mount = use_query(&mut storage, None, user(0), 1, Moment::at(10));
    assert!(mount.registration.created);
    assert!(mount.run_due);

    // Nothing has run yet: the first read sees the entry pending.
    let (seen, cancel) = handle.read(&mut storage);
    assert!(seen.state().is_pending());
    assert!(seen.state().ok().is_none());
    assert_eq!(cancel, None);
    assert_eq!(storage.entry(&query).unwrap().subscribers(), vec![1]);

    // The host's task starts the run: the entry shows loading without a
    // result.
    let plan = storage.maybe_run(&query, Moment::at(10));
    assert!(plan.run);
    assert_eq!(plan.notify, vec![1]);
    assert!(handle.peek(&storage).state().is_loading());
    assert!(handle.peek(&storage).state().ok().is_none());

    let done = storage.settle(&query, Ok("Marc".to_string()), Moment::at(20));
    assert_eq!(done.notify, vec![1]);
    assert_eq!(done.wake, None);
    let seen = handle.peek(&storage);
    assert!(seen.state().is_ok());
    assert_eq!(seen.as_settled(), &Ok("Marc".to_string()));
    let t0 = settled_at(seen.state());
    assert_eq!(t0, Moment::at(20));

    // Invalidating drives the entry to loading with the previous result.
    let plan = handle.invalidate(&mut storage);
    assert!(plan.run);
    assert_eq!(plan.notify, vec![1]);
    match storage.peek(&query) {
        QueryStateData::Loading { res } => assert_eq!(res, &Some(Ok("Marc".to_string()))),
        _ => panic!("not loading"),
    }
    assert_eq!(storage.peek(&query).ok(), Some(&"Marc".to_string()));
    assert_eq!(storage.peek(&query).unwrap(), &Ok("Marc".to_string()));

    let done = storage.settle(&query, Ok("Marc".to_string()), Moment::at(30));
    assert_eq!(done.notify, vec![1]);
    let t1 = settled_at(storage.peek(&query));
    assert!(t1.nanos > t0.nanos);
    assert_eq!(storage.peek(&query).unwrap(), &Ok("Marc".to_string()));
}

#[test]
fn pending_before_the_first_run() {
    let mut storage: QueriesStorage<GetUser> = QueriesStorage::new();
    let told = storage.insert_or_get_query(user(0), 1);
    assert!(told.created);
    assert_eq!(told.cancel_clean, None);
    assert_eq!(told.cancel_interval, None);
    assert_eq!(told.arm_interval, None);
    assert!(storage.peek(&user(0)).is_pending());
    assert!(!storage.peek(&user(0)).is_ok());
    assert!(!storage.peek(&user(0)).is_err());
    assert!(storage.contains(&user(0)));
    assert!(!storage.contains(&user(1)));
}

#[test]
fn stale_arrivals_start_one_run() {
    let mut storage: QueriesStorage<GetUser> = QueriesStorage::new();
    storage.insert_or_get_query(user(0), 7);
    storage.subscribe(&user(0), 7);
    let first = storage.maybe_run(&user(0), Moment::at(1));
    let second = storage.maybe_run(&user(0), Moment::at(1));
    let third = storage.maybe_run(&user(0), Moment::at(2));
    assert!(first.run);
    assert_eq!(first.notify, vec![7]);
    assert!(!second.run);
    assert!(second.notify.is_empty());
    assert!(!third.run);
    storage.settle(&user(0), Ok("Marc".to_string()), Moment::at(3));
    // Stale time is zero: the value is stale as soon as it has settled.
    let again = storage.maybe_run(&user(0), Moment::at(3));
    assert!(again.run);
}

#[test]
fn fresh_value_wakes_without_running() {
    let mut storage: QueriesStorage<GetUser> = QueriesStorage::new();
    let query = user(0).stale_time(Span::from_nanos(10));
    storage.insert_or_get_query(user(0).stale_time(Span::from_nanos(10)), 1);
    storage.subscribe(&query, 1);
    storage.subscribe(&query, 2);
    storage.subscribe(&query, 1);
    assert!(storage.maybe_run(&query, Moment::at(0)).run);
    storage.settle(&query, Err(()), Moment::at(100));
    assert!(storage.peek(&query).is_err());
    let fresh = storage.maybe_run(&query, Moment::at(109));
    assert!(!fresh.run);
    assert_eq!(fresh.notify, vec![1, 2]);
    let stale = storage.maybe_run(&query, Moment::at(110));
    assert!(stale.run);
    assert_eq!(stale.notify, vec![1, 2]);
}

#[test]
fn disabled_query_does_not_run_on_its_own() {
    let mut storage: QueriesStorage<GetUser> = QueriesStorage::new();
    let query = user(0).enable(false);
    let mount = use_query(&mut storage, None, user(0).enable(false), 1, Moment::at(0));
    assert!(!mount.run_due);
    assert!(!storage.maybe_run(&query, Moment::at(0)).run);
    assert!(storage.peek(&query).is_pending());
    // It runs when it is asked to.
    assert!(storage.run_queries(&query).run);
    assert!(storage.peek(&query).is_loading());
}

#[test]
fn captured_values_share_one_entry() {
    let mut storage: QueriesStorage<GetUser> = QueriesStorage::new();
    let first =
        storage.insert_or_get_query(Query::new(0, GetUser { client: Captured("primary") }), 1);
    let second =
        storage.insert_or_get_query(Query::new(0, GetUser { client: Captured("replica") }), 2);
    let other =
        storage.insert_or_get_query(Query::new(1, GetUser { client: Captured("primary") }), 1);
    assert!(first.created);
    assert!(!second.created);
    assert!(other.created);
    assert_eq!(storage.len(), 2);
}

#[test]
fn interval_does_not_split_entries() {
    let mut storage: QueriesStorage<GetUser> = QueriesStorage::new();
    storage.insert_or_get_query(user(0).interval_time(Span::from_secs(5)), 1);
    let second = storage.insert_or_get_query(user(0).interval_time(Span::from_secs(2)), 2);
    assert!(!second.created);
    let policy = storage.insert_or_get_query(user(0).stale_time(Span::from_secs(1)), 1);
    assert!(policy.created);
    assert_eq!(storage.len(), 2);
}

#[test]
fn shortest_interval_wins() {
    let mut storage: QueriesStorage<GetUser> = QueriesStorage::new();
    let five = storage.insert_or_get_query(user(0).interval_time(Span::from_secs(5)), 50);
    assert_eq!(five.arm_interval, Some((0, Span::from_secs(5))));
    assert_eq!(five.cancel_interval, None);
    let two = storage.insert_or_get_query(user(0).interval_time(Span::from_secs(2)), 20);
    assert_eq!(two.arm_interval, Some((1, Span::from_secs(2))));
    assert_eq!(two.cancel_interval, Some(0));
    let eight = storage.insert_or_get_query(user(0).interval_time(Span::from_secs(8)), 80);
    assert_eq!(eight.arm_interval, None);
    assert_eq!(eight.cancel_interval, None);
    let entry = storage.entry(&user(0)).unwrap();
    assert_eq!(entry.interval_task(), Some((Span::from_secs(2), 1)));
    assert_eq!(
        entry.requests(),
        vec![(50, Span::from_secs(5)), (20, Span::from_secs(2)), (80, Span::from_secs(8))]
    );
    storage.subscribe(&user(0), 50);
    storage.subscribe(&user(0), 20);
    storage.subscribe(&user(0), 80);

    // The consumer that asked for two seconds leaves: five seconds, the
    // shortest interval that is still asked for, takes over.
    let gone = storage.unsubscribe(&user(0), 20);
    assert_eq!(gone.cancel_interval, Some(1));
    assert_eq!(gone.arm_interval, Some((2, Span::from_secs(5))));
    assert_eq!(gone.arm_clean, None);
    assert_eq!(storage.entry(&user(0)).unwrap().interval_task(), Some((Span::from_secs(5), 2)));

    // A longer wish of one that stays changes nothing.
    let same = storage.insert_or_get_query(user(0).interval_time(Span::from_secs(9)), 80);
    assert_eq!(same.arm_interval, None);
    assert_eq!(same.cancel_interval, None);

    // Then eight seconds, now nine, and at last no timer at all.
    let gone = storage.unsubscribe(&user(0), 50);
    assert_eq!(gone.cancel_interval, Some(2));
    assert_eq!(gone.arm_interval, Some((3, Span::from_secs(9))));
    let gone = storage.unsubscribe(&user(0), 80);
    assert_eq!(gone.cancel_interval, Some(3));
    assert_eq!(gone.arm_interval, None);
    assert_eq!(gone.arm_clean, Some((4, Span::from_secs(300))));
    assert_eq!(storage.entry(&user(0)).unwrap().interval_task(), None);
    assert!(storage.entry(&user(0)).unwrap().requests().is_empty());
}

#[test]
fn leaving_keeps_the_timer_of_the_others() {
    let mut storage: QueriesStorage<GetUser> = QueriesStorage::new();
    storage.insert_or_get_query(user(0).interval_time(Span::from_secs(2)), 1);
    storage.insert_or_get_query(user(0).interval_time(Span::from_secs(5)), 2);
    storage.insert_or_get_query(user(0), 3);
    // The one that asked for nothing leaves, and the one with the longer
    // interval: the timer of two seconds runs on.
    let gone = storage.update_tasks(&user(0), 3);
    assert_eq!(gone.cancel_interval, None);
    assert_eq!(gone.arm_interval, None);
    let gone = storage.update_tasks(&user(0), 2);
    assert_eq!(gone.cancel_interval, None);
    assert_eq!(gone.arm_interval, None);
    assert_eq!(storage.entry(&user(0)).unwrap().interval_task(), Some((Span::from_secs(2), 0)));
}

#[test]
fn interval_timer_runs_the_query() {
    let mut storage: QueriesStorage<GetUser> = QueriesStorage::new();
    let told = storage.insert_or_get_query(user(0).interval_time(Span::from_secs(1)), 4);
    let (token, _) = told.arm_interval.unwrap();
    storage.subscribe(&user(0), 4);
    let stale_timer = storage.interval_fired(&user(0), token + 1);
    assert!(!stale_timer.run);
    assert!(storage.peek(&user(0)).is_pending());
    let fired = storage.interval_fired(&user(0), token);
    assert!(fired.run);
    assert_eq!(fired.notify, vec![4]);
    assert!(storage.peek(&user(0)).is_loading());
}

#[test]
fn clean_up_is_deferred() {
    let mut storage: QueriesStorage<GetUser> = QueriesStorage::new();
    let query = user(0).clean_time(Span::from_secs(5));
    storage.insert_or_get_query(user(0).clean_time(Span::from_secs(5)), 1);
    storage.subscribe(&query, 1);
    storage.run_queries(&query);
    storage.settle(&query, Ok("Marc".to_string()), Moment::at(1));

    let left = UseQuery::new(user(0).clean_time(Span::from_secs(5)), 1).dispose(&mut storage);
    let (timer, delay) = left.arm_clean.unwrap();
    assert_eq!(delay, Span::from_secs(5));
    assert!(storage.contains(&query));
    assert!(storage.peek(&query).is_ok());

    // A subscriber arrives within the delay: the timer is called off.
    let cancel = storage.subscribe(&query, 2);
    assert_eq!(cancel, Some(timer));
    assert!(storage.clean_up(&query, timer).is_none());
    assert!(storage.contains(&query));
    assert_eq!(storage.peek(&query).unwrap(), &Ok("Marc".to_string()));

    // It leaves too, and nobody arrives: the entry goes when the timer fires.
    let left = storage.unsubscribe(&query, 2);
    let (second_timer, _) = left.arm_clean.unwrap();
    assert!(storage.clean_up(&query, timer).is_none());
    let removed = storage.clean_up(&query, second_timer);
    assert!(removed.is_some());
    assert!(removed.unwrap().state().is_ok());
    assert!(!storage.contains(&query));
    assert_eq!(storage.len(), 0);
}

#[test]
fn leaving_twice_is_harmless() {
    let mut storage: QueriesStorage<GetUser> = QueriesStorage::new();
    let gone = storage.unsubscribe(&user(0), 1);
    assert_eq!(gone.arm_clean, None);
    assert_eq!(gone.cancel_clean, None);
    assert_eq!(gone.cancel_interval, None);
    assert_eq!(gone.arm_interval, None);
    storage.insert_or_get_query(user(0), 1);
    storage.subscribe(&user(0), 1);
    storage.subscribe(&user(0), 2);
    let first = storage.unsubscribe(&user(0), 1);
    assert_eq!(first.arm_clean, None);
    let again = storage.unsubscribe(&user(0), 1);
    assert_eq!(again.arm_clean, None);
    assert_eq!(storage.entry(&user(0)).unwrap().subscribers(), vec![2]);
    let settled = storage.settle(&user(9), Ok("x".to_string()), Moment::at(0));
    assert!(settled.notify.is_empty());
}

#[test]
fn registration_calls_off_the_clean_up() {
    let mut storage: QueriesStorage<GetUser> = QueriesStorage::new();
    storage.insert_or_get_query(user(0), 1);
    let gone = storage.update_tasks(&user(0), 1);
    let (timer, delay) = gone.arm_clean.unwrap();
    assert_eq!(delay, Span::from_secs(300));
    assert_eq!(storage.entry(&user(0)).unwrap().clean_task(), Some(timer));
    let back = storage.insert_or_get_query(user(0), 1);
    assert_eq!(back.cancel_clean, Some(timer));
    assert!(!back.created);
    assert!(storage.clean_up(&user(0), timer).is_none());
    assert!(storage.contains(&user(0)));
}

#[test]
fn one_off_read() {
    let mut storage: QueriesStorage<GetUser> = QueriesStorage::new();
    let get = GetQuery::new(0, GetUser { client: Captured("primary") });
    let query = Query::from(GetQuery::new(0, GetUser { client: Captured("primary") }));
    let plan = storage.get(get, Moment::at(5));
    assert!(plan.run);
    assert!(plan.notify.is_empty());
    assert!(storage.peek(&query).is_loading());
    storage.settle(&query, Ok("Marc".to_string()), Moment::at(6));
    let parked = storage.park(&query);
    assert_eq!(parked.arm_clean, Some((0, Span::zero())));
    assert_eq!(parked.cancel_interval, None);
    assert!(storage.clean_up(&query, 0).is_some());
    assert_eq!(storage.len(), 0);
}

#[test]
fn suspense_waits_for_the_first_result() {
    let mut storage: QueriesStorage<GetUser> = QueriesStorage::new();
    storage.insert_or_get_query(user(0), 1);
    let first = UseQuery::new(user(0), 1);
    let second = UseQuery::new(user(0), 2);
    let (answer, _) = first.suspend(&mut storage);
    let waiter = match answer {
        Suspension::Suspended { waiter, armed } => {
            assert!(armed);
            waiter
        }
        Suspension::Ready => panic!("nothing to read yet"),
    };
    storage.run_queries(&user(0));
    let (answer, _) = second.suspend(&mut storage);
    match answer {
        Suspension::Suspended { waiter: same, armed } => {
            assert!(!armed);
            assert_eq!(same, waiter);
        }
        Suspension::Ready => panic!("nothing to read yet"),
    }
    let done = storage.settle(&user(0), Ok("Marc".to_string()), Moment::at(1));
    assert_eq!(done.wake, Some(waiter));
    assert_eq!(done.notify, vec![1, 2]);
    assert_eq!(storage.entry(&user(0)).unwrap().suspense_task(), None);
    let (answer, _) = first.suspend(&mut storage);
    assert!(matches!(answer, Suspension::Ready));
    // Loading with a previous result does not suspend either.
    storage.run_queries(&user(0));
    let (answer, _) = first.suspend(&mut storage);
    assert!(matches!(answer, Suspension::Ready));
    assert_eq!(storage.settle(&user(0), Err(()), Moment::at(2)).wake, None);
}

#[test]
fn batch_invalidation_loads_before_it_runs() {
    let mut storage: QueriesStorage<GetAge> = QueriesStorage::new();
    storage.insert_or_get_query(Query::new(1, GetAge), 11);
    storage.insert_or_get_query(Query::new(2, GetAge), 22);
    storage.subscribe(&Query::new(1, GetAge), 11);
    storage.subscribe(&Query::new(2, GetAge), 22);
    storage.settle(&Query::new(1, GetAge), Ok(31), Moment::at(1));
    storage.settle(&Query::new(2, GetAge), Ok(32), Moment::at(1));

    let orders = storage.invalidate_all();
    assert_eq!(orders.len(), 2);
    assert_eq!(orders[0].slot, 0);
    assert_eq!(orders[0].notify, vec![11]);
    assert_eq!(orders[1].slot, 1);
    assert_eq!(orders[1].notify, vec![22]);
    assert_eq!(storage.query_at(1).keys, 2);
    assert!(storage.peek(&Query::new(1, GetAge)).is_loading());
    assert!(storage.peek(&Query::new(2, GetAge)).is_loading());
    assert_eq!(storage.peek(&Query::new(2, GetAge)).ok(), Some(&32));

    storage.settle(&Query::new(1, GetAge), Ok(41), Moment::at(2));
    storage.settle(&Query::new(2, GetAge), Err("down".to_string()), Moment::at(2));
    let only_second = storage.invalidate_selected(&vec![false, true]);
    assert_eq!(only_second.len(), 1);
    assert_eq!(only_second[0].slot, 1);
    assert!(storage.peek(&Query::new(1, GetAge)).is_ok());
    match storage.peek(&Query::new(2, GetAge)) {
        QueryStateData::Loading { res } => assert_eq!(res, &Some(Err("down".to_string()))),
        _ => panic!("not loading"),
    }
}

#[test]
fn matching_is_up_to_the_capability() {
    let mut storage: QueriesStorage<GetAge> = QueriesStorage::new();
    storage.insert_or_get_query(Query::new(1, GetAge), 5);
    storage.subscribe(&Query::new(1, GetAge), 5);
    // GetAge matches even keys only.
    assert!(storage.invalidate_matching(&3).is_empty());
    assert!(storage.peek(&Query::new(1, GetAge)).is_pending());
    let orders = storage.invalidate_matching(&4);
    assert_eq!(orders.len(), 1);
    assert_eq!(orders[0].notify, vec![5]);
    assert!(storage.peek(&Query::new(1, GetAge)).is_loading());

    // GetUser keeps the default: every key matches.
    let mut users: QueriesStorage<GetUser> = QueriesStorage::new();
    users.insert_or_get_query(user(0), 1);
    assert_eq!(users.invalidate_matching(&99).len(), 1);
}

#[test]
fn changing_the_query_lets_go_of_the_previous_one() {
    let mut storage: QueriesStorage<GetUser> = QueriesStorage::new();
    use_query(&mut storage, None, user(0).interval_time(Span::from_secs(1)), 1, Moment::at(0));
    let previous = user(0);
    let mount = use_query(&mut storage, Some(&previous), user(1), 1, Moment::at(1));
    assert!(mount.registration.created);
    assert_eq!(mount.teardown.cancel_interval, Some(0));
    assert_eq!(mount.teardown.arm_interval, None);
    assert_eq!(mount.teardown.arm_clean, Some((1, Span::from_secs(300))));
    assert!(mount.run_due);
    assert!(storage.peek(&user(1)).is_pending());
    assert_eq!(storage.len(), 2);
}

#[test]
fn staleness_by_the_clock() {
    let clock = Clock::start();
    let pending: QueryStateData<GetUser> = QueryStateData::Pending;
    assert!(pending.is_stale(&user(0), &clock));
    let loading: QueryStateData<GetUser> = QueryStateData::Loading { res: None };
    assert!(loading.is_stale(&user(0), &clock));
    let settled: QueryStateData<GetUser> =
        QueryStateData::Settled { res: Ok("Marc".to_string()), settlement_instant: clock.now() };
    assert!(settled.is_stale(&user(0), &clock));
    assert!(!settled.is_stale(&user(0).stale_time(Span::from_secs(3600)), &clock));
    assert!(settled.is_stale_at(&user(0).stale_time(Span::from_nanos(5)), Moment::at(u128::MAX)));
    let early: QueryStateData<GetUser> =
        QueryStateData::Settled { res: Ok("Marc".to_string()), settlement_instant: Moment::at(10) };
    assert!(!early.is_stale_at(&user(0).stale_time(Span::from_nanos(5)), Moment::at(14)));
    assert!(early.is_stale_at(&user(0).stale_time(Span::from_nanos(5)), Moment::at(15)));
    assert!(!early.is_stale_at(&user(0).stale_time(Span::from_nanos(5)), Moment::at(3)));
}

#[test]
fn state_into_result() {
    let settled: QueryStateData<GetUser> =
        QueryStateData::Settled { res: Err(()), settlement_instant: Moment::at(0) };
    assert_eq!(Result::<String, ()>::try_from(settled), Ok(Err(())));
    let loading: QueryStateData<GetUser> = QueryStateData::Loading { res: Some(Ok("a".to_string())) };
    assert_eq!(Result::<String, ()>::try_from(loading), Ok(Ok("a".to_string())));
    let pending: QueryStateData<GetUser> = QueryStateData::Pending;
    assert_eq!(Result::<String, ()>::try_from(pending), Err(()));
    let first: QueryStateData<GetUser> = QueryStateData::Loading { res: None };
    assert_eq!(Result::<String, ()>::try_from(first), Err(()));
    let back: QueryStateData<GetUser> = QueryStateData::Pending;
    assert!(matches!(back.into_loading(), QueryStateData::Loading { res: None }));
}
