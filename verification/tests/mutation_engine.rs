use dioxus_query::mutation::{
    use_mutation, Mutation, MutationCapability, MutationStateData, MutationsStorage, UseMutation,
};
use dioxus_query::query::{QueriesStorage, Query, QueryCapability, QueryStateData};
use dioxus_query::time::{Moment, Span};

#[derive(Clone, PartialEq, Eq, Hash)]
struct GetAge;

impl QueryCapability for GetAge {
    type Ok = u32;
    type Err = ();
    type Keys = usize;
    type Run<'a> = std::future::Ready<Result<u32, ()>>;

    fn run<'a>(&'a self, _keys: &'a usize) -> Self::Run<'a> {
        std::future::ready(Ok(30))
    }
}

#[derive(Clone, PartialEq, Eq, Hash)]
struct SetAge;

impl MutationCapability for SetAge {
    type Ok = u32;
    type Err = ();
    type Keys = (usize, u32);
    type Run<'a> = std::future::Ready<Result<u32, ()>>;
    type Settle<'a> = std::future::Ready<()>;

    fn run<'a>(&'a self, keys: &'a (usize, u32)) -> Self::Run<'a> {
        std::future::ready(Ok(keys.1))
    }

    fn on_settled<'a>(
        &'a self,
        _keys: &'a (usize, u32),
        _result: &'a Result<u32, ()>,
    ) -> Self::Settle<'a> {
        std::future::ready(())
    }
}

fn settled_at(state: &QueryStateData<GetAge>) -> Moment {
    match state {
        QueryStateData::Settled { settlement_instant, .. } => *settlement_instant,
        _ => panic!("not settled"),
    }
}

#[test]
fn mutation_defaults() {
    let mutation = Mutation::new(SetAge);
    assert_eq!(mutation.clean_time, Span::zero());
    let mutation = mutation.clean_time(Span::from_secs(3));
    assert_eq!(mutation.clean_time.as_nanos(), 3_000_000_000);
    assert!(SetAge.matches(&(0, 0)));
}

#[test]
fn mutation_runs_only_when_asked() {
    let mut storage: MutationsStorage<SetAge> = MutationsStorage::new();
    let (cancel, teardown) = use_mutation(&mut storage, None, Mutation::new(SetAge));
    assert_eq!(cancel, None);
    assert_eq!(teardown.arm_clean, None);
    let handle = UseMutation::new(Mutation::new(SetAge), 1);
    let (seen, _) = handle.read(&mut storage);
    assert!(seen.state().is_pending());

    let (runs, notify) = handle.mutate(&mut storage);
    assert!(runs);
    assert_eq!(notify, vec![1]);
    assert!(handle.peek(&storage).state().is_loading());
    assert!(handle.peek(&storage).state().ok().is_none());

    // A second call starts a run of its own.
    let (again, _) = handle.mutate(&mut storage);
    assert!(again);

    // The outcome is stored first; the wake-ups come when the hook is
    // through.
    let due = storage.settle(&Mutation::new(SetAge), Ok(41), Moment::at(7));
    assert!(due.was_stored());
    assert!(handle.peek(&storage).state().is_ok());
    assert_eq!(handle.peek(&storage).state().unwrap(), &Ok(41));
    assert_eq!(storage.notify_settled(due, &Mutation::new(SetAge)), vec![1]);
    let due = storage.settle(&Mutation::new(SetAge), Err(()), Moment::at(8));
    assert_eq!(storage.notify_settled(due, &Mutation::new(SetAge)), vec![1]);
    assert!(handle.peek(&storage).state().is_err());
    let (_, _) = handle.mutate(&mut storage);
    match storage.peek(&Mutation::new(SetAge)) {
        MutationStateData::Loading { res } => assert_eq!(res, &Some(Err(()))),
        _ => panic!("not loading"),
    }
}

#[test]
fn mutation_is_cleaned_up_when_nobody_is_left() {
    let mut storage: MutationsStorage<SetAge> = MutationsStorage::new();
    storage.insert_or_get_mutation(Mutation::new(SetAge));
    storage.subscribe(&Mutation::new(SetAge), 1);
    storage.subscribe(&Mutation::new(SetAge), 2);
    assert_eq!(storage.entry(&Mutation::new(SetAge)).unwrap().subscribers(), vec![1, 2]);
    let first = UseMutation::new(Mutation::new(SetAge), 1).dispose(&mut storage);
    assert_eq!(first.arm_clean, None);
    let last = UseMutation::new(Mutation::new(SetAge), 2).dispose(&mut storage);
    assert_eq!(last.arm_clean, Some((0, Span::zero())));
    assert!(storage.contains(&Mutation::new(SetAge)));
    assert_eq!(storage.insert_or_get_mutation(Mutation::new(SetAge)), Some(0));
    assert!(storage.clean_up(&Mutation::new(SetAge), 0).is_none());
    let again = storage.update_tasks(&Mutation::new(SetAge));
    assert_eq!(again.arm_clean, Some((1, Span::zero())));
    assert!(storage.clean_up(&Mutation::new(SetAge), 1).is_some());
    assert_eq!(storage.len(), 0);
    assert_eq!(storage.update_tasks(&Mutation::new(SetAge)).arm_clean, None);
    assert!(!storage.run(&Mutation::new(SetAge)).0);
    let due = storage.settle(&Mutation::new(SetAge), Ok(1), Moment::at(0));
    assert!(!due.was_stored());
    assert!(storage.notify_settled(due, &Mutation::new(SetAge)).is_empty());
}

#[test]
fn clean_time_tells_mutations_apart() {
    let mut storage: MutationsStorage<SetAge> = MutationsStorage::new();
    storage.insert_or_get_mutation(Mutation::new(SetAge));
    storage.insert_or_get_mutation(Mutation::new(SetAge));
    assert_eq!(storage.len(), 1);
    storage.insert_or_get_mutation(Mutation::new(SetAge).clean_time(Span::from_secs(1)));
    assert_eq!(storage.len(), 2);
}

#[test]
fn set_age_invalidates_get_age() {
    let id: usize = 4;
    let mut queries: QueriesStorage<GetAge> = QueriesStorage::new();
    queries.insert_or_get_query(Query::new(id, GetAge), 10);
    queries.subscribe(&Query::new(id, GetAge), 10);
    assert!(queries.maybe_run(&Query::new(id, GetAge), Moment::at(1)).run);
    queries.settle(&Query::new(id, GetAge), Ok(30), Moment::at(2));
    let before = settled_at(queries.peek(&Query::new(id, GetAge)));

    let mut mutations: MutationsStorage<SetAge> = MutationsStorage::new();
    mutations.insert_or_get_mutation(Mutation::new(SetAge));
    mutations.subscribe(&Mutation::new(SetAge), 20);
    let (runs, notify) = mutations.run(&Mutation::new(SetAge));
    assert!(runs);
    assert_eq!(notify, vec![20]);
    // The outcome is stored; nobody is woken yet.
    let due = mutations.settle(&Mutation::new(SetAge), Ok(31), Moment::at(4));
    assert!(mutations.peek(&Mutation::new(SetAge)).is_ok());

    // What `on_settled` does: it invalidates the query for the same id and
    // waits for its run.
    let orders = queries.invalidate_matching(&id);
    assert_eq!(orders.len(), 1);
    assert_eq!(orders[0].notify, vec![10]);
    assert!(queries.peek(&Query::new(id, GetAge)).is_loading());
    let done = queries.settle(&Query::new(id, GetAge), Ok(31), Moment::at(5));
    assert_eq!(done.notify, vec![10]);

    // The hook is through: now the subscribers of the mutation are woken.
    assert_eq!(mutations.notify_settled(due, &Mutation::new(SetAge)), vec![20]);
    let after = settled_at(queries.peek(&Query::new(id, GetAge)));
    assert!(after.nanos > before.nanos);
    assert_eq!(queries.peek(&Query::new(id, GetAge)).unwrap(), &Ok(31));
    assert_eq!(mutations.peek(&Mutation::new(SetAge)).unwrap(), &Ok(31));
}
