//! Mutations: asynchronous work that changes something and runs only when
//! it is asked to.
//!
//! A mutation keeps its last outcome as a query does, and is cleaned up when
//! nobody subscribes to it any more. It never runs on its own: not when a
//! consumer arrives and not on a timer. Every call to run it starts a run of
//! its own.
use vstd::prelude::*;
use vstd::std_specs::cmp::PartialEqSpec;
use crate::lookup::{
    first_where, lemma_first_where, lemma_same_keys_same_place, next_token, token_after,
};
use crate::query::{SubscriberId, TaskId, Teardown};
use crate::subscribers::{add_id, copy_ids, drop_id, with_id, without_id};
use crate::time::{Moment, Span};

verus! {

/// A unit of asynchronous work that changes something.
pub trait MutationCapability: 'static + Clone + PartialEq + std::hash::Hash + Eq {
    /// What a successful run returns.
    type Ok;

    /// What a failed run returns. A failure is an outcome like any other: it
    /// is cached and shown.
    type Err;

    /// What the work is run against.
    type Keys: std::hash::Hash + PartialEq + Clone;

    /// The work in flight.
    type Run<'a>: std::future::Future<Output = Result<Self::Ok, Self::Err>> where Self: 'a;

    /// What [`MutationCapability::on_settled`] has in flight.
    type Settle<'a>: std::future::Future<Output = ()> where Self: 'a;

    /// Mutation logic.
    fn run<'a>(&'a self, keys: &'a Self::Keys) -> Self::Run<'a>;

    /// Custom logic to decide whether this mutation is concerned by the given
    /// keys. Unless an implementation says otherwise, every key matches.
    fn matches(&self, keys: &Self::Keys) -> (hit: bool)
        default_ensures
            hit,
    {
        true
    }

    /// Runs when the outcome of [`MutationCapability::run`] has been stored
    /// and before the subscribers are woken. This is the place to invalidate
    /// queries.
    fn on_settled<'a>(
        &'a self,
        keys: &'a Self::Keys,
        result: &'a Result<Self::Ok, Self::Err>,
    ) -> Self::Settle<'a>;
}

/// What is known of a mutation's outcome.
#[allow(inconsistent_fields)]
pub enum MutationStateData<Q: MutationCapability> {
    /// Has not loaded yet.
    Pending,
    /// Is loading and may not have a previous settled value.
    Loading { res: Option<Result<Q::Ok, Q::Err>> },
    /// Is not loading and has a settled value.
    Settled { res: Result<Q::Ok, Q::Err>, settlement_instant: Moment },
}

impl<Q: MutationCapability> MutationStateData<Q> {
    /// The result this state carries, settled or kept while loading.
    pub open spec fn result(self) -> Option<Result<Q::Ok, Q::Err>> {
        match self {
            MutationStateData::Pending => None,
            MutationStateData::Loading { res } => res,
            MutationStateData::Settled { res, .. } => Some(res),
        }
    }

    /// The state while a run is in flight: `Loading`, with the result carried
    /// so far.
    pub open spec fn loading(self) -> MutationStateData<Q> {
        MutationStateData::Loading { res: self.result() }
    }

    /// Check if the state is `Settled` and `Ok`.
    pub fn is_ok(&self) -> (ok: bool)
        ensures
            ok == (self matches MutationStateData::Settled { res: Ok(_), .. }),
    {
        matches!(self, MutationStateData::Settled { res: Ok(_), .. })
    }

    /// Check if the state is `Settled` and `Err`.
    pub fn is_err(&self) -> (err: bool)
        ensures
            err == (self matches MutationStateData::Settled { res: Err(_), .. }),
    {
        matches!(self, MutationStateData::Settled { res: Err(_), .. })
    }

    /// Check if the state is `Loading`.
    pub fn is_loading(&self) -> (loading: bool)
        ensures
            loading == (self is Loading),
    {
        matches!(self, MutationStateData::Loading { .. })
    }

    /// Check if the state is `Pending`.
    pub fn is_pending(&self) -> (pending: bool)
        ensures
            pending == (self is Pending),
    {
        matches!(self, MutationStateData::Pending)
    }

    /// Get the value as an `Option`.
    pub fn ok(&self) -> (value: Option<&Q::Ok>)
        ensures
            match self.result() {
                Some(Ok(v)) => value == Some(&v),
                _ => value is None,
            },
    {
        match self {
            MutationStateData::Settled { res: Ok(res), .. } => Some(res),
            MutationStateData::Loading { res: Some(Ok(res)) } => Some(res),
            _ => None,
        }
    }

    /// Get the result. There must be one: the state is settled, or loading
    /// with a previous result.
    pub fn unwrap(&self) -> (res: &Result<Q::Ok, Q::Err>)
        requires
            self.result() is Some,
        ensures
            Some(*res) == self.result(),
    {
        match self {
            MutationStateData::Loading { res: Some(v) } => v,
            MutationStateData::Settled { res, .. } => res,
            _ => vstd::pervasive::unreached(),
        }
    }

    /// Moves to `Loading`, carrying the result along.
    pub fn into_loading(self) -> (next: MutationStateData<Q>)
        ensures
            next == self.loading(),
    {
        match self {
            MutationStateData::Pending => MutationStateData::Loading { res: None },
            MutationStateData::Loading { res } => MutationStateData::Loading { res },
            MutationStateData::Settled { res, .. } => MutationStateData::Loading { res: Some(res) },
        }
    }
}

/// A capability and the policy of its cache entry.
pub struct Mutation<Q: MutationCapability> {
    pub mutation: Q,
    pub clean_time: Span,
}

impl<Q: MutationCapability> Mutation<Q> {
    /// Whether two mutations share one cache entry: equal capability and the
    /// same clean time.
    pub open spec fn same_entry(&self, other: &Self) -> bool {
        self.mutation.eq_spec(&other.mutation) && self.clean_time == other.clean_time
    }

    pub fn new(mutation: Q) -> (made: Self)
        ensures
            made == (Mutation { mutation, clean_time: Span { nanos: 0 } }),
    {
        Mutation { mutation, clean_time: Span::zero() }
    }

    /// For how long the outcome is kept after the last subscriber has gone.
    /// Defaults to zero: it is cleared at once.
    pub fn clean_time(self, clean_time: Span) -> (made: Self)
        ensures
            made == (Mutation { clean_time, ..self }),
    {
        Mutation { clean_time, ..self }
    }
}

/// Whether capabilities can be told apart by `==`: the comparison that runs
/// is the one that the contracts of this module speak of, and every
/// capability equals itself.
pub open spec fn comparable<Q: MutationCapability>() -> bool {
    &&& Q::obeys_eq_spec()
    &&& forall|capability: Q| #[trigger] capability.eq_spec(&capability)
}

impl<Q: MutationCapability> PartialEq for Mutation<Q> {
    fn eq(&self, other: &Self) -> (same: bool) {
        self.mutation == other.mutation && self.clean_time == other.clean_time
    }
}

impl<Q: MutationCapability> vstd::std_specs::cmp::PartialEqSpecImpl for Mutation<Q> {
    open spec fn obeys_eq_spec() -> bool {
        comparable::<Q>()
    }

    open spec fn eq_spec(&self, other: &Self) -> bool {
        self.same_entry(other)
    }
}

impl<Q: MutationCapability> Eq for Mutation<Q> {

}

impl<Q: MutationCapability> Clone for Mutation<Q> {
    /// A mutation with a clone of the capability and the same clean time.
    fn clone(&self) -> (copy: Self)
        ensures
            cloned(self.mutation, copy.mutation),
            copy.clean_time == self.clean_time,
    {
        Mutation { mutation: self.mutation.clone(), clean_time: self.clean_time }
    }
}

/// One entry of the mutation cache as a mathematical value: what
/// [`MutationData`] holds.
pub struct MutationEntry<Q: MutationCapability> {
    pub state: MutationStateData<Q>,
    pub subscribers: Seq<SubscriberId>,
    pub clean_task: Option<TaskId>,
}

impl<Q: MutationCapability> MutationEntry<Q> {
    /// The entry of a mutation that nobody has touched.
    pub open spec fn fresh() -> Self {
        MutationEntry { state: MutationStateData::Pending, subscribers: Seq::empty(), clean_task: None }
    }

    /// No subscriber is listed twice, and a clean-up is pending only while
    /// nobody subscribes.
    pub open spec fn wf(self) -> bool {
        &&& self.subscribers.no_duplicates()
        &&& self.clean_task is Some ==> self.subscribers.len() == 0
    }

    /// With no clean-up pending.
    pub open spec fn registered(self) -> Self {
        MutationEntry { clean_task: None, ..self }
    }

    /// With `id` among the subscribers and no clean-up pending.
    pub open spec fn subscribed(self, id: SubscriberId) -> Self {
        MutationEntry { subscribers: with_id(self.subscribers, id), clean_task: None, ..self }
    }

    /// Without `id` among the subscribers.
    pub open spec fn unsubscribed(self, id: SubscriberId) -> Self {
        MutationEntry { subscribers: without_id(self.subscribers, id), ..self }
    }

    /// With a run in flight.
    pub open spec fn begun(self) -> Self {
        MutationEntry { state: self.state.loading(), ..self }
    }

    /// Settled with `res` at `now`.
    pub open spec fn settled(self, res: Result<Q::Ok, Q::Err>, now: Moment) -> Self {
        MutationEntry { state: MutationStateData::Settled { res, settlement_instant: now }, ..self }
    }

    /// With the clean-up timer `token` if nobody subscribes.
    pub open spec fn torn_down(self, token: TaskId) -> Self {
        MutationEntry {
            clean_task: if self.subscribers.len() == 0 {
                Some(token)
            } else {
                self.clean_task
            },
            ..self
        }
    }
}

/// The state, subscribers and clean-up timer of one mutation.
pub struct MutationData<Q: MutationCapability> {
    state: MutationStateData<Q>,
    reactive_contexts: Vec<SubscriberId>,
    clean_task: Option<TaskId>,
}

impl<Q: MutationCapability> View for MutationData<Q> {
    type V = MutationEntry<Q>;

    closed spec fn view(&self) -> MutationEntry<Q> {
        MutationEntry {
            state: self.state,
            subscribers: self.reactive_contexts@,
            clean_task: self.clean_task,
        }
    }
}

impl<Q: MutationCapability> MutationData<Q> {
    /// A pending entry that nobody subscribes to.
    pub fn new() -> (data: Self)
        ensures
            data@ == MutationEntry::<Q>::fresh(),
            data@.wf(),
    {
        MutationData { state: MutationStateData::Pending, reactive_contexts: Vec::new(), clean_task: None }
    }

    /// The current state.
    pub fn state(&self) -> (state: &MutationStateData<Q>)
        ensures
            *state == self@.state,
    {
        &self.state
    }

    /// The subscribers, in the order in which they subscribed.
    pub fn subscribers(&self) -> (ids: Vec<SubscriberId>)
        ensures
            ids@ == self@.subscribers,
    {
        copy_ids(&self.reactive_contexts)
    }

    /// The pending clean-up timer.
    pub fn clean_task(&self) -> (task: Option<TaskId>)
        ensures
            task == self@.clean_task,
    {
        self.clean_task
    }
}

/// The mutation cache as a mathematical value: what [`MutationsStorage`]
/// holds, in the order in which the mutations were first registered.
pub struct MutationCache<Q: MutationCapability> {
    pub slots: Seq<(Mutation<Q>, MutationEntry<Q>)>,
    pub next_task: TaskId,
}

/// What tells the mutations apart that share an entry with `m`.
pub open spec fn sharing<Q: MutationCapability>(m: Mutation<Q>) -> spec_fn(Mutation<Q>) -> bool {
    |held: Mutation<Q>| held.same_entry(&m)
}

impl<Q: MutationCapability> MutationCache<Q> {
    /// The cache without entries.
    pub open spec fn empty() -> Self {
        MutationCache { slots: Seq::empty(), next_task: 0 }
    }

    /// The slot of `m`: the first one whose mutation shares its entry with
    /// `m`.
    pub open spec fn position(self, m: Mutation<Q>) -> Option<int> {
        first_where(self.slots, sharing(m), 0)
    }

    /// Whether `m` has an entry.
    pub open spec fn contains(self, m: Mutation<Q>) -> bool {
        self.position(m) is Some
    }

    /// The entry of `m`.
    pub open spec fn entry(self, m: Mutation<Q>) -> MutationEntry<Q>
        recommends
            self.contains(m),
    {
        self.slots[self.position(m).unwrap()].1
    }

    /// The subscribers of `m`; none where `m` has no entry.
    pub open spec fn subscribers(self, m: Mutation<Q>) -> Seq<SubscriberId> {
        match self.position(m) {
            Some(i) => self.slots[i].1.subscribers,
            None => Seq::empty(),
        }
    }

    /// Capabilities can be compared, every entry is well formed, and no two
    /// slots share an entry.
    pub open spec fn wf(self) -> bool {
        &&& comparable::<Q>()
        &&& forall|i: int| 0 <= i < self.slots.len() ==> (#[trigger] self.slots[i]).1.wf()
        &&& forall|i: int, j: int|
            0 <= i < j < self.slots.len() ==> !(#[trigger] self.slots[i]).0.same_entry(
                &(#[trigger] self.slots[j]).0,
            )
    }

    /// The cache with `entry` in slot `i`.
    pub open spec fn amended(self, i: int, entry: MutationEntry<Q>) -> Self {
        MutationCache { slots: self.slots.update(i, (self.slots[i].0, entry)), ..self }
    }

    /// The cache with what `change` makes of the entry of `m`; unchanged
    /// where `m` has no entry.
    pub open spec fn with_entry(
        self,
        m: Mutation<Q>,
        change: spec_fn(MutationEntry<Q>) -> MutationEntry<Q>,
    ) -> Self {
        match self.position(m) {
            Some(i) => self.amended(i, change(self.slots[i].1)),
            None => self,
        }
    }

    /// The cache after `m` was registered: its entry exists and no clean-up
    /// is pending on it.
    pub open spec fn registered(self, m: Mutation<Q>) -> Self {
        match self.position(m) {
            Some(i) => self.amended(i, self.slots[i].1.registered()),
            None => MutationCache { slots: self.slots.push((m, MutationEntry::fresh())), ..self },
        }
    }

    /// The clean-up timer that a registration of `m` calls off.
    pub open spec fn pending_clean(self, m: Mutation<Q>) -> Option<TaskId> {
        match self.position(m) {
            Some(i) => self.slots[i].1.clean_task,
            None => None,
        }
    }

    /// The cache after `id` subscribed to `m`.
    pub open spec fn subscribed(self, m: Mutation<Q>, id: SubscriberId) -> Self {
        self.with_entry(m, |e: MutationEntry<Q>| e.subscribed(id))
    }

    /// The cache with `id` taken from the subscribers of `m`.
    pub open spec fn without_subscriber(self, m: Mutation<Q>, id: SubscriberId) -> Self {
        self.with_entry(m, |e: MutationEntry<Q>| e.unsubscribed(id))
    }

    /// Whether nobody subscribes to `m`, which has an entry.
    pub open spec fn idle(self, m: Mutation<Q>) -> bool {
        self.contains(m) && self.entry(m).subscribers.len() == 0
    }

    /// The cache after a consumer of `m` let go of it: the clean-up timer is
    /// armed if nobody subscribes.
    pub open spec fn torn_down(self, m: Mutation<Q>) -> Self {
        let armed = self.with_entry(m, |e: MutationEntry<Q>| e.torn_down(self.next_task));
        if self.idle(m) {
            MutationCache { next_task: token_after(self.next_task), ..armed }
        } else {
            armed
        }
    }

    /// What the host is told when a consumer of `m` lets go of it.
    pub open spec fn teardown(self, m: Mutation<Q>) -> Teardown {
        if self.idle(m) {
            Teardown {
                cancel_interval: None,
                arm_interval: None,
                cancel_clean: self.entry(m).clean_task,
                arm_clean: Some((self.next_task, m.clean_time)),
            }
        } else {
            Teardown { cancel_interval: None, arm_interval: None, cancel_clean: None, arm_clean: None }
        }
    }

    /// The cache after `id` unsubscribed from `m`.
    pub open spec fn unsubscribed(self, m: Mutation<Q>, id: SubscriberId) -> Self {
        self.without_subscriber(m, id).torn_down(m)
    }

    /// Whether the clean-up timer `token` of `m` may remove the entry.
    pub open spec fn clean_up_due(self, m: Mutation<Q>, token: TaskId) -> bool {
        self.idle(m) && self.entry(m).clean_task == Some(token)
    }

    /// The cache after the clean-up timer `token` of `m` fired.
    pub open spec fn cleaned_up(self, m: Mutation<Q>, token: TaskId) -> Self {
        if self.clean_up_due(m, token) {
            MutationCache { slots: self.slots.remove(self.position(m).unwrap()), ..self }
        } else {
            self
        }
    }

    /// The cache with a run of `m` in flight.
    pub open spec fn begun(self, m: Mutation<Q>) -> Self {
        self.with_entry(m, |e: MutationEntry<Q>| e.begun())
    }

    /// The cache after a run of `m` settled with `res` at `now`.
    pub open spec fn settled(self, m: Mutation<Q>, res: Result<Q::Ok, Q::Err>, now: Moment) -> Self {
        self.with_entry(m, |e: MutationEntry<Q>| e.settled(res, now))
    }

    /// A run shows loading before its outcome. The step that starts the run
    /// leaves the entry loading, with the outcome it had, and names every
    /// subscriber of the entry to be woken. The step that takes the outcome
    /// of the run settles the entry and names the same subscribers again.
    pub proof fn lemma_loading_before_settled(
        self,
        m: Mutation<Q>,
        res: Result<Q::Ok, Q::Err>,
        now: Moment,
    )
        requires
            self.contains(m),
        ensures
            self.begun(m).contains(m),
            self.begun(m).entry(m).state == (MutationStateData::<Q>::Loading {
                res: self.entry(m).state.result(),
            }),
            self.begun(m).subscribers(m) == self.subscribers(m),
            self.begun(m).settled(m, res, now).contains(m),
            self.begun(m).settled(m, res, now).entry(m).state == (MutationStateData::<Q>::Settled {
                res,
                settlement_instant: now,
            }),
            self.begun(m).settled(m, res, now).subscribers(m) == self.subscribers(m),
    {
        self.lemma_position(m);
        let i = self.position(m).unwrap();
        self.lemma_amended_keeps_positions(i, self.slots[i].1.begun(), m);
        let loading = self.begun(m);
        loading.lemma_amended_keeps_positions(i, loading.slots[i].1.settled(res, now), m);
    }

    /// The slot of `m` is the first one that shares its entry with `m`, and
    /// there is none exactly when no slot does.
    pub proof fn lemma_position(self, m: Mutation<Q>)
        ensures
            match self.position(m) {
                Some(i) => 0 <= i < self.slots.len() && self.slots[i].0.same_entry(&m)
                    && forall|j: int| 0 <= j < i ==> !(#[trigger] self.slots[j]).0.same_entry(&m),
                None => forall|j: int|
                    0 <= j < self.slots.len() ==> !(#[trigger] self.slots[j]).0.same_entry(&m),
            },
    {
        lemma_first_where(self.slots, sharing(m), 0);
    }

    /// Replacing an entry moves no mutation: every lookup finds what it
    /// found.
    pub proof fn lemma_amended_keeps_positions(self, i: int, entry: MutationEntry<Q>, m: Mutation<Q>)
        requires
            0 <= i < self.slots.len(),
        ensures
            self.amended(i, entry).position(m) == self.position(m),
    {
        lemma_same_keys_same_place(self.amended(i, entry).slots, self.slots, sharing(m));
    }
}

/// A mutation with the data kept for it.
struct Slot<Q: MutationCapability> {
    mutation: Mutation<Q>,
    data: MutationData<Q>,
}

/// The cache of one kind of mutation.
pub struct MutationsStorage<Q: MutationCapability> {
    slots: Vec<Slot<Q>>,
    next_task: TaskId,
}

impl<Q: MutationCapability> View for MutationsStorage<Q> {
    type V = MutationCache<Q>;

    closed spec fn view(&self) -> MutationCache<Q> {
        MutationCache {
            slots: Seq::new(
                self.slots@.len(),
                |i: int| (self.slots@[i].mutation, self.slots@[i].data@),
            ),
            next_task: self.next_task,
        }
    }
}

impl<Q: MutationCapability> MutationsStorage<Q> {
    /// An empty storage.
    pub fn new() -> (storage: Self)
        requires
            comparable::<Q>(),
        ensures
            storage@ == MutationCache::<Q>::empty(),
            storage@.wf(),
    {
        let storage = MutationsStorage { slots: Vec::new(), next_task: 0 };
        assert(storage@.slots =~= Seq::empty());
        storage
    }

    /// How many entries the storage holds.
    pub fn len(&self) -> (count: usize)
        ensures
            count == self@.slots.len(),
    {
        self.slots.len()
    }

    /// The slot of `mutation`, if it has an entry.
    fn find(&self, mutation: &Mutation<Q>) -> (found: Option<usize>)
        requires
            comparable::<Q>(),
        ensures
            match found {
                Some(i) => self@.position(*mutation) == Some(i as int) && i < self.slots.len(),
                None => self@.position(*mutation) is None,
            },
    {
        let mut i: usize = 0;
        while i < self.slots.len()
            invariant
                comparable::<Q>(),
                i <= self.slots.len(),
                self@.position(*mutation) == first_where(self@.slots, sharing(*mutation), i as int),
            decreases self.slots.len() - i,
        {
            if self.slots[i].mutation == *mutation {
                return Some(i);
            }
            i += 1;
        }
        None
    }

    /// Whether `mutation` has an entry.
    pub fn contains(&self, mutation: &Mutation<Q>) -> (found: bool)
        requires
            self@.wf(),
        ensures
            found == self@.contains(*mutation),
    {
        self.find(mutation).is_some()
    }

    /// The data kept for `mutation`, if it has an entry.
    pub fn entry(&self, mutation: &Mutation<Q>) -> (data: Option<&MutationData<Q>>)
        requires
            self@.wf(),
        ensures
            match data {
                Some(data) => self@.contains(*mutation) && data@ == self@.entry(*mutation),
                None => !self@.contains(*mutation),
            },
    {
        match self.find(mutation) {
            Some(i) => Some(&self.slots[i].data),
            None => None,
        }
    }

    /// The state of `mutation`, which must have an entry. Nobody subscribes.
    pub fn peek(&self, mutation: &Mutation<Q>) -> (state: &MutationStateData<Q>)
        requires
            self@.wf(),
            self@.contains(*mutation),
        ensures
            *state == self@.entry(*mutation).state,
    {
        match self.find(mutation) {
            Some(i) => &self.slots[i].data.state,
            None => vstd::pervasive::unreached(),
        }
    }

    /// Registers `mutation`: creates its entry if there is none. Returns the
    /// pending clean-up timer, which the host stops.
    pub fn insert_or_get_mutation(&mut self, mutation: Mutation<Q>) -> (cancel_clean: Option<TaskId>)
        requires
            old(self)@.wf(),
        ensures
            final(self)@ == old(self)@.registered(mutation),
            cancel_clean == old(self)@.pending_clean(mutation),
            final(self)@.wf(),
            final(self)@.contains(mutation),
    {
        let ghost before = self@;
        proof {
            before.lemma_position(mutation);
        }
        match self.find(&mutation) {
            Some(i) => {
                let cancel = self.slots[i].data.clean_task.take();
                proof {
                    assert(self@.slots =~= before.registered(mutation).slots);
                    before.lemma_amended_keeps_positions(
                        i as int,
                        before.slots[i as int].1.registered(),
                        mutation,
                    );
                }
                cancel
            },
            None => {
                self.slots.push(Slot { mutation, data: MutationData::new() });
                proof {
                    assert(self@.slots =~= before.registered(mutation).slots);
                    self@.lemma_position(mutation);
                    assert(self@.slots[before.slots.len() as int].0.same_entry(&mutation));
                }
                None
            },
        }
    }

    /// Adds `id` to the subscribers of `mutation`, which must have an entry.
    /// Returns the clean-up timer to stop.
    pub fn subscribe(&mut self, mutation: &Mutation<Q>, id: SubscriberId) -> (cancel_clean: Option<
        TaskId,
    >)
        requires
            old(self)@.wf(),
            old(self)@.contains(*mutation),
        ensures
            final(self)@ == old(self)@.subscribed(*mutation, id),
            cancel_clean == old(self)@.entry(*mutation).clean_task,
            final(self)@.wf(),
            final(self)@.contains(*mutation),
            final(self)@.position(*mutation) == old(self)@.position(*mutation),
    {
        let ghost before = self@;
        match self.find(mutation) {
            Some(i) => {
                add_id(&mut self.slots[i].data.reactive_contexts, id);
                let cancel = self.slots[i].data.clean_task.take();
                proof {
                    assert(self@.slots =~= before.subscribed(*mutation, id).slots);
                    before.lemma_amended_keeps_positions(
                        i as int,
                        before.slots[i as int].1.subscribed(id),
                        *mutation,
                    );
                }
                cancel
            },
            None => vstd::pervasive::unreached(),
        }
    }

    /// Reads the state of `mutation`, which must have an entry, and
    /// subscribes `id` to it. Returns the state and the clean-up timer to
    /// stop.
    pub fn read(&mut self, mutation: &Mutation<Q>, id: SubscriberId) -> (seen: (
        &MutationStateData<Q>,
        Option<TaskId>,
    ))
        requires
            old(self)@.wf(),
            old(self)@.contains(*mutation),
        ensures
            final(self)@ == old(self)@.subscribed(*mutation, id),
            *seen.0 == old(self)@.entry(*mutation).state,
            seen.1 == old(self)@.entry(*mutation).clean_task,
            final(self)@.wf(),
            final(self)@.contains(*mutation),
    {
        proof {
            self@.lemma_position(*mutation);
        }
        let cancel_clean = self.subscribe(mutation, id);
        (self.peek(mutation), cancel_clean)
    }

    /// Arms the clean-up timer of `mutation` when a consumer leaves it and
    /// nobody subscribes. A mutation without an entry is left alone.
    pub fn update_tasks(&mut self, mutation: &Mutation<Q>) -> (told: Teardown)
        requires
            old(self)@.wf(),
        ensures
            final(self)@ == old(self)@.torn_down(*mutation),
            told == old(self)@.teardown(*mutation),
            final(self)@.wf(),
    {
        let ghost before = self@;
        match self.find(mutation) {
            Some(i) => {
                if self.slots[i].data.reactive_contexts.len() == 0 {
                    let token = self.next_task;
                    let cancel_clean = self.slots[i].data.clean_task;
                    self.slots[i].data.clean_task = Some(token);
                    self.next_task = next_token(token);
                    proof {
                        assert(self@.slots =~= before.torn_down(*mutation).slots);
                    }
                    Teardown {
                        cancel_interval: None,
                        arm_interval: None,
                        cancel_clean,
                        arm_clean: Some((token, mutation.clean_time)),
                    }
                } else {
                    proof {
                        assert(self@.slots =~= before.torn_down(*mutation).slots);
                    }
                    Teardown { cancel_interval: None, arm_interval: None, cancel_clean: None, arm_clean: None }
                }
            },
            None => Teardown { cancel_interval: None, arm_interval: None, cancel_clean: None, arm_clean: None },
        }
    }

    /// Takes `id` from the subscribers of `mutation` and arms the clean-up
    /// timer if nobody is left. A mutation without an entry is left alone,
    /// so a consumer may leave after its entry has gone.
    pub fn unsubscribe(&mut self, mutation: &Mutation<Q>, id: SubscriberId) -> (told: Teardown)
        requires
            old(self)@.wf(),
        ensures
            final(self)@ == old(self)@.unsubscribed(*mutation, id),
            told == old(self)@.without_subscriber(*mutation, id).teardown(*mutation),
            final(self)@.wf(),
    {
        let ghost before = self@;
        match self.find(mutation) {
            Some(i) => {
                drop_id(&mut self.slots[i].data.reactive_contexts, id);
                proof {
                    assert(self@.slots =~= before.without_subscriber(*mutation, id).slots);
                }
            },
            None => {},
        }
        self.update_tasks(mutation)
    }

    /// Removes the entry of `mutation` when its clean-up timer `token`
    /// fires, if that timer is still the armed one and still nobody
    /// subscribes. Returns the data of the entry removed.
    pub fn clean_up(&mut self, mutation: &Mutation<Q>, token: TaskId) -> (removed: Option<
        MutationData<Q>,
    >)
        requires
            old(self)@.wf(),
        ensures
            final(self)@ == old(self)@.cleaned_up(*mutation, token),
            match removed {
                Some(data) => old(self)@.clean_up_due(*mutation, token) && data@ == old(
                    self,
                )@.entry(*mutation),
                None => !old(self)@.clean_up_due(*mutation, token),
            },
            final(self)@.wf(),
    {
        let ghost before = self@;
        match self.find(mutation) {
            Some(i) => {
                let due = match self.slots[i].data.clean_task {
                    Some(armed) => armed == token,
                    None => false,
                } && self.slots[i].data.reactive_contexts.len() == 0;
                if due {
                    let slot = self.slots.remove(i);
                    proof {
                        assert(self@.slots =~= before.cleaned_up(*mutation, token).slots);
                    }
                    Some(slot.data)
                } else {
                    None
                }
            },
            None => None,
        }
    }

    /// Starts a run of `mutation`: the entry turns to loading, keeping the
    /// outcome it has, and the subscribers returned are to be woken before
    /// the host starts the work. Every call starts a run of its own, also
    /// while another is in flight. Returns whether there is an entry to run
    /// for.
    pub fn run(&mut self, mutation: &Mutation<Q>) -> (plan: (bool, Vec<SubscriberId>))
        requires
            old(self)@.wf(),
        ensures
            final(self)@ == old(self)@.begun(*mutation),
            plan.0 == old(self)@.contains(*mutation),
            plan.1@ == old(self)@.subscribers(*mutation),
            final(self)@.wf(),
    {
        let ghost before = self@;
        match self.find(mutation) {
            Some(i) => {
                let mut state = MutationStateData::Pending;
                std::mem::swap(&mut self.slots[i].data.state, &mut state);
                self.slots[i].data.state = state.into_loading();
                proof {
                    assert(self@.slots =~= before.begun(*mutation).slots);
                }
                (true, copy_ids(&self.slots[i].data.reactive_contexts))
            },
            None => (false, Vec::new()),
        }
    }

    /// Stores what a run of `mutation` returned at the moment `now`. Nobody
    /// is woken yet: the host now calls [`MutationCapability::on_settled`]
    /// on the stored outcome, and hands what this function returns to
    /// [`MutationsStorage::notify_settled`] when the hook is through. Where
    /// the entry has gone in the meantime the outcome is dropped.
    pub fn settle(&mut self, mutation: &Mutation<Q>, res: Result<Q::Ok, Q::Err>, now: Moment) -> (due:
        HookDue)
        requires
            old(self)@.wf(),
        ensures
            final(self)@ == old(self)@.settled(*mutation, res, now),
            due.stored() == old(self)@.contains(*mutation),
            final(self)@.wf(),
    {
        let ghost before = self@;
        match self.find(mutation) {
            Some(i) => {
                self.slots[i].data.state = MutationStateData::Settled { res, settlement_instant: now };
                proof {
                    assert(self@.slots =~= before.settled(*mutation, res, now).slots);
                }
                HookDue { stored: true }
            },
            None => HookDue { stored: false },
        }
    }

    /// The subscribers of `mutation` to wake once its outcome was stored
    /// and `on_settled` is through: those that the entry has by now, or
    /// nobody if there was no entry to store the outcome in.
    pub fn notify_settled(&self, due: HookDue, mutation: &Mutation<Q>) -> (notify: Vec<SubscriberId>)
        requires
            self@.wf(),
        ensures
            notify@ == if due.stored() {
                self@.subscribers(*mutation)
            } else {
                Seq::empty()
            },
    {
        if due.stored {
            match self.find(mutation) {
                Some(i) => copy_ids(&self.slots[i].data.reactive_contexts),
                None => Vec::new(),
            }
        } else {
            Vec::new()
        }
    }
}

/// What [`MutationsStorage::settle`] hands to the host: the outcome is
/// stored, `on_settled` is due, and the wake-ups come after it. It cannot be
/// made or copied by the host, so the wake-ups of a run cannot be asked for
/// before its outcome is stored.
pub struct HookDue {
    stored: bool,
}

impl HookDue {
    /// Whether there was an entry to store the outcome in.
    pub closed spec fn stored(&self) -> bool {
        self.stored
    }

    /// Whether there was an entry to store the outcome in. If so, the host
    /// calls `on_settled` on the outcome that the entry now holds.
    pub fn was_stored(&self) -> (stored: bool)
        ensures
            stored == self.stored(),
    {
        self.stored
    }
}

/// Turns a consumer to `mutation`. The mutation is registered; if the
/// consumer held another mutation before, the clean-up timer of that one is
/// armed if nobody subscribes to it. Nothing runs. Returns the clean-up timer
/// of `mutation` to stop, and what letting go of `previous` asks for.
pub fn use_mutation<Q: MutationCapability>(
    storage: &mut MutationsStorage<Q>,
    previous: Option<&Mutation<Q>>,
    mutation: Mutation<Q>,
) -> (told: (Option<TaskId>, Teardown))
    requires
        old(storage)@.wf(),
    ensures
        final(storage)@ == match previous {
            Some(p) => old(storage)@.registered(mutation).torn_down(*p),
            None => old(storage)@.registered(mutation),
        },
        told.0 == old(storage)@.pending_clean(mutation),
        told.1 == match previous {
            Some(p) => old(storage)@.registered(mutation).teardown(*p),
            None => Teardown { cancel_interval: None, arm_interval: None, cancel_clean: None, arm_clean: None },
        },
        final(storage)@.wf(),
{
    let cancel_clean = storage.insert_or_get_mutation(mutation);
    let teardown = match previous {
        Some(p) => storage.update_tasks(p),
        None => Teardown { cancel_interval: None, arm_interval: None, cancel_clean: None, arm_clean: None },
    };
    (cancel_clean, teardown)
}

/// A view of a mutation's state.
pub struct MutationReader<'a, Q: MutationCapability> {
    state: &'a MutationStateData<Q>,
}

impl<'a, Q: MutationCapability> MutationReader<'a, Q> {
    /// The state that was read.
    pub closed spec fn seen(&self) -> MutationStateData<Q> {
        *self.state
    }

    /// The state that was read.
    pub fn state(&self) -> (state: &MutationStateData<Q>)
        ensures
            *state == self.seen(),
    {
        self.state
    }
}

/// The handle of one consumer on one mutation.
pub struct UseMutation<Q: MutationCapability> {
    mutation: Mutation<Q>,
    subscriber: SubscriberId,
}

impl<Q: MutationCapability> UseMutation<Q> {
    /// The handle of the consumer `subscriber` on `mutation`.
    pub fn new(mutation: Mutation<Q>, subscriber: SubscriberId) -> (handle: Self)
        ensures
            handle.mutation() == mutation,
            handle.subscriber() == subscriber,
    {
        UseMutation { mutation, subscriber }
    }

    /// The mutation that the handle is on.
    pub closed spec fn mutation(&self) -> Mutation<Q> {
        self.mutation
    }

    /// The consumer that holds the handle.
    pub closed spec fn subscriber(&self) -> SubscriberId {
        self.subscriber
    }

    /// The mutation that the handle is on.
    pub fn get_mutation(&self) -> (mutation: &Mutation<Q>)
        ensures
            *mutation == self.mutation(),
    {
        &self.mutation
    }

    /// Reads the state of the mutation, which must be registered, and
    /// subscribes the consumer. Also returns the clean-up timer to stop.
    pub fn read<'a>(&self, storage: &'a mut MutationsStorage<Q>) -> (seen: (
        MutationReader<'a, Q>,
        Option<TaskId>,
    ))
        requires
            old(storage)@.wf(),
            old(storage)@.contains(self.mutation()),
        ensures
            final(storage)@ == old(storage)@.subscribed(self.mutation(), self.subscriber()),
            seen.0.seen() == old(storage)@.entry(self.mutation()).state,
            seen.1 == old(storage)@.entry(self.mutation()).clean_task,
            final(storage)@.wf(),
            final(storage)@.contains(self.mutation()),
    {
        let (state, cancel_clean) = storage.read(&self.mutation, self.subscriber);
        (MutationReader { state }, cancel_clean)
    }

    /// Reads the state of the mutation, which must be registered, without
    /// subscribing.
    pub fn peek<'a>(&self, storage: &'a MutationsStorage<Q>) -> (seen: MutationReader<'a, Q>)
        requires
            storage@.wf(),
            storage@.contains(self.mutation()),
        ensures
            seen.seen() == storage@.entry(self.mutation()).state,
    {
        MutationReader { state: storage.peek(&self.mutation) }
    }

    /// Starts a run of the mutation; see [`MutationsStorage::run`].
    pub fn mutate(&self, storage: &mut MutationsStorage<Q>) -> (plan: (bool, Vec<SubscriberId>))
        requires
            old(storage)@.wf(),
        ensures
            final(storage)@ == old(storage)@.begun(self.mutation()),
            plan.0 == old(storage)@.contains(self.mutation()),
            plan.1@ == old(storage)@.subscribers(self.mutation()),
            final(storage)@.wf(),
    {
        storage.run(&self.mutation)
    }

    /// Gives the handle up: the consumer stops subscribing, and the clean-up
    /// timer is armed if nobody is left. The handle is consumed, so this
    /// happens once; and it is in order that the entry has gone before.
    pub fn dispose(self, storage: &mut MutationsStorage<Q>) -> (told: Teardown)
        requires
            old(storage)@.wf(),
        ensures
            final(storage)@ == old(storage)@.unsubscribed(self.mutation(), self.subscriber()),
            told == old(storage)@.without_subscriber(self.mutation(), self.subscriber()).teardown(
                self.mutation(),
            ),
            final(storage)@.wf(),
    {
        storage.unsubscribe(&self.mutation, self.subscriber)
    }
}

} // verus!
