//! A mutation held by one consumer: its state and the steps of a run.
use vstd::prelude::*;
use crate::query::SubscriberId;

verus! {

/// The result of a mutation.
pub type MutationResult<T, E> = Result<T, E>;

/// The state of a mutation.
#[derive(PartialEq, Debug)]
pub enum MutationState<T, E> {
    /// Contains a successful or errored result.
    Settled(MutationResult<T, E>),
    /// Contains a loading state that may or may not have a cached value.
    Loading(Option<T>),
    /// Mutation has not been triggered yet.
    Pending,
}

impl<T, E> MutationState<T, E> {
    /// The value this state can still show: the settled value, or the one
    /// kept while loading.
    pub open spec fn value(self) -> Option<T> {
        match self {
            MutationState::Settled(Ok(v)) => Some(v),
            MutationState::Settled(Err(_)) => None,
            MutationState::Loading(v) => v,
            MutationState::Pending => None,
        }
    }

    /// Whether the mutation has settled with a value.
    pub fn is_ok(&self) -> (ok: bool)
        ensures
            ok == (self matches MutationState::Settled(Ok(_))),
    {
        matches!(self, MutationState::Settled(Ok(..)))
    }

    /// Whether the mutation has settled with an error.
    pub fn is_err(&self) -> (err: bool)
        ensures
            err == (self matches MutationState::Settled(Err(_))),
    {
        matches!(self, MutationState::Settled(Err(..)))
    }

    /// Whether the mutation is loading.
    pub fn is_loading(&self) -> (loading: bool)
        ensures
            loading == (self is Loading),
    {
        matches!(self, MutationState::Loading(..))
    }

    /// Whether the mutation has not been triggered yet.
    pub fn is_pending(&self) -> (pending: bool)
        ensures
            pending == (self is Pending),
    {
        matches!(self, MutationState::Pending)
    }

    /// Turns the state into `Loading`, keeping the value it could show.
    pub fn set_loading(&mut self)
        ensures
            *final(self) == MutationState::<T, E>::Loading(old(self).value()),
    {
        let mut taken = MutationState::Loading(None);
        std::mem::swap(self, &mut taken);
        let kept: Option<T> = Option::from(taken);
        *self = MutationState::Loading(kept);
    }
}

impl<T, E> From<Result<T, E>> for MutationState<T, E> {
    fn from(value: Result<T, E>) -> (state: Self) {
        match value {
            Ok(v) => MutationState::Settled(Ok(v)),
            Err(e) => MutationState::Settled(Err(e)),
        }
    }
}

impl<T, E> vstd::std_specs::convert::FromSpecImpl<Result<T, E>> for MutationState<T, E> {
    open spec fn obeys_from_spec() -> bool {
        true
    }

    open spec fn from_spec(value: Result<T, E>) -> Self {
        MutationState::Settled(value)
    }
}

impl<T, E> From<MutationState<T, E>> for Option<T> {
    fn from(result: MutationState<T, E>) -> (value: Self) {
        match result {
            MutationState::Settled(Ok(v)) => Some(v),
            MutationState::Settled(Err(_)) => None,
            MutationState::Loading(v) => v,
            MutationState::Pending => None,
        }
    }
}

impl<T, E> vstd::std_specs::convert::FromSpecImpl<MutationState<T, E>> for Option<T> {
    open spec fn obeys_from_spec() -> bool {
        true
    }

    open spec fn from_spec(result: MutationState<T, E>) -> Self {
        result.value()
    }
}

/// A query mutation: the state of the mutation of one consumer.
pub struct UseMutation<T, E> {
    value: MutationState<T, E>,
    scope_id: SubscriberId,
}

impl<T, E> UseMutation<T, E> {
    /// The state of the mutation.
    pub closed spec fn value(&self) -> MutationState<T, E> {
        self.value
    }

    /// The consumer that holds the mutation.
    pub closed spec fn scope(&self) -> SubscriberId {
        self.scope_id
    }

    /// Get the current result from the query mutation.
    pub fn result(&self) -> (state: &MutationState<T, E>)
        ensures
            *state == self.value(),
    {
        &self.value
    }

    /// Starts a run: the state turns to loading, keeping the value it could
    /// show. Returns the consumer to wake before the work starts.
    pub fn mutate(&mut self) -> (notify: SubscriberId)
        ensures
            final(self).value() == MutationState::<T, E>::Loading(old(self).value().value()),
            final(self).scope() == old(self).scope(),
            notify == old(self).scope(),
    {
        self.value.set_loading();
        self.scope_id
    }

    /// Starts a run as [`UseMutation::mutate`] does, but nobody is woken.
    pub fn mutate_silent(&mut self)
        ensures
            final(self).value() == MutationState::<T, E>::Loading(old(self).value().value()),
            final(self).scope() == old(self).scope(),
    {
        self.value.set_loading();
    }

    /// Stores what a run returned. Returns the consumer to wake.
    pub fn settle(&mut self, new_value: MutationResult<T, E>) -> (notify: SubscriberId)
        ensures
            final(self).value() == MutationState::<T, E>::Settled(new_value),
            final(self).scope() == old(self).scope(),
            notify == old(self).scope(),
    {
        self.value = MutationState::from(new_value);
        self.scope_id
    }

    /// Stores what a run returned; nobody is woken.
    pub fn settle_silent(&mut self, new_value: MutationResult<T, E>)
        ensures
            final(self).value() == MutationState::<T, E>::Settled(new_value),
            final(self).scope() == old(self).scope(),
    {
        self.value = MutationState::from(new_value);
    }
}

/// Create a mutation for the consumer `scope_id`. It is pending until it is
/// triggered.
pub fn use_mutation<T, E>(scope_id: SubscriberId) -> (mutation: UseMutation<T, E>)
    ensures
        mutation.value() == MutationState::<T, E>::Pending,
        mutation.scope() == scope_id,
{
    UseMutation { value: MutationState::Pending, scope_id }
}

} // verus!
