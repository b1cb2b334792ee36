//! The state of a query as its listeners see it.
use vstd::prelude::*;

verus! {

/// The result of a query.
pub type QueryResult<T, E> = Result<T, E>;

/// The state of a query.
#[derive(PartialEq, Debug)]
pub enum QueryState<T, E> {
    /// Contains a successful or errored result.
    Settled(QueryResult<T, E>),
    /// Contains a loading state that may or may not have a cached value.
    Loading(Option<T>),
}

impl<T, E> QueryState<T, E> {
    /// The value this state can still show: the settled value, or the one
    /// kept while loading. A settled error shows nothing.
    pub open spec fn value(self) -> Option<T> {
        match self {
            QueryState::Settled(Ok(v)) => Some(v),
            QueryState::Settled(Err(_)) => None,
            QueryState::Loading(v) => v,
        }
    }

    /// Whether the query has settled with a value.
    pub fn is_ok(&self) -> (ok: bool)
        ensures
            ok == (self matches QueryState::Settled(Ok(_))),
    {
        matches!(self, QueryState::Settled(Ok(..)))
    }

    /// Whether the query has settled with an error.
    pub fn is_err(&self) -> (err: bool)
        ensures
            err == (self matches QueryState::Settled(Err(_))),
    {
        matches!(self, QueryState::Settled(Err(..)))
    }

    /// Whether the query is loading.
    pub fn is_loading(&self) -> (loading: bool)
        ensures
            loading == (self is Loading),
    {
        matches!(self, QueryState::Loading(..))
    }

    /// Turns the state into `Loading`, keeping the value it could show.
    pub fn set_loading(&mut self)
        ensures
            *final(self) == QueryState::<T, E>::Loading(old(self).value()),
    {
        let mut taken = QueryState::Loading(None);
        std::mem::swap(self, &mut taken);
        let kept: Option<T> = Option::from(taken);
        *self = QueryState::Loading(kept);
    }
}

impl<T: Clone, E: Clone> Clone for QueryState<T, E> {
    /// A state of the same kind, holding a clone of what this one holds.
    fn clone(&self) -> (copy: Self)
        ensures
            match (*self, copy) {
                (QueryState::Settled(Ok(a)), QueryState::Settled(Ok(b))) => cloned(a, b),
                (QueryState::Settled(Err(a)), QueryState::Settled(Err(b))) => cloned(a, b),
                (QueryState::Loading(Some(a)), QueryState::Loading(Some(b))) => cloned(a, b),
                (QueryState::Loading(None), QueryState::Loading(None)) => true,
                _ => false,
            },
    {
        match self {
            QueryState::Settled(Ok(v)) => QueryState::Settled(Ok(v.clone())),
            QueryState::Settled(Err(e)) => QueryState::Settled(Err(e.clone())),
            QueryState::Loading(Some(v)) => QueryState::Loading(Some(v.clone())),
            QueryState::Loading(None) => QueryState::Loading(None),
        }
    }
}

impl<T, E> Default for QueryState<T, E> {
    /// A query starts out loading, with nothing to show.
    fn default() -> (state: Self)
        ensures
            state == QueryState::<T, E>::Loading(None),
    {
        QueryState::Loading(None)
    }
}

impl<T, E> From<QueryState<T, E>> for Option<T> {
    fn from(result: QueryState<T, E>) -> (value: Self) {
        match result {
            QueryState::Settled(Ok(v)) => Some(v),
            QueryState::Settled(Err(_)) => None,
            QueryState::Loading(v) => v,
        }
    }
}

impl<T, E> vstd::std_specs::convert::FromSpecImpl<QueryState<T, E>> for Option<T> {
    open spec fn obeys_from_spec() -> bool {
        true
    }

    open spec fn from_spec(result: QueryState<T, E>) -> Self {
        result.value()
    }
}

impl<T, E> From<Result<T, E>> for QueryState<T, E> {
    fn from(value: Result<T, E>) -> (state: Self) {
        match value {
            Ok(v) => QueryState::Settled(Ok(v)),
            Err(e) => QueryState::Settled(Err(e)),
        }
    }
}

impl<T, E> vstd::std_specs::convert::FromSpecImpl<Result<T, E>> for QueryState<T, E> {
    open spec fn obeys_from_spec() -> bool {
        true
    }

    open spec fn from_spec(value: Result<T, E>) -> Self {
        QueryState::Settled(value)
    }
}

impl<T, E> From<T> for QueryState<T, E> {
    fn from(value: T) -> (state: Self) {
        QueryState::Settled(Ok(value))
    }
}

impl<T, E> vstd::std_specs::convert::FromSpecImpl<T> for QueryState<T, E> {
    open spec fn obeys_from_spec() -> bool {
        true
    }

    open spec fn from_spec(value: T) -> Self {
        QueryState::Settled(Ok(value))
    }
}

} // verus!
