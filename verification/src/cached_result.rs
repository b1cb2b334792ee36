//! A query's state together with the time it was last written.
use vstd::prelude::*;
use crate::query::TaskId;
use crate::result::QueryState;
use crate::time::{Moment, Span};

verus! {

/// The background revalidation of a cached result: its period and the timer
/// that runs it.
#[derive(Clone, Copy, Debug, PartialEq, Eq, Structural)]
pub struct RevalidationOptions {
    pub interval: Span,
    pub task: TaskId,
}

#[verifier::external_type_specification]
#[verifier::external_body]
pub struct ExInstant(instant::Instant);

/// Measures the time that cached results are checked against, from the
/// moment it was started.
pub struct Stopwatch {
    started: instant::Instant,
}

impl Stopwatch {
    /// Starts a stopwatch; its moments count from this call.
    pub fn start() -> Stopwatch {
        Stopwatch { started: instant_now() }
    }

    /// The current moment. Nothing is promised of the reading: whoever needs
    /// a rule to hold of it passes the moment on to a function that takes
    /// one.
    pub fn now(&self) -> Moment {
        Moment::at(nanos_since(&self.started))
    }
}

/// `instant::Instant::now`: the current reading of the monotonic clock. The
/// reading depends on when the call is made, so nothing is claimed of it.
#[verifier::external_body]
fn instant_now() -> instant::Instant {
    instant::Instant::now()
}

/// `instant::Instant::elapsed`, in whole nanoseconds: the time since
/// `started` was read. The value depends on when the call is made, so
/// nothing is claimed of it.
#[verifier::external_body]
fn nanos_since(started: &instant::Instant) -> u128 {
    started.elapsed().as_nanos()
}

/// Cached result.
pub struct CachedResult<T, E> {
    pub state: QueryState<T, E>,
    pub instant: Option<Moment>,
    pub has_been_loaded: bool,
    pub revalidation_options: Option<RevalidationOptions>,
}

impl<T, E> CachedResult<T, E> {
    /// Whether a result last written at `instant` is stale at `now` for a
    /// policy of `stale_time`: at least `stale_time` has passed, or it was
    /// never written.
    pub open spec fn stale_at(self, stale_time: Span, now: Moment) -> bool {
        match self.instant {
            Some(instant) => instant.spec_elapsed_until(now).nanos >= stale_time.nanos,
            None => true,
        }
    }

    /// A result in the state `value` that was never written or loaded.
    pub fn new(value: QueryState<T, E>) -> (cached: Self)
        ensures
            cached == (CachedResult {
                state: value,
                instant: None,
                has_been_loaded: false,
                revalidation_options: None,
            }),
    {
        CachedResult { state: value, instant: None, has_been_loaded: false, revalidation_options: None }
    }

    /// Get this result's state.
    pub fn state(&self) -> (state: &QueryState<T, E>)
        ensures
            *state == self.state,
    {
        &self.state
    }

    /// Set this result's value, written at `now`.
    pub fn set_value(&mut self, new_value: QueryState<T, E>, now: Moment)
        ensures
            *final(self) == (CachedResult { state: new_value, instant: Some(now), ..*old(self) }),
    {
        self.state = new_value;
        self.instant = Some(now);
    }

    /// Check if this result is stale at `now`.
    pub fn is_stale_at(&self, stale_time: Span, now: Moment) -> (stale: bool)
        ensures
            stale == self.stale_at(stale_time, now),
    {
        match self.instant {
            Some(instant) => instant.elapsed_until(now).nanos >= stale_time.nanos,
            None => true,
        }
    }

    /// Check if this result is stale by the reading of `clock`. A result
    /// that was never written is stale whatever the clock says.
    pub fn is_stale(&self, stale_time: Span, clock: &Stopwatch) -> (stale: bool)
        ensures
            self.instant is None ==> stale,
            exists|now: Moment| stale == self.stale_at(stale_time, now),
    {
        let now = clock.now();
        self.is_stale_at(stale_time, now)
    }

    /// Check if this result is fresh at `now`: not stale.
    pub fn is_fresh_at(&self, stale_time: Span, now: Moment) -> (fresh: bool)
        ensures
            fresh == !self.stale_at(stale_time, now),
    {
        !self.is_stale_at(stale_time, now)
    }

    /// Check if this result has loaded yet.
    pub fn has_been_loaded(&self) -> (loaded: bool)
        ensures
            loaded == self.has_been_loaded,
    {
        self.has_been_loaded
    }

    /// Set this result as loading, at `now`. The value it can show is kept.
    pub fn set_to_loading(&mut self, now: Moment)
        ensures
            *final(self) == (CachedResult {
                state: QueryState::Loading(old(self).state.value()),
                instant: Some(now),
                ..*old(self)
            }),
    {
        self.state.set_loading();
        self.instant = Some(now);
    }

    /// Set this result as loaded.
    pub fn set_to_loaded(&mut self)
        ensures
            *final(self) == (CachedResult { has_been_loaded: true, ..*old(self) }),
    {
        self.has_been_loaded = true;
    }

    /// Set how this result is revalidated in the background.
    pub fn set_revalidate_options(&mut self, options: Option<RevalidationOptions>)
        ensures
            *final(self) == (CachedResult { revalidation_options: options, ..*old(self) }),
    {
        self.revalidation_options = options;
    }
}

impl<T, E> std::ops::Deref for CachedResult<T, E> {
    type Target = QueryState<T, E>;

    fn deref(&self) -> (state: &QueryState<T, E>)
        ensures
            *state == self.state,
    {
        &self.state
    }
}

impl<T, E> Default for CachedResult<T, E> {
    /// Loading, with nothing to show, never written.
    fn default() -> (cached: Self)
        ensures
            cached == (CachedResult {
                state: QueryState::<T, E>::Loading(None),
                instant: None,
                has_been_loaded: false,
                revalidation_options: None,
            }),
    {
        CachedResult {
            state: QueryState::Loading(None),
            instant: None,
            has_been_loaded: false,
            revalidation_options: None,
        }
    }
}

} // verus!
