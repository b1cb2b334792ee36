//! Durations and points in time as plain numbers, and the clock that reads them.
//!
//! Every policy of the cache (staleness, clean-up delay, revalidation period)
//! is a [`Span`]; every settlement carries a [`Moment`]. Both are counts of
//! nanoseconds, so the rules that compare them are ordinary integer
//! arithmetic. Only [`Clock`] touches the machine's time.
use vstd::prelude::*;

verus! {

/// Nanoseconds in one second.
pub const NANOS_PER_SEC: u128 = 1_000_000_000;

/// Nanoseconds in one millisecond.
pub const NANOS_PER_MILLI: u128 = 1_000_000;

/// The longest span a `std::time::Duration` can hold, in nanoseconds:
/// `u64::MAX` seconds and 999 999 999 nanoseconds.
pub const NEVER_NANOS: u128 = 18_446_744_073_709_551_615_999_999_999;

/// A length of time, in nanoseconds.
#[derive(Clone, Copy, Debug, PartialEq, Eq, Structural, Hash)]
pub struct Span {
    pub nanos: u128,
}

impl Span {
    /// No time at all.
    pub fn zero() -> (span: Span)
        ensures
            span.nanos == 0,
    {
        Span { nanos: 0 }
    }

    /// The span that stands for "never": a timer with this period is not armed.
    pub fn never() -> (span: Span)
        ensures
            span.nanos == NEVER_NANOS,
            span.is_never(),
    {
        Span { nanos: NEVER_NANOS }
    }

    /// A span of `nanos` nanoseconds.
    pub fn from_nanos(nanos: u128) -> (span: Span)
        ensures
            span.nanos == nanos,
    {
        Span { nanos }
    }

    /// A span of `millis` milliseconds.
    pub fn from_millis(millis: u64) -> (span: Span)
        ensures
            span.nanos == millis * NANOS_PER_MILLI,
    {
        let wide: u128 = millis as u128;
        Span { nanos: wide * NANOS_PER_MILLI }
    }

    /// A span of `secs` seconds.
    pub fn from_secs(secs: u64) -> (span: Span)
        ensures
            span.nanos == secs * NANOS_PER_SEC,
    {
        let wide: u128 = secs as u128;
        Span { nanos: wide * NANOS_PER_SEC }
    }

    /// The length in nanoseconds.
    pub fn as_nanos(&self) -> (nanos: u128)
        ensures
            nanos == self.nanos,
    {
        self.nanos
    }

    /// The whole seconds of the span; `u64::MAX` for "never".
    #[verifier::when_used_as_spec(spec_as_secs)]
    pub fn as_secs(&self) -> (secs: u64)
        ensures
            secs == if self.is_never() {
                u64::MAX as int
            } else {
                self.nanos as int / NANOS_PER_SEC as int
            },
    {
        if self.nanos >= NEVER_NANOS {
            u64::MAX
        } else {
            (self.nanos / NANOS_PER_SEC) as u64
        }
    }

    /// The nanoseconds beyond the whole seconds; 999 999 999 for "never".
    pub fn subsec_nanos(&self) -> (nanos: u32)
        ensures
            nanos < NANOS_PER_SEC,
            nanos == if self.is_never() {
                NANOS_PER_SEC as int - 1
            } else {
                self.nanos as int % NANOS_PER_SEC as int
            },
            !self.is_never() ==> self.as_secs() * NANOS_PER_SEC + nanos == self.nanos,
            self.is_never() ==> self.as_secs() * NANOS_PER_SEC + nanos == NEVER_NANOS,
    {
        if self.nanos >= NEVER_NANOS {
            999_999_999
        } else {
            (self.nanos % NANOS_PER_SEC) as u32
        }
    }

    /// The whole seconds of the span, as [`Span::as_secs`] computes them.
    pub open spec fn spec_as_secs(&self) -> u64 {
        if self.is_never() {
            u64::MAX
        } else {
            (self.nanos as int / NANOS_PER_SEC as int) as u64
        }
    }

    /// Whether this span stands for "never".
    #[verifier::when_used_as_spec(spec_is_never)]
    pub fn is_never(&self) -> (never: bool)
        ensures
            never == self.spec_is_never(),
    {
        self.nanos >= NEVER_NANOS
    }

    /// A span is "never" from [`NEVER_NANOS`] upwards.
    pub open spec fn spec_is_never(&self) -> bool {
        self.nanos >= NEVER_NANOS
    }

    /// The shorter of two spans.
    pub fn shorter(self, other: Span) -> (least: Span)
        ensures
            least == self.spec_shorter(other),
    {
        if other.nanos < self.nanos {
            other
        } else {
            self
        }
    }

    /// The shorter of two spans; `self` when they are equally long.
    pub open spec fn spec_shorter(self, other: Span) -> Span {
        if other.nanos < self.nanos {
            other
        } else {
            self
        }
    }
}

/// A point in time: nanoseconds since the [`Clock`] that read it was started.
#[derive(Clone, Copy, Debug, PartialEq, Eq, Structural, Hash)]
pub struct Moment {
    pub nanos: u128,
}

impl Moment {
    /// The moment `nanos` nanoseconds after the clock was started.
    pub fn at(nanos: u128) -> (moment: Moment)
        ensures
            moment.nanos == nanos,
    {
        Moment { nanos }
    }

    /// The time that passed from `self` until `now`; zero when `now` is not
    /// later than `self`.
    pub fn elapsed_until(self, now: Moment) -> (gone: Span)
        ensures
            gone == self.spec_elapsed_until(now),
    {
        if now.nanos >= self.nanos {
            Span { nanos: now.nanos - self.nanos }
        } else {
            Span { nanos: 0 }
        }
    }

    /// The saturating distance from `self` to `now`.
    pub open spec fn spec_elapsed_until(self, now: Moment) -> Span {
        if now.nanos >= self.nanos {
            Span { nanos: (now.nanos - self.nanos) as u128 }
        } else {
            Span { nanos: 0 }
        }
    }
}

#[verifier::external_type_specification]
#[verifier::external_body]
pub struct ExInstant(tokio::time::Instant);

/// The source of [`Moment`]s: remembers when it was started and measures from
/// there.
pub struct Clock {
    origin: tokio::time::Instant,
}

impl Clock {
    /// Starts a clock; its moments count from this call.
    pub fn start() -> Clock {
        Clock { origin: instant_now() }
    }

    /// The current moment. Nothing is promised of the reading: whoever needs
    /// a rule to hold of it passes the moment on to a function that takes one.
    pub fn now(&self) -> Moment {
        Moment { nanos: nanos_since(&self.origin) }
    }
}

/// `tokio::time::Instant::now`: the current reading of the monotonic clock.
/// The reading depends on when the call is made, so nothing is claimed of it.
#[verifier::external_body]
fn instant_now() -> tokio::time::Instant {
    tokio::time::Instant::now()
}

/// `tokio::time::Instant::elapsed`, in whole nanoseconds: the time since
/// `origin` was read, zero if `origin` lies in the future. The value depends
/// on when the call is made, so nothing is claimed of it.
#[verifier::external_body]
fn nanos_since(origin: &tokio::time::Instant) -> u128 {
    origin.elapsed().as_nanos()
}

} // verus!
