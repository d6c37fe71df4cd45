//! Spans of time as whole nanoseconds.

use vstd::prelude::*;

verus! {

/// Nanoseconds in one second.
pub const NANOS_PER_SEC: u128 = 1_000_000_000;

/// Nanoseconds in one microsecond.
pub const NANOS_PER_MICRO: u128 = 1_000;

/// A span of time, counted in nanoseconds.
#[derive(Clone, Copy, Debug, PartialEq, Eq, Structural)]
pub struct Span {
    pub nanos: u128,
}

/// The span of `secs` seconds.
pub open spec fn span_of_secs(secs: u64) -> Span {
    Span { nanos: (secs * NANOS_PER_SEC) as u128 }
}

/// The span of `micros` microseconds.
pub open spec fn span_of_micros(micros: u64) -> Span {
    Span { nanos: (micros * NANOS_PER_MICRO) as u128 }
}

impl Span {
    /// The span of `secs` seconds.
    pub fn from_secs(secs: u64) -> (r: Span)
        ensures
            r == span_of_secs(secs),
    {
        Span { nanos: secs as u128 * NANOS_PER_SEC }
    }

    /// The span of `micros` microseconds.
    pub fn from_micros(micros: u64) -> (r: Span)
        ensures
            r == span_of_micros(micros),
    {
        Span { nanos: micros as u128 * NANOS_PER_MICRO }
    }

    /// The shorter of two spans.
    pub fn shorter(self, other: Span) -> (r: Span)
        ensures
            r.nanos == if self.nanos <= other.nanos {
                self.nanos
            } else {
                other.nanos
            },
    {
        if self.nanos <= other.nanos {
            self
        } else {
            other
        }
    }

    /// What is left of `self` once `spent` has passed; nothing if `spent`
    /// is the longer.
    pub fn remaining_after(self, spent: Span) -> (r: Span)
        ensures
            r.nanos == if spent.nanos <= self.nanos {
                self.nanos - spent.nanos
            } else {
                0
            },
    {
        if spent.nanos <= self.nanos {
            Span { nanos: self.nanos - spent.nanos }
        } else {
            Span { nanos: 0 }
        }
    }
}

/// `Span::from_secs` on the span that is there, if any.
pub fn secs_to_span(secs: Option<u64>) -> (r: Option<Span>)
    ensures
        r == match secs {
            Some(s) => Some(span_of_secs(s)),
            None => None,
        },
{
    match secs {
        Some(s) => Some(Span::from_secs(s)),
        None => None,
    }
}

/// `Span::from_micros` on the span that is there, if any.
pub fn micros_to_span(micros: Option<u64>) -> (r: Option<Span>)
    ensures
        r == match micros {
            Some(m) => Some(span_of_micros(m)),
            None => None,
        },
{
    match micros {
        Some(m) => Some(Span::from_micros(m)),
        None => None,
    }
}

} // verus!
