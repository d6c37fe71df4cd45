//! Counters of the entries an engine dropped, by cause.
//!
//! The engine's notifications add to them from any thread while a trial
//! runs; the harness reads them once when the trial is over.

use std::sync::atomic::{AtomicU64, Ordering};
use vstd::prelude::*;

verus! {

/// Why an entry left the cache.
#[derive(Clone, Copy, Debug, PartialEq, Eq, Structural)]
pub enum EvictionCause {
    /// The entry's time to live or to idle ran out.
    Expired,
    /// The entry was invalidated.
    Explicit,
    /// The entry's value was replaced.
    Replaced,
    /// The entry was evicted to keep the cache within its capacity.
    Size,
}

/// The counts read from the counters at one moment.
#[derive(Clone, Copy, Debug, PartialEq, Eq, Structural)]
pub struct EvictionCounts {
    pub size: u64,
    pub expired: u64,
    pub explicit: u64,
}

pub struct EvictionCounters {
    size: AtomicU64,
    expired: AtomicU64,
    explicit: AtomicU64,
    replaced: AtomicU64,
}

impl EvictionCounters {
    /// Counters that stand at zero.
    pub fn new() -> EvictionCounters {
        EvictionCounters {
            size: AtomicU64::new(0),
            expired: AtomicU64::new(0),
            explicit: AtomicU64::new(0),
            replaced: AtomicU64::new(0),
        }
    }

    /// Counts one entry dropped for `cause`.
    pub fn increment(&self, cause: EvictionCause) {
        match cause {
            EvictionCause::Size => self.size.fetch_add(1, Ordering::AcqRel),
            EvictionCause::Expired => self.expired.fetch_add(1, Ordering::AcqRel),
            EvictionCause::Explicit => self.explicit.fetch_add(1, Ordering::AcqRel),
            EvictionCause::Replaced => self.replaced.fetch_add(1, Ordering::AcqRel),
        };
    }

    /// Entries evicted for capacity so far.
    pub fn size(&self) -> u64 {
        self.size.load(Ordering::Acquire)
    }

    /// Entries expired so far.
    pub fn expired(&self) -> u64 {
        self.expired.load(Ordering::Acquire)
    }

    /// Entries invalidated so far.
    pub fn explicit(&self) -> u64 {
        self.explicit.load(Ordering::Acquire)
    }

    /// Reads the three counts that a report carries.
    pub fn snapshot(&self) -> EvictionCounts {
        EvictionCounts { size: self.size(), expired: self.expired(), explicit: self.explicit() }
    }
}

} // verus!
