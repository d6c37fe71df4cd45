//! Expiry decided entry by entry, set so that it comes to what the
//! cache-wide time to live and time to idle would give.

use crate::span::Span;
use vstd::prelude::*;

verus! {

/// The expiry of an entry once it is created: the shorter of time to idle
/// and time to live, the one that is set where only one is, none where
/// neither is.
pub open spec fn expiry_after_create(ttl: Option<Span>, tti: Option<Span>) -> Option<Span> {
    match (tti, ttl) {
        (None, None) => None,
        (Some(tti), None) => Some(tti),
        (None, Some(ttl)) => Some(ttl),
        (Some(tti), Some(ttl)) => Some(
            if tti.nanos <= ttl.nanos {
                tti
            } else {
                ttl
            },
        ),
    }
}

/// What is left of the time to live `since_modified` after the entry was
/// last written.
pub open spec fn remaining_ttl(ttl: Span, since_modified: Span) -> Span {
    if since_modified.nanos <= ttl.nanos {
        Span { nanos: (ttl.nanos - since_modified.nanos) as u128 }
    } else {
        Span { nanos: 0 }
    }
}

/// The expiry of an entry once it is read: unchanged without a time to
/// idle; the time to idle where there is no time to live; else the shorter
/// of the time to idle and of what is left of the time to live.
pub open spec fn expiry_after_read(
    ttl: Option<Span>,
    tti: Option<Span>,
    since_modified: Span,
    current: Option<Span>,
) -> Option<Span> {
    match (tti, ttl) {
        (None, _) => current,
        (Some(tti), None) => Some(tti),
        (Some(tti), Some(ttl)) => Some(
            if tti.nanos <= remaining_ttl(ttl, since_modified).nanos {
                tti
            } else {
                remaining_ttl(ttl, since_modified)
            },
        ),
    }
}

/// The expiry of an entry once it is written again: the time to live where
/// one is set, unchanged otherwise.
pub open spec fn expiry_after_update(ttl: Option<Span>, current: Option<Span>) -> Option<Span> {
    if ttl.is_some() {
        ttl
    } else {
        current
    }
}

/// The per-entry expiry that stands for a cache-wide time to live and time
/// to idle.
#[derive(Clone, Copy, Debug, PartialEq, Eq, Structural)]
pub struct MokabenchExpiry {
    pub ttl: Option<Span>,
    pub tti: Option<Span>,
}

impl MokabenchExpiry {
    pub fn new(ttl: Option<Span>, tti: Option<Span>) -> (expiry: MokabenchExpiry)
        ensures
            expiry.ttl == ttl,
            expiry.tti == tti,
    {
        MokabenchExpiry { ttl, tti }
    }

    /// How long a new entry lives.
    pub fn expire_after_create(&self) -> (expiry: Option<Span>)
        ensures
            expiry == expiry_after_create(self.ttl, self.tti),
    {
        match (self.tti, self.ttl) {
            (None, None) => None,
            (Some(tti), None) => Some(tti),
            (None, Some(ttl)) => Some(ttl),
            (Some(tti), Some(ttl)) => Some(tti.shorter(ttl)),
        }
    }

    /// How long an entry lives that was just read, last written
    /// `since_modified` ago and due to expire after `current_duration`.
    pub fn expire_after_read(&self, since_modified: Span, current_duration: Option<Span>) -> (expiry:
        Option<Span>)
        ensures
            expiry == expiry_after_read(self.ttl, self.tti, since_modified, current_duration),
    {
        match (self.tti, self.ttl) {
            (None, _) => current_duration,
            (Some(tti), None) => Some(tti),
            (Some(tti), Some(ttl)) => Some(tti.shorter(ttl.remaining_after(since_modified))),
        }
    }

    /// How long an entry lives that was just written again and was due to
    /// expire after `current_duration`.
    pub fn expire_after_update(&self, current_duration: Option<Span>) -> (expiry: Option<Span>)
        ensures
            expiry == expiry_after_update(self.ttl, current_duration),
    {
        if self.ttl.is_some() {
            self.ttl
        } else {
            current_duration
        }
    }
}

/// An entry never outlives the time to live: what is decided at creation
/// and at a read is no longer than what is left of it.
pub proof fn lemma_expiry_within_ttl(
    ttl: Span,
    tti: Option<Span>,
    since_modified: Span,
    current: Option<Span>,
)
    requires
        current.is_some() ==> current.unwrap().nanos <= remaining_ttl(ttl, since_modified).nanos,
    ensures
        expiry_after_create(Some(ttl), tti).is_some(),
        expiry_after_create(Some(ttl), tti).unwrap().nanos <= ttl.nanos,
        expiry_after_read(Some(ttl), tti, since_modified, current).is_some() ==> expiry_after_read(
            Some(ttl),
            tti,
            since_modified,
            current,
        ).unwrap().nanos <= remaining_ttl(ttl, since_modified).nanos,
{
}

} // verus!
