//! The parameters of a run, fixed before it starts and shared by all workers.

use crate::span::{micros_to_span, secs_to_span, span_of_micros, span_of_secs, Span};
use crate::trace_file::TraceFile;
use vstd::prelude::*;

verus! {

/// How an engine reports the entries it drops.
#[derive(Clone, Copy, Debug, PartialEq, Eq, Structural)]
pub enum RemovalNotificationMode {
    /// Evictions are not counted.
    Disabled,
    /// The engine reports each eviction as it happens.
    Immediate,
    /// The engine queues its reports and delivers them later.
    Queued,
}

#[derive(Debug)]
pub struct Config {
    pub trace_file: TraceFile,
    /// Time to live of an entry.
    pub ttl: Option<Span>,
    /// Time an entry may stay idle.
    pub tti: Option<Span>,
    /// Worker counts to run with, in place of the default sweep.
    pub num_clients: Option<Vec<u16>>,
    /// How many times the trace is replayed.
    pub repeat: Option<u16>,
    /// Latency added to each insert.
    pub insertion_delay: Option<Span>,
    pub insert_once: bool,
    pub invalidate: bool,
    pub invalidate_all: bool,
    pub invalidate_entries_if: bool,
    pub iterate: bool,
    pub eviction_listener: RemovalNotificationMode,
    pub size_aware: bool,
    pub entry_api: bool,
    pub per_key_expiration: bool,
}

impl Clone for Config {
    fn clone(&self) -> (copy: Self)
        ensures
            copy.same_as(self),
    {
        Config {
            trace_file: self.trace_file,
            ttl: self.ttl,
            tti: self.tti,
            num_clients: match &self.num_clients {
                Some(counts) => Some(counts.clone()),
                None => None,
            },
            repeat: self.repeat,
            insertion_delay: self.insertion_delay,
            insert_once: self.insert_once,
            invalidate: self.invalidate,
            invalidate_all: self.invalidate_all,
            invalidate_entries_if: self.invalidate_entries_if,
            iterate: self.iterate,
            eviction_listener: self.eviction_listener,
            size_aware: self.size_aware,
            entry_api: self.entry_api,
            per_key_expiration: self.per_key_expiration,
        }
    }
}

impl Config {
    /// The two configurations say the same.
    pub open spec fn same_as(&self, other: &Config) -> bool {
        &&& self.trace_file == other.trace_file
        &&& self.ttl == other.ttl
        &&& self.tti == other.tti
        &&& match (self.num_clients, other.num_clients) {
            (Some(a), Some(b)) => a@ == b@,
            (None, None) => true,
            _ => false,
        }
        &&& self.repeat == other.repeat
        &&& self.insertion_delay == other.insertion_delay
        &&& self.insert_once == other.insert_once
        &&& self.invalidate == other.invalidate
        &&& self.invalidate_all == other.invalidate_all
        &&& self.invalidate_entries_if == other.invalidate_entries_if
        &&& self.iterate == other.iterate
        &&& self.eviction_listener == other.eviction_listener
        &&& self.size_aware == other.size_aware
        &&& self.entry_api == other.entry_api
        &&& self.per_key_expiration == other.per_key_expiration
    }

    /// A configuration with every sampling toggle off and no eviction
    /// accounting.
    pub fn new(
        trace_file: TraceFile,
        ttl_secs: Option<u64>,
        tti_secs: Option<u64>,
        num_clients: Option<Vec<u16>>,
        repeat: Option<u16>,
        insertion_delay_micros: Option<u64>,
    ) -> (config: Config)
        ensures
            config.trace_file == trace_file,
            config.ttl == match ttl_secs {
                Some(s) => Some(span_of_secs(s)),
                None => None,
            },
            config.tti == match tti_secs {
                Some(s) => Some(span_of_secs(s)),
                None => None,
            },
            config.num_clients == num_clients,
            config.repeat == repeat,
            config.insertion_delay == match insertion_delay_micros {
                Some(m) => Some(span_of_micros(m)),
                None => None,
            },
            !config.insert_once,
            !config.invalidate,
            !config.invalidate_all,
            !config.invalidate_entries_if,
            !config.iterate,
            config.eviction_listener == RemovalNotificationMode::Disabled,
            !config.size_aware,
            !config.entry_api,
            !config.per_key_expiration,
    {
        Config {
            trace_file,
            ttl: secs_to_span(ttl_secs),
            tti: secs_to_span(tti_secs),
            num_clients,
            repeat,
            insertion_delay: micros_to_span(insertion_delay_micros),
            insert_once: false,
            invalidate: false,
            invalidate_all: false,
            invalidate_entries_if: false,
            iterate: false,
            eviction_listener: RemovalNotificationMode::Disabled,
            size_aware: false,
            entry_api: false,
            per_key_expiration: false,
        }
    }

    pub fn set_insert_once(&mut self, v: bool)
        ensures
            *final(self) == (Config { insert_once: v, ..*old(self) }),
    {
        self.insert_once = v;
    }

    pub fn set_invalidate(&mut self, v: bool)
        ensures
            *final(self) == (Config { invalidate: v, ..*old(self) }),
    {
        self.invalidate = v;
    }

    pub fn set_invalidate_all(&mut self, v: bool)
        ensures
            *final(self) == (Config { invalidate_all: v, ..*old(self) }),
    {
        self.invalidate_all = v;
    }

    pub fn set_invalidate_entries_if(&mut self, v: bool)
        ensures
            *final(self) == (Config { invalidate_entries_if: v, ..*old(self) }),
    {
        self.invalidate_entries_if = v;
    }

    pub fn set_iterate(&mut self, v: bool)
        ensures
            *final(self) == (Config { iterate: v, ..*old(self) }),
    {
        self.iterate = v;
    }

    pub fn set_eviction_listener(&mut self, v: RemovalNotificationMode)
        ensures
            *final(self) == (Config { eviction_listener: v, ..*old(self) }),
    {
        self.eviction_listener = v;
    }

    pub fn set_size_aware(&mut self, v: bool)
        ensures
            *final(self) == (Config { size_aware: v, ..*old(self) }),
    {
        self.size_aware = v;
    }

    pub fn set_entry_api(&mut self, v: bool)
        ensures
            *final(self) == (Config { entry_api: v, ..*old(self) }),
    {
        self.entry_api = v;
    }

    pub fn set_per_key_expiration(&mut self, v: bool)
        ensures
            *final(self) == (Config { per_key_expiration: v, ..*old(self) }),
    {
        self.per_key_expiration = v;
    }

    /// Whether evictions are counted in this run.
    pub fn is_eviction_listener_enabled(&self) -> (enabled: bool)
        ensures
            enabled == (self.eviction_listener != RemovalNotificationMode::Disabled),
    {
        self.eviction_listener != RemovalNotificationMode::Disabled
    }
}

} // verus!
