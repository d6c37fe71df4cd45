//! The initializers handed to an engine's single-flight primitive.
//!
//! An initializer waits out the configured insertion delay and then makes
//! the value of its key or, for the keys chosen to exercise the engine's
//! handling of failed initializers, fails with one of two errors.

use crate::cache::{make_value, policy_weight, value_bytes, Key, Value};
use crate::config::Config;
use crate::span::Span;
use std::sync::atomic::{AtomicBool, Ordering};
use vstd::prelude::*;

verus! {

/// The points at which a worker lets time pass or lets others run. The
/// scheduling model of the run says what each of them does.
pub trait Pacer {
    /// Waits for `delay`.
    fn pause(&self, delay: Span);

    /// Lets other workers run.
    fn give_way(&self);
}

/// A pacer that neither waits nor gives way.
#[derive(Clone, Copy, Debug)]
pub struct NoPacing;

impl Pacer for NoPacing {
    fn pause(&self, delay: Span) {
    }

    fn give_way(&self) {
    }
}

/// Which initializer a key is looked up with.
#[derive(Clone, Copy, Debug, PartialEq, Eq, Structural)]
pub enum InitClosureType {
    /// The initializer makes the value.
    GetOrInsert,
    /// The initializer fails with `InitClosureError1`.
    GetOrTryInsertWithError1,
    /// The initializer fails with `InitClosureError2`.
    GetOrTryInsertWithError2,
}

/// The initializer of a key, by the key's remainder modulo 4: the first
/// error for 0, the second for 1, a value for 2 and 3.
pub open spec fn init_type_of(block: int) -> InitClosureType {
    if block % 4 == 0 {
        InitClosureType::GetOrTryInsertWithError1
    } else if block % 4 == 1 {
        InitClosureType::GetOrTryInsertWithError2
    } else {
        InitClosureType::GetOrInsert
    }
}

/// How many keys of `start..end` have an initializer that makes a value.
pub open spec fn succeeding_keys(start: int, end: int) -> nat
    decreases end - start,
{
    if start >= end {
        0
    } else if init_type_of(end - 1) == InitClosureType::GetOrInsert {
        succeeding_keys(start, end - 1) + 1
    } else {
        succeeding_keys(start, end - 1)
    }
}

impl InitClosureType {
    pub fn select(block: usize) -> (ty: InitClosureType)
        ensures
            ty == init_type_of(block as int),
    {
        match block % 4 {
            0 => InitClosureType::GetOrTryInsertWithError1,
            1 => InitClosureType::GetOrTryInsertWithError2,
            _ => InitClosureType::GetOrInsert,
        }
    }
}

/// How a lookup through the single-flight primitive ended.
#[derive(Clone, Copy, Debug, PartialEq, Eq, Structural)]
pub enum InitOutcome {
    /// The key was present.
    Found,
    /// The key was missing and the initializer's value was stored.
    Inserted,
    /// The key was missing and the initializer failed: the key stays
    /// missing.
    Failed,
}

/// The first of the two errors that an initializer fails with.
#[derive(Clone, Copy, Debug, PartialEq, Eq, Structural)]
pub struct InitClosureError1;

/// The second of the two errors that an initializer fails with.
#[derive(Clone, Copy, Debug, PartialEq, Eq, Structural)]
pub struct InitClosureError2;

impl InitClosureError1 {
    pub fn message(&self) -> (text: &'static str)
        ensures
            text@ == "init closure failed with error one"@,
    {
        "init closure failed with error one"
    }
}

impl InitClosureError2 {
    pub fn message(&self) -> (text: &'static str)
        ensures
            text@ == "init closure failed with error two"@,
    {
        "init closure failed with error two"
    }
}

/// The initializer of one key for one request.
pub struct Initializer<'a, P: Pacer> {
    config: &'a Config,
    pacer: &'a P,
    key: Key,
    req_id: usize,
    ran: AtomicBool,
}

impl<'a, P: Pacer> Initializer<'a, P> {
    pub closed spec fn key(&self) -> Key {
        self.key
    }

    pub closed spec fn req_id(&self) -> usize {
        self.req_id
    }

    pub closed spec fn size_aware(&self) -> bool {
        self.config.size_aware
    }

    /// Which initializer the key is looked up with.
    pub open spec fn kind_of(&self) -> InitClosureType {
        init_type_of(self.key() as int)
    }

    /// The initializer of `key` for request `req_id`, not yet run.
    pub fn new(config: &'a Config, pacer: &'a P, key: Key, req_id: usize) -> (init: Self)
        ensures
            init.key() == key,
            init.req_id() == req_id,
            init.size_aware() == config.size_aware,
    {
        Initializer { config, pacer, key, req_id, ran: AtomicBool::new(false) }
    }

    /// Which initializer the key is looked up with.
    pub fn kind(&self) -> (ty: InitClosureType)
        ensures
            ty == self.kind_of(),
    {
        InitClosureType::select(self.key)
    }

    /// The key that is initialized.
    pub fn initialized_key(&self) -> (key: Key)
        ensures
            key == self.key(),
    {
        self.key
    }

    fn wait(&self) {
        if let Some(delay) = self.config.insertion_delay {
            self.pacer.pause(delay);
        }
    }

    /// The initializer that succeeds: waits, records that it ran, and makes
    /// the key's value.
    pub fn value(&self) -> (value: Value)
        ensures
            value.weight == policy_weight(self.size_aware(), self.req_id()),
            value.bytes@ == value_bytes(self.key()),
    {
        self.wait();
        self.ran.store(true, Ordering::Release);
        make_value(self.config, self.key, self.req_id)
    }

    /// The initializer that fails with the first error: waits, then fails.
    pub fn fail_one(&self) -> (r: Result<Value, InitClosureError1>)
        ensures
            r.is_err(),
    {
        self.wait();
        Err(InitClosureError1)
    }

    /// The initializer that fails with the second error: waits, then fails.
    pub fn fail_two(&self) -> (r: Result<Value, InitClosureError2>)
        ensures
            r.is_err(),
    {
        self.wait();
        Err(InitClosureError2)
    }

    /// Whether the engine ran the initializer that succeeds: it does so
    /// only where it did not find the key.
    pub fn was_run(&self) -> bool {
        self.ran.load(Ordering::Acquire)
    }
}

} // verus!
