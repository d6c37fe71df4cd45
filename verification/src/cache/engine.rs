//! One driver for every engine: the engine offers its primitives, the
//! driver applies them key by key and keeps count.

use crate::cache::init::{InitOutcome, Initializer, Pacer};
use crate::cache::steps::{
    applied, first_byte_of, insert_steps, invalidate_applied, invalidate_if_applied,
    invalidate_if_steps, invalidate_steps, key_at, lookup_applied, lookup_steps, lookup_tally,
    next_id, once_applied, once_count, once_steps, once_tally, request_id, setting_of,
    update_steps, Setting, Step,
};
use crate::cache::{
    counted, has_room, make_value, CacheDriver, Counters, Key, Tally, Unsupported, Value,
};
use crate::cadence::Cadence;
use crate::config::{Config, RemovalNotificationMode};
use crate::eviction_counters::EvictionCounters;
use crate::parser::TraceEntry;
use crate::report::Report;
use crate::CommandView;
use std::sync::Arc;
use vstd::prelude::*;

verus! {

/// After how many visited entries a walk gives way to other workers.
pub const YIELD_EVERY: u32 = 500;

/// The count kept while an engine is walked: the walk gives way after
/// every `YIELD_EVERY` entries.
pub struct Walk<'a, P: Pacer> {
    pacer: &'a P,
    cadence: Cadence,
}

impl<'a, P: Pacer> Walk<'a, P> {
    #[verifier::type_invariant]
    spec fn paced(self) -> bool {
        self.cadence.period() == YIELD_EVERY
    }

    /// How many entries were visited since the walk began or last gave way.
    pub closed spec fn since_yield(&self) -> nat {
        self.cadence.count()
    }

    /// A walk that has visited nothing.
    pub fn new(pacer: &'a P) -> (walk: Self)
        ensures
            walk.since_yield() == 0,
    {
        Walk { pacer, cadence: Cadence::new(YIELD_EVERY) }
    }

    /// Counts one visited entry, and gives way if it is the last of
    /// `YIELD_EVERY`.
    pub fn visit(&mut self)
        ensures
            final(self).since_yield() == if old(self).since_yield() + 1 == YIELD_EVERY {
                0
            } else {
                old(self).since_yield() + 1
            },
    {
        proof {
            use_type_invariant(&*self);
        }
        if self.cadence.tick() {
            self.pacer.give_way();
        }
    }
}

/// The primitives of a cache engine, one key at a time. Nothing is promised
/// of what an engine holds: it evicts and expires as it sees fit, and other
/// workers use it at the same time.
///
/// A primitive that the engine lacks answers `Unsupported`.
pub trait Engine {
    /// Looks `key` up; `true` on a hit.
    fn get(&mut self, key: Key) -> bool;

    /// Stores `value` under `key`.
    fn insert(&mut self, key: Key, value: Value);

    /// Looks `key` up and, where it is missing, runs the initializer of the
    /// kind `init.kind()` at most once among all workers that ask for the
    /// key, storing the value if it makes one.
    fn get_with<P: Pacer>(&mut self, key: Key, init: &Initializer<P>) -> Result<
        InitOutcome,
        Unsupported,
    >;

    /// Removes `key`.
    fn invalidate(&mut self, key: Key) -> Result<(), Unsupported>;

    /// Removes all entries.
    fn invalidate_all(&mut self) -> Result<(), Unsupported>;

    /// Removes the entries whose value begins with `first_byte`.
    fn invalidate_entries_if(&mut self, first_byte: u8) -> Result<(), Unsupported>;

    /// Visits every entry once, counting each with `walk.visit()`.
    fn iterate<P: Pacer>(&mut self, walk: &mut Walk<P>) -> Result<(), Unsupported>;
}

/// The request id that follows `req_id`.
pub fn next_request_id(req_id: usize) -> (next: usize)
    ensures
        next == next_id(req_id),
{
    if req_id == usize::MAX {
        0
    } else {
        req_id + 1
    }
}

/// The requests of an entry that are still to be made: one for every key,
/// in order, each with its request id. A driver that cannot hand the
/// engine's primitives to `Driver`, because it has to await them, takes its
/// keys and request ids from here.
pub struct Requests {
    next_key: Key,
    end: Key,
    req_id: usize,
}

impl Requests {
    #[verifier::type_invariant]
    spec fn in_range(self) -> bool {
        self.next_key <= self.end
    }

    /// The key of the next request.
    pub closed spec fn next_key(&self) -> Key {
        self.next_key
    }

    /// Behind which key the requests end.
    pub closed spec fn end(&self) -> Key {
        self.end
    }

    /// The id of the next request.
    pub closed spec fn next_req_id(&self) -> usize {
        self.req_id
    }

    /// All requests of the entry.
    pub fn of(entry: &TraceEntry) -> (requests: Requests)
        ensures
            requests.next_key() == entry@.start,
            requests.end() == entry@.end,
            requests.next_req_id() == entry@.line_number,
            entry@.start <= entry@.end,
    {
        let range = entry.range();
        Requests { next_key: range.start, end: range.end, req_id: entry.line_number() }
    }

    /// Whether a key is left that has not had its request.
    pub fn has_more(&self) -> (more: bool)
        ensures
            more == (self.next_key() < self.end()),
            self.next_key() <= self.end(),
    {
        proof {
            use_type_invariant(self);
        }
        self.next_key < self.end
    }

    /// Takes the next request: its key and its id.
    pub fn take(&mut self) -> (request: (Key, usize))
        requires
            old(self).next_key() < old(self).end(),
        ensures
            request == (old(self).next_key(), old(self).next_req_id()),
            final(self).end() == old(self).end(),
            final(self).next_key() == old(self).next_key() + 1,
            final(self).next_req_id() == next_id(old(self).next_req_id()),
    {
        let request = (self.next_key, self.req_id);
        self.next_key = self.next_key + 1;
        self.req_id = next_request_id(self.req_id);
        request
    }

    /// Takes the next request, if a key is left: its key and its id.
    pub fn next_request(&mut self) -> (request: Option<(Key, usize)>)
        ensures
            final(self).end() == old(self).end(),
            old(self).next_key() <= old(self).end(),
            old(self).next_key() == old(self).end() ==> request.is_none() && *final(self) == *old(
                self,
            ),
            old(self).next_key() < old(self).end() ==> request == Some(
                (old(self).next_key(), old(self).next_req_id()),
            ) && final(self).next_key() == old(self).next_key() + 1 && final(self).next_req_id()
                == next_id(old(self).next_req_id()),
    {
        if self.has_more() {
            Some(self.take())
        } else {
            None
        }
    }
}

/// A driver over the engine `E`, paced by `P`.
#[derive(Clone)]
pub struct Driver<E, P> {
    config: Arc<Config>,
    engine: E,
    pacer: P,
    eviction_counters: Option<Arc<EvictionCounters>>,
    log: Ghost<Seq<Step>>,
}

impl<E: Engine, P: Pacer> Driver<E, P> {
    /// The steps the driver has taken.
    pub closed spec fn taken(&self) -> Seq<Step> {
        self.log@
    }

    /// The configuration that the driver holds, a copy of the run's.
    pub closed spec fn configured(&self) -> Config {
        *self.config
    }

    /// The setting of the driver's configuration.
    pub closed spec fn works_in(&self) -> Setting {
        setting_of(*self.config)
    }

    /// The eviction counters that the driver hands out.
    pub closed spec fn counters(&self) -> Option<Arc<EvictionCounters>> {
        self.eviction_counters
    }

    /// The engine that the driver drives.
    pub closed spec fn engine(&self) -> E {
        self.engine
    }

    /// A driver that applies commands to `engine` as `config` says, and
    /// hands out `eviction_counters` as the engine's own: the counters that
    /// the engine reports its evictions to, which there are exactly where
    /// the run counts evictions.
    pub fn over(
        config: &Config,
        engine: E,
        pacer: P,
        eviction_counters: Option<Arc<EvictionCounters>>,
    ) -> (driver: Self)
        requires
            eviction_counters.is_some() == (config.eviction_listener
                != RemovalNotificationMode::Disabled),
        ensures
            driver.configured().same_as(config),
            driver.works_in() == setting_of(*config),
            driver.taken() == Seq::<Step>::empty(),
            driver.engine() == engine,
            driver.counters() == eviction_counters,
            driver.counters().is_some() == (config.eviction_listener
                != RemovalNotificationMode::Disabled),
    {
        Driver {
            config: Arc::new(config.clone()),
            engine,
            pacer,
            eviction_counters,
            log: Ghost(Seq::empty()),
        }
    }

    /// Looks `key` up; `true` on a hit.
    pub fn get(&mut self, key: Key) -> (hit: bool)
        ensures
            final(self).works_in() == old(self).works_in(),
            final(self).taken() == old(self).taken().push(Step::Get { key, hit }),
    {
        let hit = self.engine.get(key);
        proof {
            self.log@ = self.log@.push(Step::Get { key, hit });
        }
        hit
    }

    /// Makes the value of `key` for request `req_id`, waits out the
    /// insertion delay, and stores the value.
    pub fn insert(&mut self, key: Key, req_id: usize)
        ensures
            final(self).works_in() == old(self).works_in(),
            final(self).taken() == old(self).taken() + insert_steps(
                old(self).works_in(),
                key,
                req_id,
            ),
    {
        let value = make_value(&self.config, key, req_id);
        let ghost step = Step::Insert { key, weight: value.weight, bytes: value.bytes@ };
        if let Some(delay) = self.config.insertion_delay {
            self.pacer.pause(delay);
            proof {
                self.log@ = self.log@.push(Step::Pause { delay });
            }
        }
        self.engine.insert(key, value);
        proof {
            self.log@ = self.log@.push(step);
            assert(self.log@ =~= old(self).log@ + insert_steps(old(self).works_in(), key, req_id));
        }
    }

    /// Looks `key` up with the initializer of request `req_id`.
    fn get_with(&mut self, key: Key, req_id: usize) -> (outcome: Option<InitOutcome>)
        ensures
            final(self).works_in() == old(self).works_in(),
            final(self).taken() == old(self).taken().push(Step::GetWith { key, req_id, outcome }),
    {
        let init = Initializer::new(&self.config, &self.pacer, key, req_id);
        let outcome = match self.engine.get_with(key, &init) {
            Ok(outcome) => Some(outcome),
            Err(_) => None,
        };
        proof {
            self.log@ = self.log@.push(Step::GetWith { key, req_id, outcome });
        }
        outcome
    }
}

impl<E: Engine, P: Pacer> CacheDriver for Driver<E, P> {
    open spec fn steps(&self) -> Seq<Step> {
        self.taken()
    }

    open spec fn setting(&self) -> Setting {
        self.works_in()
    }

    fn get_or_insert(&mut self, entry: &TraceEntry, report: &mut Report) {
        let mut counters = Counters::new();
        let mut requests = Requests::of(entry);
        let ghost setting = self.works_in();
        let ghost mut hits = Seq::<bool>::empty();
        proof {
            assert(self.taken() + lookup_steps(setting, entry@, hits) =~= self.taken());
        }
        while requests.has_more()
            invariant
                entry@.start <= entry@.end,
                requests.end() == entry@.end,
                requests.next_key() == entry@.start + hits.len(),
                requests.next_req_id() == request_id(entry@.line_number, hits.len()),
                self.works_in() == setting,
                counters@ == lookup_tally(hits),
                counters@.reads() == hits.len(),
                counters@.inserted == counters@.misses,
                has_room(old(report), entry@.len()),
                *report == *old(report),
                self.taken() == old(self).taken() + lookup_steps(setting, entry@, hits),
            decreases requests.end() - requests.next_key(),
        {
            let ghost so_far = hits;
            let (block, req_id) = requests.take();
            let hit = self.get(block);
            if !hit {
                self.insert(block, req_id);
            }
            counters.count_lookup(hit);
            proof {
                hits = hits.push(hit);
                assert(hits.drop_last() =~= so_far);
                assert(key_at(entry@, so_far.len()) == block);
                assert(self.taken() =~= old(self).taken() + lookup_steps(setting, entry@, hits));
            }
        }
        counters.add_to_report(report);
        proof {
            assert(hits.len() == entry@.len());
            assert(lookup_applied(setting, entry@, lookup_steps(setting, entry@, hits), counters@));
            assert(applied(
                setting,
                CommandView::GetOrInsert(entry@),
                lookup_steps(setting, entry@, hits),
                counters@,
                true,
            ));
        }
    }

    fn get_or_insert_once(&mut self, entry: &TraceEntry, report: &mut Report) -> (r: Result<
        (),
        Unsupported,
    >) {
        let mut counters = Counters::new();
        let mut requests = Requests::of(entry);
        let ghost mut outcomes = Seq::<InitOutcome>::empty();
        proof {
            assert(self.taken() + once_steps(entry@, outcomes) =~= self.taken());
        }
        while requests.has_more()
            invariant
                entry@.start <= entry@.end,
                requests.end() == entry@.end,
                requests.next_key() == entry@.start + outcomes.len(),
                requests.next_req_id() == request_id(entry@.line_number, outcomes.len()),
                self.works_in() == old(self).works_in(),
                counters@ == once_tally(entry@, outcomes),
                counters@.reads() == outcomes.len(),
                counters@.inserted <= counters@.misses,
                has_room(old(report), entry@.len()),
                self.taken() == old(self).taken() + once_steps(entry@, outcomes),
                *report == *old(report),
            decreases requests.end() - requests.next_key(),
        {
            let ghost so_far = outcomes;
            let (block, req_id) = requests.take();
            let outcome = match self.get_with(block, req_id) {
                Some(outcome) => outcome,
                None => {
                    proof {
                        assert(key_at(entry@, so_far.len()) == block);
                        let made = once_steps(entry@, outcomes).push(
                            Step::GetWith { key: block, req_id, outcome: None },
                        );
                        assert(self.taken() =~= old(self).taken() + made);
                        assert(counted(old(report), report, Tally::zero()));
                        assert(once_applied(entry@, made, Tally::zero(), false));
                        assert(applied(
                            old(self).works_in(),
                            CommandView::GetOrInsertOnce(entry@),
                            made,
                            Tally::zero(),
                            false,
                        ));
                    }
                    return Err(Unsupported);
                },
            };
            counters.count_once(block, outcome);
            proof {
                outcomes = outcomes.push(outcome);
                assert(outcomes.drop_last() =~= so_far);
                assert(key_at(entry@, so_far.len()) == block);
                assert(counters@ == once_tally(entry@, so_far).plus(once_count(block, outcome)));
                assert(self.taken() =~= old(self).taken() + once_steps(entry@, outcomes));
            }
        }
        counters.add_to_report(report);
        proof {
            assert(outcomes.len() == entry@.len());
            assert(once_applied(entry@, once_steps(entry@, outcomes), counters@, true));
            assert(applied(
                old(self).works_in(),
                CommandView::GetOrInsertOnce(entry@),
                once_steps(entry@, outcomes),
                counters@,
                true,
            ));
        }
        Ok(())
    }

    fn update(&mut self, entry: &TraceEntry, report: &mut Report) {
        let mut counters = Counters::new();
        let mut requests = Requests::of(entry);
        let ghost setting = self.works_in();
        let ghost mut done: nat = 0;
        proof {
            assert(self.taken() + update_steps(setting, entry@, 0) =~= self.taken());
        }
        while requests.has_more()
            invariant
                entry@.start <= entry@.end,
                requests.end() == entry@.end,
                requests.next_key() == entry@.start + done,
                requests.next_req_id() == request_id(entry@.line_number, done),
                self.works_in() == setting,
                counters@ == (Tally { inserted: done, hits: 0, misses: 0 }),
                has_room(old(report), entry@.len()),
                *report == *old(report),
                self.taken() == old(self).taken() + update_steps(setting, entry@, done),
            decreases requests.end() - requests.next_key(),
        {
            let (block, req_id) = requests.take();
            self.insert(block, req_id);
            counters.inserted();
            proof {
                assert(key_at(entry@, done) == block);
                assert(self.taken() =~= old(self).taken() + update_steps(
                    setting,
                    entry@,
                    (done + 1) as nat,
                ));
                done = done + 1;
            }
        }
        counters.add_to_report(report);
        proof {
            assert(done == entry@.len());
            assert(applied(
                setting,
                CommandView::Update(entry@),
                update_steps(setting, entry@, entry@.len()),
                counters@,
                true,
            ));
        }
    }

    fn invalidate(&mut self, entry: &TraceEntry) -> (r: Result<(), Unsupported>) {
        let mut requests = Requests::of(entry);
        let ghost mut done: nat = 0;
        proof {
            assert(self.taken() + invalidate_steps(entry@, 0) =~= self.taken());
        }
        while requests.has_more()
            invariant
                entry@.start <= entry@.end,
                requests.end() == entry@.end,
                requests.next_key() == entry@.start + done,
                self.works_in() == old(self).works_in(),
                self.taken() == old(self).taken() + invalidate_steps(entry@, done),
            decreases requests.end() - requests.next_key(),
        {
            let (block, _) = requests.take();
            let result = self.engine.invalidate(block);
            proof {
                self.log@ = self.log@.push(Step::Invalidate { key: block, ok: result.is_ok() });
                assert(key_at(entry@, done) == block);
            }
            match result {
                Ok(()) => {
                    proof {
                        assert(self.taken() =~= old(self).taken() + invalidate_steps(
                            entry@,
                            (done + 1) as nat,
                        ));
                        done = done + 1;
                    }
                },
                Err(e) => {
                    proof {
                        let made = invalidate_steps(entry@, done).push(
                            Step::Invalidate { key: block, ok: false },
                        );
                        assert(self.taken() =~= old(self).taken() + made);
                        assert(invalidate_applied(entry@, made, false));
                        assert(applied(
                            old(self).works_in(),
                            CommandView::Invalidate(entry@),
                            made,
                            Tally::zero(),
                            false,
                        ));
                    }
                    return Err(e);
                },
            }
        }
        proof {
            let made = invalidate_steps(entry@, entry@.len());
            assert(done == entry@.len());
            assert(invalidate_applied(entry@, made, true));
            assert(applied(
                old(self).works_in(),
                CommandView::Invalidate(entry@),
                made,
                Tally::zero(),
                true,
            ));
        }
        Ok(())
    }

    fn invalidate_all(&mut self) -> (r: Result<(), Unsupported>) {
        let result = self.engine.invalidate_all();
        proof {
            self.log@ = self.log@.push(Step::InvalidateAll { ok: result.is_ok() });
            let made = seq![Step::InvalidateAll { ok: result.is_ok() }];
            assert(self.taken() =~= old(self).taken() + made);
            assert(applied(
                old(self).works_in(),
                CommandView::InvalidateAll,
                made,
                Tally::zero(),
                result.is_ok(),
            ));
        }
        result
    }

    fn invalidate_entries_if(&mut self, entry: &TraceEntry) -> (r: Result<(), Unsupported>) {
        let mut requests = Requests::of(entry);
        let ghost mut done: nat = 0;
        proof {
            assert(self.taken() + invalidate_if_steps(entry@, 0) =~= self.taken());
        }
        while requests.has_more()
            invariant
                entry@.start <= entry@.end,
                requests.end() == entry@.end,
                requests.next_key() == entry@.start + done,
                self.works_in() == old(self).works_in(),
                self.taken() == old(self).taken() + invalidate_if_steps(entry@, done),
            decreases requests.end() - requests.next_key(),
        {
            let (block, _) = requests.take();
            let first_byte = (block % 256) as u8;
            let result = self.engine.invalidate_entries_if(first_byte);
            proof {
                self.log@ = self.log@.push(
                    Step::InvalidateEntriesIf { first_byte, ok: result.is_ok() },
                );
                assert(key_at(entry@, done) == block);
                assert(first_byte == first_byte_of(block));
            }
            match result {
                Ok(()) => {
                    proof {
                        assert(self.taken() =~= old(self).taken() + invalidate_if_steps(
                            entry@,
                            (done + 1) as nat,
                        ));
                        done = done + 1;
                    }
                },
                Err(e) => {
                    proof {
                        let made = invalidate_if_steps(entry@, done).push(
                            Step::InvalidateEntriesIf { first_byte, ok: false },
                        );
                        assert(self.taken() =~= old(self).taken() + made);
                        assert(invalidate_if_applied(entry@, made, false));
                        assert(applied(
                            old(self).works_in(),
                            CommandView::InvalidateEntriesIf(entry@),
                            made,
                            Tally::zero(),
                            false,
                        ));
                    }
                    return Err(e);
                },
            }
        }
        proof {
            let made = invalidate_if_steps(entry@, entry@.len());
            assert(done == entry@.len());
            assert(invalidate_if_applied(entry@, made, true));
            assert(applied(
                old(self).works_in(),
                CommandView::InvalidateEntriesIf(entry@),
                made,
                Tally::zero(),
                true,
            ));
        }
        Ok(())
    }

    fn iterate(&mut self) -> (r: Result<(), Unsupported>) {
        let mut walk = Walk::new(&self.pacer);
        let result = self.engine.iterate(&mut walk);
        proof {
            self.log@ = self.log@.push(Step::Iterate { ok: result.is_ok() });
            let made = seq![Step::Iterate { ok: result.is_ok() }];
            assert(self.taken() =~= old(self).taken() + made);
            assert(applied(
                old(self).works_in(),
                CommandView::Iterate,
                made,
                Tally::zero(),
                result.is_ok(),
            ));
        }
        result
    }

    fn eviction_counters(&self) -> (counters: Option<Arc<EvictionCounters>>)
        ensures
            counters == self.counters(),
    {
        match &self.eviction_counters {
            Some(counters) => Some(Arc::clone(counters)),
            None => None,
        }
    }
}

} // verus!
