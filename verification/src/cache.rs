//! The driver interface between the harness and a cache engine, and what
//! every driver shares: the synthetic values, the per-command counters and
//! the dispatch of commands.

use crate::config::Config;
use crate::eviction_counters::EvictionCounters;
use crate::parser::{EntryView, TraceEntry};
use crate::cache::steps::{applied, Setting, Step};
use crate::report::{Counts, Report};
use crate::{command_views, Command, CommandView};
use std::sync::Arc;
use vstd::bytes::{spec_u64_to_le_bytes, u64_to_le_bytes};
use vstd::prelude::*;

pub mod engine;
pub mod hashlink_driver;
pub mod init;
pub mod mini_moka_driver;
pub mod moka_driver;
pub mod quick_cache_driver;
pub mod steps;
pub mod stretto_driver;

verus! {

pub type Key = usize;

/// Length of a synthetic value in bytes.
pub const VALUE_LEN: usize = 128;

/// The seed of every hash the harness takes.
pub const HASH_SEED_KEY: u64 = 982922761776577566;

/// The least weight of a value where entries are weighed.
pub const MIN_WEIGHT: u32 = 4;

/// A synthetic value: its weight in the engine's capacity (0 where entries
/// are not weighed) and its bytes.
#[derive(Debug)]
pub struct Value {
    pub weight: u32,
    pub bytes: Vec<u8>,
}

/// The 64-bit XXH3 hash of `input` under `seed`.
pub uninterp spec fn xxh3_64_with_seed(input: Seq<u8>, seed: u64) -> u64;

/// `xxhash_rust::xxh3::xxh3_64_with_seed` hashes the bytes it is given under
/// the seed it is given, and nothing else enters the result.
pub assume_specification[ xxhash_rust::xxh3::xxh3_64_with_seed ](input: &[u8], seed: u64) -> (hash:
    u64)
    ensures
        hash == xxh3_64_with_seed(input@, seed),
;

/// The bytes of the value stored under `key`: the key's low byte, then
/// zeros.
pub open spec fn value_bytes(key: usize) -> Seq<u8> {
    Seq::new(VALUE_LEN as nat, |i: int| if i == 0 { (key % 256) as u8 } else { 0u8 })
}

/// The weight that a hash stands for: its low 16 bits, but at least
/// `MIN_WEIGHT`.
pub open spec fn weight_of_hash(hash: u64) -> u32 {
    if hash % 65536 < MIN_WEIGHT {
        MIN_WEIGHT
    } else {
        (hash % 65536) as u32
    }
}

/// The hash of a request id: that of the id's eight little-endian bytes.
pub open spec fn request_hash(req_id: usize) -> u64 {
    xxh3_64_with_seed(spec_u64_to_le_bytes(req_id as u64), HASH_SEED_KEY)
}

/// The weight of the value made for request `req_id`.
pub open spec fn policy_weight(size_aware: bool, req_id: usize) -> u32 {
    if size_aware {
        weight_of_hash(request_hash(req_id))
    } else {
        0
    }
}

/// The weight that a hash stands for, between `MIN_WEIGHT` and 65535.
pub fn weight_from_hash(hash: u64) -> (weight: u32)
    ensures
        weight == weight_of_hash(hash),
        MIN_WEIGHT <= weight < 65536,
{
    let low = (hash % 65536) as u32;
    if low < MIN_WEIGHT {
        MIN_WEIGHT
    } else {
        low
    }
}

/// The bytes of the value stored under `key`.
pub fn do_make_value(key: usize) -> (bytes: Vec<u8>)
    ensures
        bytes@ == value_bytes(key),
{
    let mut value = vec![0u8; VALUE_LEN];
    value.set(0, (key % 256) as u8);
    assert(value@ =~= value_bytes(key));
    value
}

/// The value inserted under `key` for request `req_id`: weighed by the
/// request's hash where the run is size aware, weightless otherwise.
pub fn make_value(config: &Config, key: usize, req_id: usize) -> (value: Value)
    ensures
        value.weight == policy_weight(config.size_aware, req_id),
        value.bytes@ == value_bytes(key),
{
    let policy_weight = if config.size_aware {
        let id_bytes = u64_to_le_bytes(req_id as u64);
        weight_from_hash(xxhash_rust::xxh3::xxh3_64_with_seed(id_bytes.as_slice(), HASH_SEED_KEY))
    } else {
        0
    };
    Value { weight: policy_weight, bytes: do_make_value(key) }
}

/// Whether a stored value is one that the key with low byte `first_byte`
/// gets: the predicate by which entries are invalidated.
pub fn value_matches(bytes: &[u8], first_byte: u8) -> (matches: bool)
    ensures
        matches == (bytes@.len() > 0 && bytes@[0] == first_byte),
{
    bytes.len() > 0 && bytes[0] == first_byte
}

/// What was counted while one command was applied.
pub struct Tally {
    /// Values inserted.
    pub inserted: nat,
    /// Lookups that found their key.
    pub hits: nat,
    /// Lookups that did not.
    pub misses: nat,
}

impl Tally {
    /// Nothing counted.
    pub open spec fn zero() -> Tally {
        Tally { inserted: 0, hits: 0, misses: 0 }
    }

    /// Count by count, the sum of two.
    pub open spec fn plus(self, other: Tally) -> Tally {
        Tally {
            inserted: self.inserted + other.inserted,
            hits: self.hits + other.hits,
            misses: self.misses + other.misses,
        }
    }

    /// The lookups counted: every one is a hit or a miss.
    pub open spec fn reads(self) -> nat {
        self.hits + self.misses
    }

    /// The tally as counts of a report.
    pub open spec fn counts(self) -> Counts {
        Counts {
            insert: self.inserted as int,
            read: self.reads() as int,
            hit: self.hits as int,
            invalidation: 0,
            eviction: 0,
            expiration: 0,
        }
    }
}

/// `after` is `before` with the tally added: inserts to inserts, hits and
/// misses to reads, hits to hits; all else as it was.
pub open spec fn counted(before: &Report, after: &Report, tally: Tally) -> bool {
    &&& after.counts() == before.counts().plus(tally.counts())
    &&& after.same_heading(before)
}

/// The counts of one command, folded into the worker's report when the
/// command is done.
pub struct Counters {
    insert_count: u64,
    read_count: u64,
    hit_count: u64,
}

impl View for Counters {
    type V = Tally;

    closed spec fn view(&self) -> Tally {
        Tally {
            inserted: self.insert_count as nat,
            hits: self.hit_count as nat,
            misses: (self.read_count - self.hit_count) as nat,
        }
    }
}

impl Counters {
    #[verifier::type_invariant]
    spec fn hits_are_reads(self) -> bool {
        self.hit_count <= self.read_count
    }

    /// Counters that have counted nothing.
    pub fn new() -> (counters: Counters)
        ensures
            counters@ == (Tally { inserted: 0, hits: 0, misses: 0 }),
    {
        Counters { insert_count: 0, read_count: 0, hit_count: 0 }
    }

    /// Counts one inserted value.
    pub fn inserted(&mut self)
        requires
            old(self)@.inserted < u64::MAX,
        ensures
            final(self)@ == (Tally { inserted: old(self)@.inserted + 1, ..old(self)@ }),
    {
        proof {
            use_type_invariant(&*self);
        }
        self.insert_count += 1;
    }

    /// Counts one lookup that found its key.
    pub fn read_hit(&mut self)
        requires
            old(self)@.reads() < u64::MAX,
        ensures
            final(self)@ == (Tally { hits: old(self)@.hits + 1, ..old(self)@ }),
    {
        proof {
            use_type_invariant(&*self);
        }
        self.read_count += 1;
        self.hit_count += 1;
    }

    /// Counts one lookup that did not find its key.
    pub fn read_missed(&mut self)
        requires
            old(self)@.reads() < u64::MAX,
        ensures
            final(self)@ == (Tally { misses: old(self)@.misses + 1, ..old(self)@ }),
    {
        proof {
            use_type_invariant(&*self);
        }
        self.read_count += 1;
    }

    /// Counts one lookup that inserts what it misses: a hit where the key
    /// was found, a miss and an insert where it was not.
    pub fn count_lookup(&mut self, hit: bool)
        requires
            old(self)@.reads() < u64::MAX,
            old(self)@.inserted < u64::MAX,
        ensures
            final(self)@ == old(self)@.plus(
                if hit {
                    Tally { inserted: 0, hits: 1, misses: 0 }
                } else {
                    Tally { inserted: 1, hits: 0, misses: 1 }
                },
            ),
    {
        if hit {
            self.read_hit();
        } else {
            self.inserted();
            self.read_missed();
        }
    }

    /// Counts one lookup of `key` through the single-flight initializer: a
    /// hit where the key was found, a miss otherwise, and an insert where a
    /// value was stored and the key's initializer is one that makes a value.
    pub fn count_once(&mut self, key: Key, outcome: init::InitOutcome)
        requires
            old(self)@.reads() < u64::MAX,
            old(self)@.inserted < u64::MAX,
        ensures
            final(self)@ == old(self)@.plus(steps::once_count(key, outcome)),
    {
        match (outcome, init::InitClosureType::select(key)) {
            (init::InitOutcome::Found, _) => {
                self.read_hit();
            },
            (init::InitOutcome::Inserted, init::InitClosureType::GetOrInsert) => {
                self.inserted();
                self.read_missed();
            },
            _ => {
                self.read_missed();
            },
        }
    }

    /// Adds what was counted to the report.
    pub fn add_to_report(&self, report: &mut Report)
        requires
            old(report).counts().plus(self@.counts()).fits(),
        ensures
            counted(old(report), final(report), self@),
            old(report).consistent() ==> final(report).consistent(),
    {
        proof {
            use_type_invariant(self);
        }
        report.insert_count += self.insert_count;
        report.read_count += self.read_count;
        report.hit_count += self.hit_count;
    }
}

/// Adding a tally keeps hits within reads, and the reads it adds are its
/// hits and its misses together.
pub proof fn lemma_counted_consistent(before: &Report, after: &Report, tally: Tally)
    requires
        before.consistent(),
        counted(before, after, tally),
    ensures
        after.consistent(),
        after.read_count - before.read_count == tally.hits + tally.misses,
        after.hit_count - before.hit_count == tally.hits,
        after.missed_count() - before.missed_count() == tally.misses,
{
}

/// The report can take `n` more inserts, reads and hits.
pub open spec fn has_room(report: &Report, n: nat) -> bool {
    &&& report.insert_count + n <= u64::MAX
    &&& report.read_count + n <= u64::MAX
    &&& report.hit_count + n <= u64::MAX
}

/// Whether the report can take `n` more inserts, reads and hits.
pub fn has_room_for(report: &Report, n: u64) -> (room: bool)
    ensures
        room == has_room(report, n as nat),
{
    n <= u64::MAX - report.insert_count && n <= u64::MAX - report.read_count && n <= u64::MAX
        - report.hit_count
}

/// An engine does not offer the operation that a command asks for.
#[derive(Clone, Copy, Debug, PartialEq, Eq, Structural)]
pub struct Unsupported;

/// The driver went from the steps `before` to the steps `after`, and the
/// report from `report_before` to `report_after`, by applying the command:
/// it took the command's steps and counted the command's counts, for some
/// answers of the engine.
pub open spec fn driven(
    before: Seq<Step>,
    after: Seq<Step>,
    report_before: &Report,
    report_after: &Report,
    setting: Setting,
    command: CommandView,
    ok: bool,
) -> bool {
    exists|made: Seq<Step>, tally: Tally| #[trigger]
        applied(setting, command, made, tally, ok) && after == before + made && counted(
            report_before,
            report_after,
            tally,
        )
}

/// The driver went from the steps `before` to the steps `after` by applying
/// a command that counts nothing.
pub open spec fn driven_quietly(
    before: Seq<Step>,
    after: Seq<Step>,
    setting: Setting,
    command: CommandView,
    ok: bool,
) -> bool {
    exists|made: Seq<Step>| #[trigger]
        applied(setting, command, made, Tally::zero(), ok) && after == before + made
}

/// What the harness asks of a cache engine. A driver applies each operation
/// to every key of the entry, in order, and counts into the report; an
/// operation that its engine does not offer is answered with `Unsupported`
/// and counts nothing.
pub trait CacheDriver {
    /// The steps the driver has taken.
    spec fn steps(&self) -> Seq<Step>;

    /// The setting the driver works in.
    spec fn setting(&self) -> Setting;

    /// Looks every key up and inserts a value where the key is missing.
    fn get_or_insert(&mut self, entry: &TraceEntry, report: &mut Report)
        requires
            has_room(old(report), entry@.len()),
        ensures
            final(self).setting() == old(self).setting(),
            driven(
                old(self).steps(),
                final(self).steps(),
                old(report),
                final(report),
                old(self).setting(),
                CommandView::GetOrInsert(entry@),
                true,
            ),
    ;

    /// Looks every key up through the engine's single-flight initializer,
    /// which fails on purpose for the keys that `InitClosureType::select`
    /// routes to an error.
    fn get_or_insert_once(&mut self, entry: &TraceEntry, report: &mut Report) -> (r: Result<
        (),
        Unsupported,
    >)
        requires
            has_room(old(report), entry@.len()),
        ensures
            final(self).setting() == old(self).setting(),
            driven(
                old(self).steps(),
                final(self).steps(),
                old(report),
                final(report),
                old(self).setting(),
                CommandView::GetOrInsertOnce(entry@),
                r.is_ok(),
            ),
    ;

    /// Inserts a value for every key, present or not.
    fn update(&mut self, entry: &TraceEntry, report: &mut Report)
        requires
            has_room(old(report), entry@.len()),
        ensures
            final(self).setting() == old(self).setting(),
            driven(
                old(self).steps(),
                final(self).steps(),
                old(report),
                final(report),
                old(self).setting(),
                CommandView::Update(entry@),
                true,
            ),
    ;

    /// Removes every key that is present.
    fn invalidate(&mut self, entry: &TraceEntry) -> (r: Result<(), Unsupported>)
        ensures
            final(self).setting() == old(self).setting(),
            driven_quietly(
                old(self).steps(),
                final(self).steps(),
                old(self).setting(),
                CommandView::Invalidate(entry@),
                r.is_ok(),
            ),
    ;

    /// Clears the engine.
    fn invalidate_all(&mut self) -> (r: Result<(), Unsupported>)
        ensures
            final(self).setting() == old(self).setting(),
            driven_quietly(
                old(self).steps(),
                final(self).steps(),
                old(self).setting(),
                CommandView::InvalidateAll,
                r.is_ok(),
            ),
    ;

    /// Removes every entry whose value is one that a key of the range gets.
    fn invalidate_entries_if(&mut self, entry: &TraceEntry) -> (r: Result<(), Unsupported>)
        ensures
            final(self).setting() == old(self).setting(),
            driven_quietly(
                old(self).steps(),
                final(self).steps(),
                old(self).setting(),
                CommandView::InvalidateEntriesIf(entry@),
                r.is_ok(),
            ),
    ;

    /// Walks every entry once.
    fn iterate(&mut self) -> (r: Result<(), Unsupported>)
        ensures
            final(self).setting() == old(self).setting(),
            driven_quietly(
                old(self).steps(),
                final(self).steps(),
                old(self).setting(),
                CommandView::Iterate,
                r.is_ok(),
            ),
    ;

    /// The engine's eviction counters, where it keeps any.
    fn eviction_counters(&self) -> Option<Arc<EvictionCounters>>;
}

/// The keys that a command looks up.
pub open spec fn command_lookups(command: CommandView) -> nat {
    match command {
        CommandView::GetOrInsert(e) => e.len(),
        CommandView::GetOrInsertOnce(e) => e.len(),
        _ => 0,
    }
}

/// The keys that a command inserts without looking them up.
pub open spec fn command_updates(command: CommandView) -> nat {
    match command {
        CommandView::Update(e) => e.len(),
        _ => 0,
    }
}

/// The keys that a batch of commands looks up.
pub open spec fn lookups(commands: Seq<CommandView>) -> nat
    decreases commands.len(),
{
    if commands.len() == 0 {
        0
    } else {
        lookups(commands.drop_last()) + command_lookups(commands.last())
    }
}

/// The keys that a batch of commands inserts without looking them up.
pub open spec fn updates(commands: Seq<CommandView>) -> nat
    decreases commands.len(),
{
    if commands.len() == 0 {
        0
    } else {
        updates(commands.drop_last()) + command_updates(commands.last())
    }
}

/// The keys that a batch of commands looks up or updates, if they can be
/// counted.
pub fn requests(commands: &Vec<Command>) -> (total: Option<u64>)
    ensures
        total == if lookups(command_views(commands@)) + updates(command_views(commands@))
            <= u64::MAX {
            Some((lookups(command_views(commands@)) + updates(command_views(commands@))) as u64)
        } else {
            None
        },
{
    let ghost views = command_views(commands@);
    let mut total: u64 = 0;
    let mut i: usize = 0;
    assert(views.take(0) =~= Seq::<CommandView>::empty());
    while i < commands.len()
        invariant
            i <= commands@.len(),
            views == command_views(commands@),
            total == lookups(views.take(i as int)) + updates(views.take(i as int)),
        decreases commands@.len() - i,
    {
        proof {
            lemma_requests_monotone(views, i + 1);
            assert(views.take(i + 1).drop_last() =~= views.take(i as int));
            assert(views.take(i + 1).last() == commands@[i as int]@);
        }
        let keys: u64 = match &commands[i] {
            Command::GetOrInsert(entry) | Command::GetOrInsertOnce(entry) | Command::Update(
                entry,
            ) => {
                let range = entry.range();
                (range.end - range.start) as u64
            },
            _ => 0,
        };
        if keys > u64::MAX - total {
            return None;
        }
        total = total + keys;
        i = i + 1;
    }
    assert(views.take(commands@.len() as int) =~= views);
    Some(total)
}

/// Whether the report has room for everything a batch of commands can
/// count.
pub fn can_process(commands: &Vec<Command>, report: &Report) -> (room: bool)
    ensures
        room == has_room(
            report,
            lookups(command_views(commands@)) + updates(command_views(commands@)),
        ),
{
    match requests(commands) {
        Some(total) => has_room_for(report, total),
        None => false,
    }
}

/// The summary of a tally against the first `done` commands of a batch: a
/// read for every key they look up, an insert for every key they update,
/// and at most one more insert for every miss.
pub open spec fn summed_up(tally: Tally, commands: Seq<CommandView>, done: int) -> bool {
    &&& tally.reads() == lookups(commands.take(done))
    &&& updates(commands.take(done)) <= tally.inserted <= updates(commands.take(done))
        + tally.misses
}

/// A batch never looks up or updates fewer keys than a part of it.
pub proof fn lemma_requests_monotone(commands: Seq<CommandView>, done: int)
    requires
        0 <= done <= commands.len(),
    ensures
        lookups(commands.take(done)) <= lookups(commands),
        updates(commands.take(done)) <= updates(commands),
    decreases commands.len() - done,
{
    if done == commands.len() {
        assert(commands.take(done) =~= commands);
    } else {
        lemma_requests_monotone(commands.drop_last(), done);
        assert(commands.drop_last().take(done) =~= commands.take(done));
    }
}

/// What a command counts: a read for every key it looks up, an insert for
/// every key it updates and at most one more for every miss; nothing where
/// the engine refused it.
pub proof fn lemma_applied_counts(
    setting: Setting,
    command: CommandView,
    made: Seq<Step>,
    tally: Tally,
    ok: bool,
)
    requires
        applied(setting, command, made, tally, ok),
    ensures
        ok ==> tally.reads() == command_lookups(command),
        ok ==> command_updates(command) <= tally.inserted <= command_updates(command)
            + tally.misses,
        !ok ==> tally == Tally::zero(),
{
    match command {
        CommandView::GetOrInsert(e) => {
            let hits = choose|hits: Seq<bool>|
                hits.len() == e.len() && made == #[trigger] steps::lookup_steps(setting, e, hits)
                    && tally == steps::lookup_tally(hits);
            steps::lemma_lookup_tally(hits);
        },
        CommandView::GetOrInsertOnce(e) => {
            if ok {
                let outcomes = choose|outcomes: Seq<init::InitOutcome>|
                    outcomes.len() == e.len() && made == #[trigger] steps::once_steps(e, outcomes)
                        && tally == steps::once_tally(e, outcomes);
                steps::lemma_once_tally(e, outcomes);
            }
        },
        _ => {},
    }
}

/// Looking every key of an entry up and inserting the missing ones adds a
/// read for every key, each of them a hit or a miss with its insert, and
/// keeps hits within reads.
pub proof fn lemma_get_or_insert_counts(
    before: Seq<Step>,
    after: Seq<Step>,
    report_before: &Report,
    report_after: &Report,
    setting: Setting,
    entry: EntryView,
)
    requires
        driven(
            before,
            after,
            report_before,
            report_after,
            setting,
            CommandView::GetOrInsert(entry),
            true,
        ),
    ensures
        report_after.read_count == report_before.read_count + entry.len(),
        report_before.hit_count <= report_after.hit_count,
        (report_after.hit_count - report_before.hit_count) + (report_after.insert_count
            - report_before.insert_count) == entry.len(),
        report_after.missed_count() - report_before.missed_count() == report_after.insert_count
            - report_before.insert_count,
        report_before.consistent() ==> report_after.consistent(),
{
    let (made, tally) = choose|made: Seq<Step>, tally: Tally| #[trigger]
        applied(setting, CommandView::GetOrInsert(entry), made, tally, true) && after == before
            + made && counted(report_before, report_after, tally);
    let hits = choose|hits: Seq<bool>|
        hits.len() == entry.len() && made == #[trigger] steps::lookup_steps(setting, entry, hits)
            && tally == steps::lookup_tally(hits);
    steps::lemma_lookup_tally(hits);
}

/// Looking every key of an entry up through the single-flight initializer
/// adds a read for every key where the engine has such a lookup, and no
/// more inserts than there are keys whose initializer makes a value: the
/// initializers that fail on purpose insert nothing.
pub proof fn lemma_get_or_insert_once_counts(
    before: Seq<Step>,
    after: Seq<Step>,
    report_before: &Report,
    report_after: &Report,
    setting: Setting,
    entry: EntryView,
    ok: bool,
)
    requires
        entry.start <= entry.end,
        driven(
            before,
            after,
            report_before,
            report_after,
            setting,
            CommandView::GetOrInsertOnce(entry),
            ok,
        ),
    ensures
        ok ==> report_after.read_count == report_before.read_count + entry.len(),
        ok ==> report_after.insert_count - report_before.insert_count <= init::succeeding_keys(
            entry.start as int,
            entry.end as int,
        ),
        !ok ==> report_after.counts() == report_before.counts(),
        report_before.consistent() ==> report_after.consistent(),
{
    let (made, tally) = choose|made: Seq<Step>, tally: Tally| #[trigger]
        applied(setting, CommandView::GetOrInsertOnce(entry), made, tally, ok) && after == before
            + made && counted(report_before, report_after, tally);
    lemma_applied_counts(setting, CommandView::GetOrInsertOnce(entry), made, tally, ok);
    if ok {
        let outcomes = choose|outcomes: Seq<init::InitOutcome>|
            outcomes.len() == entry.len() && made == #[trigger] steps::once_steps(entry, outcomes)
                && tally == steps::once_tally(entry, outcomes);
        steps::lemma_once_tally(entry, outcomes);
    }
}

/// The driver went from the steps `before` to the steps `after`, and the
/// report from `report_before` to `report_after`, by applying the commands
/// in order, the last of them with success or not as `ok` says.
pub open spec fn batch_driven(
    before: Seq<Step>,
    after: Seq<Step>,
    report_before: &Report,
    report_after: &Report,
    setting: Setting,
    commands: Seq<CommandView>,
    ok: bool,
) -> bool {
    exists|parts: Seq<Seq<Step>>, tallies: Seq<Tally>| #[trigger]
        steps::batch_applied(setting, commands, parts, tallies, ok) && after == before
            + steps::all_steps(parts) && counted(
            report_before,
            report_after,
            steps::all_counts(tallies),
        )
}

/// Applies a batch of commands to the engine, in order, counting into the
/// report.
///
/// The first command that the engine does not support ends the batch: the
/// commands before it have been applied and counted, it has been tried and
/// those behind it have not.
pub fn process_commands<D: CacheDriver>(
    commands: Vec<Command>,
    cache: &mut D,
    report: &mut Report,
) -> (r: Result<(), Unsupported>)
    requires
        has_room(
            old(report),
            lookups(command_views(commands@)) + updates(command_views(commands@)),
        ),
    ensures
        final(cache).setting() == old(cache).setting(),
        r.is_ok() ==> batch_driven(
            old(cache).steps(),
            final(cache).steps(),
            old(report),
            final(report),
            old(cache).setting(),
            command_views(commands@),
            true,
        ),
        r.is_err() ==> exists|done: int|
            0 <= done < commands@.len() && #[trigger] batch_driven(
                old(cache).steps(),
                final(cache).steps(),
                old(report),
                final(report),
                old(cache).setting(),
                command_views(commands@).take(done + 1),
                false,
            ),
        exists|tally: Tally, done: int|
            0 <= done <= commands@.len() && (r.is_ok() ==> done == commands@.len()) && counted(
                old(report),
                final(report),
                tally,
            ) && #[trigger] summed_up(tally, command_views(commands@), done),
        old(report).consistent() ==> final(report).consistent(),
{
    let ghost views = command_views(commands@);
    let ghost setting = cache.setting();
    let ghost first_steps = cache.steps();
    let ghost mut tallies = Seq::<Tally>::empty();
    let ghost mut parts = Seq::<Seq<Step>>::empty();
    let mut i: usize = 0;
    proof {
        assert(views.take(0) =~= Seq::<CommandView>::empty());
        assert(first_steps + steps::all_steps(parts) =~= first_steps);
    }
    while i < commands.len()
        invariant
            i <= commands@.len(),
            views == command_views(commands@),
            setting == old(cache).setting(),
            first_steps == old(cache).steps(),
            cache.setting() == setting,
            has_room(old(report), lookups(views) + updates(views)),
            counted(old(report), report, steps::all_counts(tallies)),
            summed_up(steps::all_counts(tallies), views, i as int),
            cache.steps() == first_steps + steps::all_steps(parts),
            steps::batch_applied(setting, views.take(i as int), parts, tallies, true),
        decreases commands@.len() - i,
    {
        let ghost before = *report;
        let ghost steps_before = cache.steps();
        let ghost command = views[i as int];
        proof {
            lemma_requests_monotone(views, i + 1);
            assert(views.take(i + 1).drop_last() =~= views.take(i as int));
            assert(views.take(i + 1).last() == command);
        }
        let outcome = match &commands[i] {
            Command::GetOrInsert(entry) => {
                cache.get_or_insert(entry, report);
                Ok(())
            },
            Command::GetOrInsertOnce(entry) => cache.get_or_insert_once(entry, report),
            Command::Update(entry) => {
                cache.update(entry, report);
                Ok(())
            },
            Command::Invalidate(entry) => cache.invalidate(entry),
            Command::InvalidateAll => cache.invalidate_all(),
            Command::InvalidateEntriesIf(entry) => cache.invalidate_entries_if(entry),
            Command::Iterate => cache.iterate(),
        };
        proof {
            let ok = outcome.is_ok();
            assert(exists|made: Seq<Step>, tally: Tally| #[trigger]
                applied(setting, command, made, tally, ok) && cache.steps() == steps_before + made
                    && counted(&before, report, tally)) by {
                match command {
                    CommandView::GetOrInsert(_)
                    | CommandView::GetOrInsertOnce(_)
                    | CommandView::Update(_) => {},
                    _ => {
                        let made = choose|made: Seq<Step>| #[trigger]
                            applied(setting, command, made, Tally::zero(), ok) && cache.steps()
                                == steps_before + made;
                        assert(counted(&before, report, Tally::zero()));
                        assert(applied(setting, command, made, Tally::zero(), ok));
                    },
                }
            }
            let (made, tally) = choose|made: Seq<Step>, tally: Tally| #[trigger]
                applied(setting, command, made, tally, ok) && cache.steps() == steps_before + made
                    && counted(&before, report, tally);
            lemma_applied_counts(setting, command, made, tally, ok);
            let old_parts = parts;
            let old_tallies = tallies;
            parts = parts.push(made);
            tallies = tallies.push(tally);
            assert(parts.drop_last() =~= old_parts);
            assert(tallies.drop_last() =~= old_tallies);
            assert(first_steps + steps::all_steps(parts) =~= (first_steps + steps::all_steps(
                old_parts,
            )) + made);
            let upto = views.take(i + 1);
            assert forall|j: int| 0 <= j < upto.len() implies #[trigger] applied(
                setting,
                upto[j],
                parts[j],
                tallies[j],
                steps::succeeded(ok, j, upto.len() as int),
            ) by {
                if j < i {
                    assert(applied(
                        setting,
                        views.take(i as int)[j],
                        old_parts[j],
                        old_tallies[j],
                        steps::succeeded(true, j, i as int),
                    ));
                }
            }
            assert(steps::batch_applied(setting, upto, parts, tallies, ok));
        }
        if outcome.is_err() {
            proof {
                assert(summed_up(steps::all_counts(tallies), views, i as int));
                assert(batch_driven(
                    old(cache).steps(),
                    cache.steps(),
                    old(report),
                    report,
                    setting,
                    views.take(i + 1),
                    false,
                ));
            }
            return outcome;
        }
        i = i + 1;
    }
    proof {
        assert(views.take(commands@.len() as int) =~= views);
    }
    Ok(())
}

} // verus!
