//! What a driver asks of its engine, step by step.
//!
//! An engine decides for itself what it holds, so a driver cannot say what
//! its lookups will find. What it can say is which primitives it calls, in
//! which order and with which arguments, whatever the engine answers: the
//! steps of each command are written down here as a function of the
//! engine's answers.

use crate::cache::init::{init_type_of, InitClosureType, InitOutcome};
use crate::cache::{policy_weight, value_bytes, Key, Tally};
use crate::config::Config;
use crate::parser::EntryView;
use crate::span::Span;
use crate::CommandView;
use vstd::prelude::*;

verus! {

/// One step of a driver: a call of an engine primitive with what it was
/// given and what it answered, or a wait.
pub enum Step {
    /// The key was looked up, and found or not.
    Get { key: Key, hit: bool },
    /// The insertion delay was waited out.
    Pause { delay: Span },
    /// A value of this weight and these bytes was stored under the key.
    Insert { key: Key, weight: u32, bytes: Seq<u8> },
    /// The key was looked up with the initializer of request `req_id`;
    /// there is no outcome where the engine has no such lookup.
    GetWith { key: Key, req_id: usize, outcome: Option<InitOutcome> },
    /// The key was to be removed, and was unless the engine cannot.
    Invalidate { key: Key, ok: bool },
    /// All entries were to be removed, and were unless the engine cannot.
    InvalidateAll { ok: bool },
    /// The entries whose value begins with `first_byte` were to be removed,
    /// and were unless the engine cannot.
    InvalidateEntriesIf { first_byte: u8, ok: bool },
    /// The entries were to be walked, and were unless the engine cannot.
    Iterate { ok: bool },
}

/// What of a configuration a driver's steps depend on.
pub struct Setting {
    pub size_aware: bool,
    pub insertion_delay: Option<Span>,
}

/// The setting of a configuration.
pub open spec fn setting_of(config: Config) -> Setting {
    Setting { size_aware: config.size_aware, insertion_delay: config.insertion_delay }
}

/// The request id that follows `id`: one more, and 0 after the last.
pub open spec fn next_id(id: usize) -> usize {
    if id == usize::MAX {
        0
    } else {
        (id + 1) as usize
    }
}

/// The request id of the key `offset` places into an entry whose first key
/// is request `first`.
pub open spec fn request_id(first: usize, offset: nat) -> usize
    decreases offset,
{
    if offset == 0 {
        first
    } else {
        next_id(request_id(first, (offset - 1) as nat))
    }
}

/// Request ids go round the whole of `usize`: the id `offset` places on is
/// the sum, taken modulo the number of ids.
pub proof fn lemma_request_id_wraps(first: usize, offset: nat)
    ensures
        request_id(first, offset) == (first + offset) % (usize::MAX + 1),
    decreases offset,
{
    let ids = (usize::MAX + 1) as nat;
    if offset == 0 {
        assert(first as int % ids as int == first) by (nonlinear_arith)
            requires
                0 <= first < ids,
        {
        }
    } else {
        let before = (first + offset - 1) as nat;
        lemma_request_id_wraps(first, (offset - 1) as nat);
        crate::cadence::lemma_due_every_period(ids, before);
        assert(request_id(first, (offset - 1) as nat) == crate::cadence::count_after(ids, before));
        assert(request_id(first, offset) == crate::cadence::count_after(ids, before + 1));
    }
}

/// The key `offset` places into an entry.
pub open spec fn key_at(entry: EntryView, offset: nat) -> Key {
    (entry.start + offset) as usize
}

/// The steps of inserting the value of `key` for request `req_id`: the
/// insertion delay, where one is set, then the insert.
pub open spec fn insert_steps(setting: Setting, key: Key, req_id: usize) -> Seq<Step> {
    let insert = Step::Insert {
        key,
        weight: policy_weight(setting.size_aware, req_id),
        bytes: value_bytes(key),
    };
    match setting.insertion_delay {
        Some(delay) => seq![Step::Pause { delay }, insert],
        None => seq![insert],
    }
}

/// The steps of looking up the first keys of an entry, as many as there are
/// answers: each key is looked up, and inserted where it was not found.
pub open spec fn lookup_steps(setting: Setting, entry: EntryView, hits: Seq<bool>) -> Seq<Step>
    decreases hits.len(),
{
    if hits.len() == 0 {
        Seq::empty()
    } else {
        let offset = (hits.len() - 1) as nat;
        let key = key_at(entry, offset);
        let before = lookup_steps(setting, entry, hits.drop_last());
        if hits.last() {
            before.push(Step::Get { key, hit: true })
        } else {
            before.push(Step::Get { key, hit: false }) + insert_steps(
                setting,
                key,
                request_id(entry.line_number, offset),
            )
        }
    }
}

/// What is counted for some lookups: a hit for every key found, a miss and
/// an insert for every other.
pub open spec fn lookup_tally(hits: Seq<bool>) -> Tally
    decreases hits.len(),
{
    if hits.len() == 0 {
        Tally::zero()
    } else if hits.last() {
        lookup_tally(hits.drop_last()).plus(Tally { inserted: 0, hits: 1, misses: 0 })
    } else {
        lookup_tally(hits.drop_last()).plus(Tally { inserted: 1, hits: 0, misses: 1 })
    }
}

/// The steps of inserting the first `done` keys of an entry.
pub open spec fn update_steps(setting: Setting, entry: EntryView, done: nat) -> Seq<Step>
    decreases done,
{
    if done == 0 {
        Seq::empty()
    } else {
        let offset = (done - 1) as nat;
        update_steps(setting, entry, offset) + insert_steps(
            setting,
            key_at(entry, offset),
            request_id(entry.line_number, offset),
        )
    }
}

/// The steps of looking up the first keys of an entry through the
/// single-flight initializer, as many as there are outcomes.
pub open spec fn once_steps(entry: EntryView, outcomes: Seq<InitOutcome>) -> Seq<Step>
    decreases outcomes.len(),
{
    if outcomes.len() == 0 {
        Seq::empty()
    } else {
        let offset = (outcomes.len() - 1) as nat;
        once_steps(entry, outcomes.drop_last()).push(
            Step::GetWith {
                key: key_at(entry, offset),
                req_id: request_id(entry.line_number, offset),
                outcome: Some(outcomes.last()),
            },
        )
    }
}

/// What is counted for one lookup through the single-flight initializer: a
/// hit where the key was found; a miss otherwise, with an insert where the
/// engine stored a value and the key's initializer is one that makes a
/// value.
pub open spec fn once_count(key: Key, outcome: InitOutcome) -> Tally {
    match outcome {
        InitOutcome::Found => Tally { inserted: 0, hits: 1, misses: 0 },
        InitOutcome::Inserted => if init_type_of(key as int) == InitClosureType::GetOrInsert {
            Tally { inserted: 1, hits: 0, misses: 1 }
        } else {
            Tally { inserted: 0, hits: 0, misses: 1 }
        },
        InitOutcome::Failed => Tally { inserted: 0, hits: 0, misses: 1 },
    }
}

/// A lookup of a key whose initializer fails on purpose counts one read and
/// never an insert, whatever the engine answers.
pub proof fn lemma_failing_initializer_inserts_nothing(key: Key, outcome: InitOutcome)
    requires
        init_type_of(key as int) != InitClosureType::GetOrInsert,
    ensures
        once_count(key, outcome).inserted == 0,
        once_count(key, outcome).reads() == 1,
        once_count(key, outcome).hits == 1 <==> outcome == InitOutcome::Found,
{
}

/// What is counted for some lookups through the single-flight initializer.
pub open spec fn once_tally(entry: EntryView, outcomes: Seq<InitOutcome>) -> Tally
    decreases outcomes.len(),
{
    if outcomes.len() == 0 {
        Tally::zero()
    } else {
        once_tally(entry, outcomes.drop_last()).plus(
            once_count(key_at(entry, (outcomes.len() - 1) as nat), outcomes.last()),
        )
    }
}

/// The steps of removing the first `done` keys of an entry.
pub open spec fn invalidate_steps(entry: EntryView, done: nat) -> Seq<Step>
    decreases done,
{
    if done == 0 {
        Seq::empty()
    } else {
        invalidate_steps(entry, (done - 1) as nat).push(
            Step::Invalidate { key: key_at(entry, (done - 1) as nat), ok: true },
        )
    }
}

/// The byte that the values of a key begin with.
pub open spec fn first_byte_of(key: Key) -> u8 {
    (key % 256) as u8
}

/// The steps of removing by predicate for the first `done` keys of an
/// entry.
pub open spec fn invalidate_if_steps(entry: EntryView, done: nat) -> Seq<Step>
    decreases done,
{
    if done == 0 {
        Seq::empty()
    } else {
        invalidate_if_steps(entry, (done - 1) as nat).push(
            Step::InvalidateEntriesIf {
                first_byte: first_byte_of(key_at(entry, (done - 1) as nat)),
                ok: true,
            },
        )
    }
}

/// `made` and `tally` are the steps and the counts of looking up every key
/// of the entry, for some answers of the engine.
pub open spec fn lookup_applied(
    setting: Setting,
    entry: EntryView,
    made: Seq<Step>,
    tally: Tally,
) -> bool {
    exists|hits: Seq<bool>|
        hits.len() == entry.len() && made == #[trigger] lookup_steps(setting, entry, hits) && tally
            == lookup_tally(hits)
}

/// `made` and `tally` are the steps and the counts of looking up the keys
/// of the entry through the single-flight initializer, for some answers of
/// the engine: every key where `ok`, the keys up to the first that the
/// engine refused, with nothing counted, otherwise.
pub open spec fn once_applied(entry: EntryView, made: Seq<Step>, tally: Tally, ok: bool) -> bool {
    exists|outcomes: Seq<InitOutcome>|
        if ok {
            outcomes.len() == entry.len() && made == #[trigger] once_steps(entry, outcomes)
                && tally == once_tally(entry, outcomes)
        } else {
            outcomes.len() < entry.len() && made == (#[trigger] once_steps(entry, outcomes)).push(
                Step::GetWith {
                    key: key_at(entry, outcomes.len()),
                    req_id: request_id(entry.line_number, outcomes.len()),
                    outcome: None,
                },
            ) && tally == Tally::zero()
        }
}

/// `made` are the steps of removing the keys of the entry: every key where
/// `ok`, the keys up to the first that the engine refused otherwise.
pub open spec fn invalidate_applied(entry: EntryView, made: Seq<Step>, ok: bool) -> bool {
    exists|done: nat|
        if ok {
            done == entry.len() && made == #[trigger] invalidate_steps(entry, done)
        } else {
            done < entry.len() && made == (#[trigger] invalidate_steps(entry, done)).push(
                Step::Invalidate { key: key_at(entry, done), ok: false },
            )
        }
}

/// `made` are the steps of removing by predicate for the keys of the entry:
/// every key where `ok`, the keys up to the first that the engine refused
/// otherwise.
pub open spec fn invalidate_if_applied(entry: EntryView, made: Seq<Step>, ok: bool) -> bool {
    exists|done: nat|
        if ok {
            done == entry.len() && made == #[trigger] invalidate_if_steps(entry, done)
        } else {
            done < entry.len() && made == (#[trigger] invalidate_if_steps(entry, done)).push(
                Step::InvalidateEntriesIf {
                    first_byte: first_byte_of(key_at(entry, done)),
                    ok: false,
                },
            )
        }
}

/// `made` and `tally` are the steps and the counts of applying the command,
/// with success or not as `ok` says, for some answers of the engine.
pub open spec fn applied(
    setting: Setting,
    command: CommandView,
    made: Seq<Step>,
    tally: Tally,
    ok: bool,
) -> bool {
    match command {
        CommandView::GetOrInsert(e) => ok && lookup_applied(setting, e, made, tally),
        CommandView::GetOrInsertOnce(e) => once_applied(e, made, tally, ok),
        CommandView::Update(e) => ok && made == update_steps(setting, e, e.len()) && tally == (Tally {
            inserted: e.len(),
            hits: 0,
            misses: 0,
        }),
        CommandView::Invalidate(e) => invalidate_applied(e, made, ok) && tally == Tally::zero(),
        CommandView::InvalidateAll => made == seq![Step::InvalidateAll { ok }]
            && tally == Tally::zero(),
        CommandView::InvalidateEntriesIf(e) => invalidate_if_applied(e, made, ok) && tally
            == Tally::zero(),
        CommandView::Iterate => made == seq![Step::Iterate { ok }] && tally
            == Tally::zero(),
    }
}

/// The steps of several commands, one after the other.
pub open spec fn all_steps(parts: Seq<Seq<Step>>) -> Seq<Step>
    decreases parts.len(),
{
    if parts.len() == 0 {
        Seq::empty()
    } else {
        all_steps(parts.drop_last()) + parts.last()
    }
}

/// The counts of several commands, added up.
pub open spec fn all_counts(tallies: Seq<Tally>) -> Tally
    decreases tallies.len(),
{
    if tallies.len() == 0 {
        Tally::zero()
    } else {
        all_counts(tallies.drop_last()).plus(tallies.last())
    }
}

/// Whether the `i`-th of `len` commands succeeded, in a batch whose
/// commands all succeeded but perhaps the last, which did as `ok` says.
pub open spec fn succeeded(ok: bool, i: int, len: int) -> bool {
    ok || i + 1 < len
}

/// `parts` and `tallies` are, command by command, the steps and the counts
/// of applying the commands, all of them with success but for the last,
/// which succeeded or not as `ok` says.
pub open spec fn batch_applied(
    setting: Setting,
    commands: Seq<CommandView>,
    parts: Seq<Seq<Step>>,
    tallies: Seq<Tally>,
    ok: bool,
) -> bool {
    &&& parts.len() == commands.len()
    &&& tallies.len() == commands.len()
    &&& commands.len() == 0 ==> ok
    &&& forall|i: int|
        0 <= i < commands.len() ==> #[trigger] applied(
            setting,
            commands[i],
            parts[i],
            tallies[i],
            succeeded(ok, i, commands.len() as int),
        )
}

/// Lookups count every key once, as a hit or as a miss, and insert what
/// they miss.
pub proof fn lemma_lookup_tally(hits: Seq<bool>)
    ensures
        lookup_tally(hits).reads() == hits.len(),
        lookup_tally(hits).inserted == lookup_tally(hits).misses,
    decreases hits.len(),
{
    if hits.len() > 0 {
        lemma_lookup_tally(hits.drop_last());
    }
}

/// Lookups through the single-flight initializer count every key once, as a
/// hit or as a miss, and insert no more than they miss, nor more than there
/// are keys whose initializer makes a value.
pub proof fn lemma_once_tally(entry: EntryView, outcomes: Seq<InitOutcome>)
    requires
        entry.start + outcomes.len() <= usize::MAX,
    ensures
        once_tally(entry, outcomes).reads() == outcomes.len(),
        once_tally(entry, outcomes).inserted <= once_tally(entry, outcomes).misses,
        once_tally(entry, outcomes).inserted <= crate::cache::init::succeeding_keys(
            entry.start as int,
            entry.start + outcomes.len(),
        ),
    decreases outcomes.len(),
{
    if outcomes.len() > 0 {
        lemma_once_tally(entry, outcomes.drop_last());
    }
}

} // verus!
