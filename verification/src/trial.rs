//! The parts of a trial that are decided rather than performed: how
//! commands reach the workers, how a trace becomes batches, when a
//! cooperative worker gives way, and how the workers' reports become one.

use crate::cache::{
    batch_driven, can_process, has_room, lookups, process_commands, updates, CacheDriver,
};
use crate::cadence::Cadence;
use crate::config::{Config, RemovalNotificationMode};
use crate::eviction_counters::{EvictionCounters, EvictionCounts};
use crate::load_gen::{
    generate, generate_commands, generate_from, lemma_generate_concat, lemma_generate_counter,
    lemma_generate_stops, trace_lines, Generated,
};
use crate::parser::ParseError;
use crate::report::{Counts, Report, ReportBuilder};
use crate::span::Span;
use crate::{command_views, Command, CommandView, BATCH_SIZE};
use std::sync::Arc;
use vstd::prelude::*;

verus! {

/// How many batches the queue holds in streaming mode.
pub const STREAM_QUEUE_BOUND: usize = 100;

/// After how many batches a cooperative worker gives way.
pub const YIELD_AFTER_BATCHES: u32 = 10_000;

/// By how much the capacity of a size-aware run is multiplied: entries
/// weigh up to 2^16, half of it on average.
pub const WEIGHT_SCALE: u64 = 32_768;

/// How the commands of a trial reach its workers.
#[derive(Clone, Copy, Debug, PartialEq, Eq, Structural)]
pub enum DeliveryMode {
    /// All batches are queued before the workers start.
    Buffered,
    /// Batches are generated while the workers run, through a queue of
    /// `STREAM_QUEUE_BOUND` batches.
    Streaming,
}

/// Whether all commands are generated before the workers start: they are
/// unless telemetry samples the run.
pub fn should_pre_process_all_commands(telemetry: bool) -> (all: bool)
    ensures
        all == !telemetry,
{
    !telemetry
}

impl DeliveryMode {
    /// The mode of a trial.
    pub fn select(telemetry: bool) -> (mode: DeliveryMode)
        ensures
            mode == if telemetry {
                DeliveryMode::Streaming
            } else {
                DeliveryMode::Buffered
            },
    {
        if should_pre_process_all_commands(telemetry) {
            DeliveryMode::Buffered
        } else {
            DeliveryMode::Streaming
        }
    }

    /// How many batches the queue may hold; `None` where it is unbounded.
    pub fn queue_bound(&self) -> (bound: Option<usize>)
        ensures
            bound == match *self {
                DeliveryMode::Buffered => None,
                DeliveryMode::Streaming => Some(STREAM_QUEUE_BOUND),
            },
    {
        match self {
            DeliveryMode::Buffered => None,
            DeliveryMode::Streaming => Some(STREAM_QUEUE_BOUND),
        }
    }
}

/// The capacity an engine is built with for `capacity` entries: the number
/// of entries, scaled by `WEIGHT_SCALE` where entries are weighed.
pub open spec fn max_capacity_of(size_aware: bool, capacity: usize) -> int {
    if size_aware {
        capacity * WEIGHT_SCALE
    } else {
        capacity as int
    }
}

/// The capacity an engine is built with for `capacity` entries.
pub fn max_capacity(config: &Config, capacity: usize) -> (max_cap: u64)
    requires
        max_capacity_of(config.size_aware, capacity) <= u64::MAX,
    ensures
        max_cap == max_capacity_of(config.size_aware, capacity),
{
    if config.size_aware {
        capacity as u64 * WEIGHT_SCALE
    } else {
        capacity as u64
    }
}

/// The engine capacity for `capacity` entries, where it can be counted.
pub fn checked_max_capacity(config: &Config, capacity: usize) -> (max_cap: Option<u64>)
    ensures
        max_cap == if max_capacity_of(config.size_aware, capacity) <= u64::MAX {
            Some(max_capacity_of(config.size_aware, capacity) as u64)
        } else {
            None
        },
{
    if !config.size_aware || capacity as u64 <= u64::MAX / WEIGHT_SCALE {
        Some(max_capacity(config, capacity))
    } else {
        None
    }
}

/// Gives each line its position in the trace, counted from 1.
pub fn number_lines(lines: Vec<String>) -> (numbered: Vec<(usize, String)>)
    ensures
        numbered@.len() == lines@.len(),
        forall|i: int|
            0 <= i < lines@.len() ==> #[trigger] numbered@[i] == ((i + 1) as usize, lines@[i]),
{
    let ghost all = lines@;
    let mut numbered: Vec<(usize, String)> = Vec::with_capacity(lines.len());
    let mut rest = lines;
    let mut tail: Vec<(usize, String)> = Vec::new();
    let mut n: usize = rest.len();
    // Lines are taken from the end, so that none is copied, and put back in
    // order afterwards.
    while n > 0
        invariant
            n == rest@.len(),
            rest@ == all.take(n as int),
            tail@.len() == all.len() - n,
            forall|j: int|
                0 <= j < tail@.len() ==> #[trigger] tail@[j] == (
                    (all.len() - j) as usize,
                    all[all.len() - 1 - j],
                ),
        decreases n,
    {
        let line = rest.pop().unwrap();
        tail.push((n, line));
        n = n - 1;
        assert(rest@ =~= all.take(n as int));
    }
    let mut m: usize = tail.len();
    while m > 0
        invariant
            m == tail@.len(),
            m + numbered@.len() == all.len(),
            forall|j: int|
                0 <= j < tail@.len() ==> #[trigger] tail@[j] == (
                    (all.len() - j) as usize,
                    all[all.len() - 1 - j],
                ),
            forall|i: int|
                0 <= i < numbered@.len() ==> #[trigger] numbered@[i] == ((i + 1) as usize, all[i]),
        decreases m,
    {
        let pair = tail.pop().unwrap();
        numbered.push(pair);
        m = m - 1;
    }
    numbered
}

/// The commands of a sequence of batches, in order.
pub open spec fn flat(batches: Seq<Vec<Command>>) -> Seq<CommandView>
    decreases batches.len(),
{
    if batches.len() == 0 {
        Seq::empty()
    } else {
        flat(batches.drop_last()) + command_views(batches.last()@)
    }
}

/// Where the `k`-th chunk of `BATCH_SIZE` lines begins among `len` lines.
pub open spec fn chunk_start(k: int, len: int) -> int {
    if k * BATCH_SIZE <= len {
        k * BATCH_SIZE
    } else {
        len
    }
}

/// How many chunks `len` lines make.
pub open spec fn chunk_count(len: int) -> int {
    (len + BATCH_SIZE - 1) / (BATCH_SIZE as int)
}

/// The commands of the `k`-th batch of a pass over `lines` that begins with
/// the counter at `counter`: those of the `k`-th chunk of `BATCH_SIZE`
/// lines, generated from where the chunks before it left the counter.
pub open spec fn batch_commands(
    config: Config,
    counter: int,
    lines: Seq<(usize, Seq<u8>)>,
    k: int,
) -> Seq<CommandView> {
    let from = chunk_start(k, lines.len() as int);
    let to = chunk_start(k + 1, lines.len() as int);
    generate(config, generate(config, counter, lines.take(from)).counter, lines.subrange(from, to)).commands
}

/// A run that goes on after `before` adds to what `before` holds exactly
/// what a run of its own from `before`'s counter comes to.
pub proof fn lemma_generate_continues(
    config: Config,
    before: Generated,
    lines: Seq<(usize, Seq<u8>)>,
)
    requires
        before.error.is_none(),
    ensures
        generate_from(config, before, lines) == (Generated {
            commands: before.commands + generate(config, before.counter, lines).commands,
            ..generate(config, before.counter, lines)
        }),
    decreases lines.len(),
{
    let fresh = Generated { commands: Seq::empty(), counter: before.counter, error: None };
    if lines.len() == 0 {
        assert(before.commands + Seq::<CommandView>::empty() =~= before.commands);
    } else {
        lemma_generate_continues(config, before, lines.drop_last());
        let a = generate_from(config, before, lines.drop_last());
        let b = generate_from(config, fresh, lines.drop_last());
        assert(a.commands == before.commands + b.commands);
        let a2 = generate_from(config, before, lines);
        let b2 = generate_from(config, fresh, lines);
        assert(a2.commands =~= before.commands + b2.commands);
    }
}

/// What one pass over the lines comes to, as `generate_batches` answers it:
/// on success a batch for every chunk, each holding the chunk's commands;
/// on a rejected line the batches of the chunks before the one that holds
/// it. The counter stands where the run left it.
pub open spec fn batched_as(
    result: Result<(), ParseError>,
    counter: usize,
    before: Seq<Vec<Command>>,
    after: Seq<Vec<Command>>,
    config: Config,
    first: int,
    lines: Seq<(usize, Seq<u8>)>,
) -> bool {
    let expected = generate(config, first, lines);
    let added = after.len() - before.len();
    &&& counter == expected.counter
    &&& after.take(before.len() as int) == before
    &&& 0 <= added <= chunk_count(lines.len() as int)
    &&& forall|k: int|
        0 <= k < added ==> command_views(#[trigger] after[before.len() + k]@) == batch_commands(
            config,
            first,
            lines,
            k,
        )
    &&& match result {
        Ok(()) => expected.error.is_none() && added == chunk_count(lines.len() as int) && flat(
            after,
        ) == flat(before) + expected.commands,
        Err(e) => expected.error == Some(e),
    }
}

/// Turns one pass over the numbered lines of a trace into batches of
/// commands, one batch for every `BATCH_SIZE` lines, and appends them.
pub fn generate_batches(
    config: &Config,
    lines: &[(usize, String)],
    counter: &mut usize,
    batches: &mut Vec<Vec<Command>>,
) -> (result: Result<(), ParseError>)
    requires
        *old(counter) + lines@.len() <= usize::MAX,
    ensures
        batched_as(
            result,
            *final(counter),
            old(batches)@,
            final(batches)@,
            *config,
            *old(counter) as int,
            trace_lines(lines@),
        ),
{
    let ghost all = trace_lines(lines@);
    let ghost first = *counter as int;
    let ghost start = Generated { commands: Seq::empty(), counter: first, error: None };
    let ghost before = batches@;
    let mut from: usize = 0;
    let ghost mut k: int = 0;
    assert(all.take(0) =~= Seq::<(usize, Seq<u8>)>::empty());
    assert(flat(before) + Seq::<CommandView>::empty() =~= flat(before));
    while from < lines.len()
        invariant
            all == trace_lines(lines@),
            first == *old(counter),
            before == old(batches)@,
            start == (Generated { commands: Seq::empty(), counter: first, error: None }),
            first + lines@.len() <= usize::MAX,
            from <= lines@.len(),
            from == chunk_start(k, lines@.len() as int),
            0 <= k <= chunk_count(lines@.len() as int),
            from == lines@.len() ==> k == chunk_count(lines@.len() as int),
            from < lines@.len() ==> from == k * BATCH_SIZE,
            batches@.len() == before.len() + k,
            batches@.take(before.len() as int) == before,
            generate_from(*config, start, all.take(from as int)).error.is_none(),
            generate_from(*config, start, all.take(from as int)).counter == *counter,
            *counter <= first + from,
            flat(batches@) == flat(before) + generate_from(
                *config,
                start,
                all.take(from as int),
            ).commands,
            forall|j: int|
                0 <= j < k ==> command_views(#[trigger] batches@[before.len() + j]@)
                    == batch_commands(*config, first, all, j),
        decreases lines@.len() - from,
    {
        let to: usize = if lines.len() - from > BATCH_SIZE {
            from + BATCH_SIZE
        } else {
            lines.len()
        };
        let chunk = &lines[from..to];
        let ghost done = generate_from(*config, start, all.take(from as int));
        let ghost part = all.subrange(from as int, to as int);
        proof {
            assert(trace_lines(chunk@) =~= part);
            assert(all.take(to as int) =~= all.take(from as int) + part);
            lemma_generate_concat(*config, start, all.take(from as int), part);
            lemma_generate_continues(*config, done, part);
            lemma_generate_counter(
                *config,
                Generated { commands: Seq::empty(), counter: done.counter, error: None },
                part,
            );
            assert(to == chunk_start(k + 1, lines@.len() as int));
            assert(k + 1 <= chunk_count(lines@.len() as int)) by (nonlinear_arith)
                requires
                    from == k * BATCH_SIZE,
                    from < lines@.len(),
                    BATCH_SIZE == 200,
                    k >= 0,
            {
            }
            assert(to == lines@.len() ==> k + 1 == chunk_count(lines@.len() as int))
                by (nonlinear_arith)
                requires
                    from == k * BATCH_SIZE,
                    from < to,
                    to <= from + BATCH_SIZE,
                    BATCH_SIZE == 200,
                    k >= 0,
            {
            }
        }
        let ghost old_batches = batches@;
        match generate_commands(config, BATCH_SIZE, counter, chunk) {
            Ok(commands) => {
                batches.push(commands);
                proof {
                    assert(batches@.drop_last() =~= old_batches);
                    assert(batches@.take(before.len() as int) =~= old_batches.take(
                        before.len() as int,
                    ));
                    assert(flat(batches@) =~= flat(before) + generate_from(
                        *config,
                        start,
                        all.take(to as int),
                    ).commands);
                    k = k + 1;
                }
            },
            Err(e) => {
                proof {
                    let upto = generate_from(*config, start, all.take(to as int));
                    assert(upto.error == Some(e));
                    assert(all =~= all.take(to as int) + all.skip(to as int));
                    lemma_generate_concat(*config, start, all.take(to as int), all.skip(to as int));
                    lemma_generate_stops(*config, upto, all.skip(to as int));
                }
                return Err(e);
            },
        }
        from = to;
    }
    proof {
        assert(all.take(lines@.len() as int) =~= all);
    }
    Ok(())
}

/// The lines of a trace taken `passes` times over.
pub open spec fn repeated(lines: Seq<(usize, Seq<u8>)>, passes: nat) -> Seq<(usize, Seq<u8>)>
    decreases passes,
{
    if passes == 0 {
        Seq::empty()
    } else {
        repeated(lines, (passes - 1) as nat) + lines
    }
}

/// The commands of each of some batches.
pub open spec fn batch_views(batches: Seq<Vec<Command>>) -> Seq<Seq<CommandView>> {
    Seq::new(batches.len(), |i: int| command_views(batches[i]@))
}

/// The batches of one pass over `lines` that begins with the counter at
/// `counter`: one for every chunk of `BATCH_SIZE` lines.
pub open spec fn pass_batches(config: Config, counter: int, lines: Seq<(usize, Seq<u8>)>) -> Seq<
    Seq<CommandView>,
> {
    Seq::new(
        chunk_count(lines.len() as int) as nat,
        |k: int| batch_commands(config, counter, lines, k),
    )
}

/// The batches of `passes` passes over `lines`: those of each pass in turn,
/// each pass beginning with the counter where the passes before left it.
pub open spec fn replay_batches(config: Config, lines: Seq<(usize, Seq<u8>)>, passes: nat) -> Seq<
    Seq<CommandView>,
>
    decreases passes,
{
    if passes == 0 {
        Seq::empty()
    } else {
        replay_batches(config, lines, (passes - 1) as nat) + pass_batches(
            config,
            generate(config, 0, repeated(lines, (passes - 1) as nat)).counter,
            lines,
        )
    }
}

/// How many times a run replays its trace: once unless it says otherwise.
pub open spec fn passes_of(config: Config) -> nat {
    match config.repeat {
        Some(n) => n as nat,
        None => 1,
    }
}

/// Turns the whole run into batches: the trace is replayed as many times
/// as the run says, the counter going on from pass to pass.
pub fn generate_all_batches(config: &Config, lines: &[(usize, String)]) -> (result: Result<
    Vec<Vec<Command>>,
    ParseError,
>)
    requires
        passes_of(*config) * lines@.len() <= usize::MAX,
    ensures
        match result {
            Ok(batches) => {
                &&& generate(
                    *config,
                    0,
                    repeated(trace_lines(lines@), passes_of(*config)),
                ).error.is_none()
                &&& flat(batches@) == generate(
                    *config,
                    0,
                    repeated(trace_lines(lines@), passes_of(*config)),
                ).commands
                &&& batch_views(batches@) == replay_batches(
                    *config,
                    trace_lines(lines@),
                    passes_of(*config),
                )
                &&& batches@.len() == passes_of(*config) * chunk_count(lines@.len() as int)
            },
            Err(e) => generate(
                *config,
                0,
                repeated(trace_lines(lines@), passes_of(*config)),
            ).error == Some(e),
        },
{
    let passes: u16 = match config.repeat {
        Some(n) => n,
        None => 1,
    };
    let ghost all = trace_lines(lines@);
    let ghost start = Generated { commands: Seq::empty(), counter: 0, error: None };
    let mut counter: usize = 0;
    let mut batches: Vec<Vec<Command>> = Vec::new();
    let mut pass: u16 = 0;
    while pass < passes
        invariant
            pass <= passes,
            passes == passes_of(*config),
            all == trace_lines(lines@),
            start == (Generated { commands: Seq::empty(), counter: 0, error: None }),
            passes * lines@.len() <= usize::MAX,
            counter <= pass * lines@.len(),
            batches@.len() == pass * chunk_count(lines@.len() as int),
            batch_views(batches@) == replay_batches(*config, all, pass as nat),
            generate_from(*config, start, repeated(all, pass as nat)) == (Generated {
                commands: flat(batches@),
                counter: counter as int,
                error: None,
            }),
        decreases passes - pass,
    {
        let ghost done = generate_from(*config, start, repeated(all, pass as nat));
        let ghost before = batches@;
        proof {
            assert(repeated(all, (pass + 1) as nat) == repeated(all, pass as nat) + all);
            lemma_generate_concat(*config, start, repeated(all, pass as nat), all);
            lemma_generate_continues(*config, done, all);
            lemma_generate_counter(
                *config,
                Generated { commands: Seq::empty(), counter: done.counter, error: None },
                all,
            );
            assert((pass + 1) * lines@.len() <= passes * lines@.len()) by (nonlinear_arith)
                requires
                    pass + 1 <= passes,
                    lines@.len() >= 0,
            {
            }
            assert((pass + 1) * lines@.len() == pass * lines@.len() + lines@.len())
                by (nonlinear_arith);
            assert((pass + 1) * chunk_count(lines@.len() as int) == pass * chunk_count(
                lines@.len() as int,
            ) + chunk_count(lines@.len() as int)) by (nonlinear_arith);
        }
        match generate_batches(config, lines, &mut counter, &mut batches) {
            Ok(()) => {
                proof {
                    assert(batches@.take(before.len() as int) == before);
                    assert(batch_views(batches@) =~= batch_views(before) + pass_batches(
                        *config,
                        done.counter,
                        all,
                    )) by {
                        assert forall|j: int| 0 <= j < batches@.len() implies batch_views(
                            batches@,
                        )[j] == (batch_views(before) + pass_batches(*config, done.counter, all))[j] by {
                            if j < before.len() {
                                assert(batches@.take(before.len() as int)[j] == batches@[j]);
                            } else {
                                assert(batches@[before.len() + (j - before.len())] == batches@[j]);
                            }
                        }
                    }
                }
            },
            Err(e) => {
                proof {
                    let upto = generate_from(*config, start, repeated(all, (pass + 1) as nat));
                    assert(upto.error == Some(e));
                    lemma_repeated_split(all, (pass + 1) as nat, passes as nat);
                    let rest = repeated(all, (passes - pass - 1) as nat);
                    lemma_generate_concat(
                        *config,
                        start,
                        repeated(all, (pass + 1) as nat),
                        rest,
                    );
                    lemma_generate_stops(*config, upto, rest);
                }
                return Err(e);
            },
        }
        pass = pass + 1;
    }
    Ok(batches)
}

/// The first passes of a replay, then the remaining ones, are the replay.
pub proof fn lemma_repeated_split(lines: Seq<(usize, Seq<u8>)>, first: nat, passes: nat)
    requires
        first <= passes,
    ensures
        repeated(lines, passes) == repeated(lines, first) + repeated(
            lines,
            (passes - first) as nat,
        ),
    decreases passes - first,
{
    if first == passes {
        assert(repeated(lines, first) + Seq::<(usize, Seq<u8>)>::empty() =~= repeated(
            lines,
            first,
        ));
    } else {
        lemma_repeated_split(lines, first, (passes - 1) as nat);
        assert(repeated(lines, first) + (repeated(lines, (passes - 1 - first) as nat) + lines)
            =~= (repeated(lines, first) + repeated(lines, (passes - 1 - first) as nat)) + lines);
    }
}

/// The counts of some reports, added up.
pub open spec fn sum_counts(reports: Seq<Report>) -> Counts
    decreases reports.len(),
{
    if reports.len() == 0 {
        Counts::zero()
    } else {
        sum_counts(reports.drop_last()).plus(reports.last().counts())
    }
}

/// The sum of some of the reports is, count by count, no more than the sum
/// of all: no count is negative.
pub proof fn lemma_sum_counts_grows(reports: Seq<Report>, some: int)
    requires
        0 <= some <= reports.len(),
    ensures
        sum_counts(reports).covers(sum_counts(reports.take(some))),
        sum_counts(reports.take(some)).covers(Counts::zero()),
    decreases reports.len() - some,
{
    if some == reports.len() {
        assert(reports.take(some) =~= reports);
        lemma_sum_counts_nonnegative(reports);
    } else {
        lemma_sum_counts_grows(reports.drop_last(), some);
        assert(reports.drop_last().take(some) =~= reports.take(some));
    }
}

proof fn lemma_sum_counts_nonnegative(reports: Seq<Report>)
    ensures
        sum_counts(reports).covers(Counts::zero()),
    decreases reports.len(),
{
    if reports.len() > 0 {
        lemma_sum_counts_nonnegative(reports.drop_last());
    }
}

/// The keys that some batches look up, all together.
pub open spec fn total_lookups(batches: Seq<Seq<CommandView>>) -> nat
    decreases batches.len(),
{
    if batches.len() == 0 {
        0
    } else {
        total_lookups(batches.drop_last()) + lookups(batches.last())
    }
}

/// The keys looked up by the batches that one worker took, where
/// `taken_by[i]` is the worker that took the `i`-th batch.
pub open spec fn lookups_of_worker(
    batches: Seq<Seq<CommandView>>,
    taken_by: Seq<int>,
    worker: int,
) -> nat
    decreases batches.len(),
{
    if batches.len() == 0 {
        0
    } else if taken_by.last() == worker {
        lookups_of_worker(batches.drop_last(), taken_by.drop_last(), worker) + lookups(
            batches.last(),
        )
    } else {
        lookups_of_worker(batches.drop_last(), taken_by.drop_last(), worker)
    }
}

/// The keys looked up by the first `workers` workers together.
pub open spec fn lookups_of_workers(
    batches: Seq<Seq<CommandView>>,
    taken_by: Seq<int>,
    workers: nat,
) -> nat
    decreases workers,
{
    if workers == 0 {
        0
    } else {
        lookups_of_workers(batches, taken_by, (workers - 1) as nat) + lookups_of_worker(
            batches,
            taken_by,
            workers - 1,
        )
    }
}

proof fn lemma_last_batch_counted_once(
    batches: Seq<Seq<CommandView>>,
    taken_by: Seq<int>,
    workers: nat,
)
    requires
        batches.len() > 0,
        taken_by.len() == batches.len(),
    ensures
        lookups_of_workers(batches, taken_by, workers) == lookups_of_workers(
            batches.drop_last(),
            taken_by.drop_last(),
            workers,
        ) + if 0 <= taken_by.last() < workers {
            lookups(batches.last())
        } else {
            0
        },
    decreases workers,
{
    if workers > 0 {
        lemma_last_batch_counted_once(batches, taken_by, (workers - 1) as nat);
    }
}

/// No batch is dropped and none is counted twice: whichever worker takes
/// which batch, if every batch is taken by one of the workers, the workers
/// together look up what the batches look up.
pub proof fn lemma_workers_share_the_batches(
    batches: Seq<Seq<CommandView>>,
    taken_by: Seq<int>,
    workers: nat,
)
    requires
        taken_by.len() == batches.len(),
        forall|i: int| 0 <= i < taken_by.len() ==> 0 <= #[trigger] taken_by[i] < workers,
    ensures
        lookups_of_workers(batches, taken_by, workers) == total_lookups(batches),
    decreases batches.len(),
{
    if batches.len() == 0 {
        lemma_no_batches_no_lookups(batches, taken_by, workers);
    } else {
        lemma_last_batch_counted_once(batches, taken_by, workers);
        assert(0 <= taken_by[taken_by.len() - 1] < workers);
        assert forall|i: int| 0 <= i < taken_by.drop_last().len() implies 0
            <= #[trigger] taken_by.drop_last()[i] < workers by {
            assert(taken_by.drop_last()[i] == taken_by[i]);
        }
        lemma_workers_share_the_batches(batches.drop_last(), taken_by.drop_last(), workers);
    }
}

proof fn lemma_no_batches_no_lookups(
    batches: Seq<Seq<CommandView>>,
    taken_by: Seq<int>,
    workers: nat,
)
    requires
        batches.len() == 0,
    ensures
        lookups_of_workers(batches, taken_by, workers) == 0,
    decreases workers,
{
    if workers > 0 {
        lemma_no_batches_no_lookups(batches, taken_by, (workers - 1) as nat);
    }
}

/// The merged report reflects every batch once: where every batch was
/// taken by one of the workers and every worker's report holds the reads of
/// the batches it took, the reads of the reports together are the keys that
/// the batches look up.
pub proof fn lemma_merged_reads_are_all_lookups(
    batches: Seq<Seq<CommandView>>,
    taken_by: Seq<int>,
    reports: Seq<Report>,
)
    requires
        taken_by.len() == batches.len(),
        forall|i: int| 0 <= i < taken_by.len() ==> 0 <= #[trigger] taken_by[i] < reports.len(),
        forall|w: int|
            0 <= w < reports.len() ==> (#[trigger] reports[w]).read_count == lookups_of_worker(
                batches,
                taken_by,
                w,
            ),
    ensures
        sum_counts(reports).read == total_lookups(batches),
{
    lemma_workers_share_the_batches(batches, taken_by, reports.len());
    lemma_sum_of_worker_reads(batches, taken_by, reports, reports.len());
    assert(reports.take(reports.len() as int) =~= reports);
}

proof fn lemma_sum_of_worker_reads(
    batches: Seq<Seq<CommandView>>,
    taken_by: Seq<int>,
    reports: Seq<Report>,
    workers: nat,
)
    requires
        workers <= reports.len(),
        forall|w: int|
            0 <= w < reports.len() ==> (#[trigger] reports[w]).read_count == lookups_of_worker(
                batches,
                taken_by,
                w,
            ),
    ensures
        sum_counts(reports.take(workers as int)).read == lookups_of_workers(
            batches,
            taken_by,
            workers,
        ),
    decreases workers,
{
    if workers > 0 {
        lemma_sum_of_worker_reads(batches, taken_by, reports, (workers - 1) as nat);
        assert(reports.take(workers as int).drop_last() =~= reports.take(workers - 1));
        assert(reports.take(workers as int).last() == reports[workers - 1]);
    }
}

/// Why a trial has no result.
#[derive(Clone, Copy, Debug, PartialEq, Eq, Structural)]
pub enum TrialError {
    /// The workers counted more than a report can hold.
    CountOverflow,
    /// The run counts evictions, but the engine keeps no eviction counters.
    MissingEvictionCounters,
}

/// Merges the reports of a trial's workers into the trial's report, which
/// takes its heading from the template and lasts `elapsed`.
pub fn merge_reports(builder: &ReportBuilder, elapsed: Span, reports: &[Report]) -> (merged: Option<
    Report,
>)
    ensures
        merged.is_some() == sum_counts(reports@).fits(),
        merged.is_some() ==> {
            let report = merged.unwrap();
            &&& report.counts() == sum_counts(reports@)
            &&& report.name@ == builder.name()
            &&& report.capacity == builder.capacity()
            &&& report.num_workers == builder.num_workers()
            &&& report.duration == Some(elapsed)
            &&& !report.has_eviction_counts
        },
        merged.is_some() && (forall|i: int| 0 <= i < reports@.len() ==> (#[trigger] reports@[i]).consistent())
            ==> merged.unwrap().consistent(),
{
    let mut report = builder.build();
    report.duration = Some(elapsed);
    let mut i: usize = 0;
    assert(reports@.take(0) =~= Seq::<Report>::empty());
    while i < reports.len()
        invariant
            i <= reports@.len(),
            report.counts() == sum_counts(reports@.take(i as int)),
            report.name@ == builder.name(),
            report.capacity == builder.capacity(),
            report.num_workers == builder.num_workers(),
            report.duration == Some(elapsed),
            !report.has_eviction_counts,
            (forall|j: int| 0 <= j < reports@.len() ==> (#[trigger] reports@[j]).consistent())
                ==> report.consistent(),
        decreases reports@.len() - i,
    {
        proof {
            assert(reports@.take(i + 1).drop_last() =~= reports@.take(i as int));
            assert(reports@.take(i + 1).last() == reports@[i as int]);
            lemma_sum_counts_grows(reports@, i + 1);
        }
        if !report.try_merge(&reports[i]) {
            return None;
        }
        i = i + 1;
    }
    proof {
        assert(reports@.take(reports@.len() as int) =~= reports@);
    }
    Some(report)
}

/// How a trial ends, given the sum of its workers' counts and the eviction
/// counts read from the engine:
/// - with `CountOverflow` where the sum does not fit a report;
/// - else, in a run that does not count evictions, with a report of the
///   sum that carries no eviction counts;
/// - else with `MissingEvictionCounters` where the engine keeps no
///   counters;
/// - else with `CountOverflow` where the sum and the counts read do not fit
///   together;
/// - else with a report of the sum and the counts read, which carries
///   eviction counts.
pub open spec fn trial_outcome(
    result: Result<Report, TrialError>,
    listener: RemovalNotificationMode,
    has_counters: bool,
    sum: Counts,
    read: EvictionCounts,
) -> bool {
    if !sum.fits() {
        result == Err::<Report, TrialError>(TrialError::CountOverflow)
    } else if listener == RemovalNotificationMode::Disabled {
        result.is_ok() && result.unwrap().counts() == sum && !result.unwrap().has_eviction_counts
    } else if !has_counters {
        result == Err::<Report, TrialError>(TrialError::MissingEvictionCounters)
    } else if !sum.with_evictions(read).fits() {
        result == Err::<Report, TrialError>(TrialError::CountOverflow)
    } else {
        result.is_ok() && result.unwrap().counts() == sum.with_evictions(read)
            && result.unwrap().has_eviction_counts
    }
}

/// Every one of the reports has no more hits than reads.
pub open spec fn all_consistent(reports: Seq<Report>) -> bool {
    forall|i: int| 0 <= i < reports.len() ==> (#[trigger] reports[i]).consistent()
}

/// Makes the report of a trial: the workers' reports merged, and the
/// engine's eviction counts, read once, added where the run counts
/// evictions.
///
/// The trial has a report unless the counts do not fit one or the run
/// counts evictions on an engine without counters. What is read from the
/// counters always fits where the workers counted no evictions themselves.
pub fn finish_trial(
    config: &Config,
    builder: &ReportBuilder,
    elapsed: Span,
    reports: &[Report],
    eviction_counters: Option<Arc<EvictionCounters>>,
) -> (result: Result<Report, TrialError>)
    ensures
        exists|read: EvictionCounts| #[trigger]
            trial_outcome(
                result,
                config.eviction_listener,
                eviction_counters.is_some(),
                sum_counts(reports@),
                read,
            ),
        sum_counts(reports@).fits() && config.eviction_listener
            == RemovalNotificationMode::Disabled ==> result.is_ok(),
        sum_counts(reports@).fits() && eviction_counters.is_some() && sum_counts(
            reports@,
        ).holds_no_evictions() ==> result.is_ok(),
        result == Err::<Report, TrialError>(TrialError::CountOverflow) && sum_counts(
            reports@,
        ).fits() ==> config.eviction_listener != RemovalNotificationMode::Disabled
            && eviction_counters.is_some() && !sum_counts(reports@).holds_no_evictions(),
        result == Err::<Report, TrialError>(TrialError::MissingEvictionCounters) <==> sum_counts(
            reports@,
        ).fits() && config.eviction_listener != RemovalNotificationMode::Disabled
            && eviction_counters.is_none(),
        result.is_ok() ==> {
            let report = result.unwrap();
            &&& report.name@ == builder.name()
            &&& report.capacity == builder.capacity()
            &&& report.num_workers == builder.num_workers()
            &&& report.duration == Some(elapsed)
            &&& report.has_eviction_counts == (config.eviction_listener
                != RemovalNotificationMode::Disabled)
            &&& report.counts().insert == sum_counts(reports@).insert
            &&& report.counts().read == sum_counts(reports@).read
            &&& report.counts().hit == sum_counts(reports@).hit
            &&& report.counts().covers(sum_counts(reports@))
            &&& all_consistent(reports@) ==> report.consistent()
        },
{
    let ghost sum = sum_counts(reports@);
    let ghost enabled = config.eviction_listener;
    let ghost nothing = EvictionCounts { size: 0, expired: 0, explicit: 0 };
    let mut report = match merge_reports(builder, elapsed, reports) {
        Some(report) => report,
        None => {
            let result = Err(TrialError::CountOverflow);
            assert(trial_outcome(result, enabled, eviction_counters.is_some(), sum, nothing));
            return result;
        },
    };
    if config.is_eviction_listener_enabled() {
        match eviction_counters {
            Some(counters) => {
                let ghost merged = report;
                let added = report.add_eviction_counts(&counters);
                let ghost read = choose|read: EvictionCounts| #[trigger]
                    Report::evictions_taken(&merged, &report, read, added);
                assert(merged.counts_with_evictions(read) == sum.with_evictions(read));
                if !added {
                    let result = Err(TrialError::CountOverflow);
                    assert(trial_outcome(result, enabled, true, sum, read));
                    return result;
                }
                let result = Ok(report);
                assert(trial_outcome(result, enabled, true, sum, read));
                return result;
            },
            None => {
                let result = Err(TrialError::MissingEvictionCounters);
                assert(trial_outcome(result, enabled, false, sum, nothing));
                return result;
            },
        }
    }
    let result = Ok(report);
    assert(trial_outcome(result, enabled, eviction_counters.is_some(), sum, nothing));
    result
}

/// The bookkeeping of a cooperative worker: it gives way to the other
/// workers after every `YIELD_AFTER_BATCHES` batches.
pub struct BatchClock {
    cadence: Cadence,
}

impl BatchClock {
    #[verifier::type_invariant]
    spec fn paced(self) -> bool {
        self.cadence.period() == YIELD_AFTER_BATCHES
    }

    /// The batches done since the worker began or last gave way.
    pub closed spec fn since_yield(&self) -> nat {
        self.cadence.count()
    }

    /// The clock of a worker that has done nothing yet.
    pub fn new() -> (clock: BatchClock)
        ensures
            clock.since_yield() == 0,
    {
        BatchClock { cadence: Cadence::new(YIELD_AFTER_BATCHES) }
    }

    /// Counts one batch done; `true` where the worker is to give way now.
    pub fn batch_done(&mut self) -> (give_way: bool)
        ensures
            give_way == (old(self).since_yield() + 1 == YIELD_AFTER_BATCHES),
            final(self).since_yield() == if give_way {
                0
            } else {
                old(self).since_yield() + 1
            },
    {
        proof {
            use_type_invariant(&*self);
        }
        self.cadence.tick()
    }
}

/// One thing the orchestrator of a trial does.
#[derive(Clone, Copy, Debug, PartialEq, Eq, Structural)]
pub enum TrialStep {
    /// Read the trace, turn all of it into batches and queue them.
    QueueAllBatches,
    /// Read the trace once so that the file system has it at hand.
    PrimeTraceFile,
    /// Start this many workers, all on one engine, each with its own end of
    /// the queue.
    SpawnWorkers(u16),
    /// Read the trace and queue its batches as they are generated.
    StreamBatches,
    /// Close the producer's side of the queue: the workers stop when the
    /// queue is closed and drained.
    CloseQueue,
    /// Wait for every worker and take its report.
    JoinWorkers,
    /// Merge the reports and add the engine's eviction counts, once.
    MergeReports,
}

/// What the orchestrator of a trial does, in order.
pub open spec fn trial_steps_of(mode: DeliveryMode, num_clients: u16) -> Seq<TrialStep> {
    match mode {
        DeliveryMode::Buffered => seq![
            TrialStep::QueueAllBatches,
            TrialStep::SpawnWorkers(num_clients),
            TrialStep::CloseQueue,
            TrialStep::JoinWorkers,
            TrialStep::MergeReports,
        ],
        DeliveryMode::Streaming => seq![
            TrialStep::PrimeTraceFile,
            TrialStep::SpawnWorkers(num_clients),
            TrialStep::StreamBatches,
            TrialStep::CloseQueue,
            TrialStep::JoinWorkers,
            TrialStep::MergeReports,
        ],
    }
}

/// The steps of a trial with `num_clients` workers, in order.
pub fn trial_steps(mode: DeliveryMode, num_clients: u16) -> (steps: Vec<TrialStep>)
    ensures
        steps@ == trial_steps_of(mode, num_clients),
{
    let steps = match mode {
        DeliveryMode::Buffered => vec![
            TrialStep::QueueAllBatches,
            TrialStep::SpawnWorkers(num_clients),
            TrialStep::CloseQueue,
            TrialStep::JoinWorkers,
            TrialStep::MergeReports,
        ],
        DeliveryMode::Streaming => vec![
            TrialStep::PrimeTraceFile,
            TrialStep::SpawnWorkers(num_clients),
            TrialStep::StreamBatches,
            TrialStep::CloseQueue,
            TrialStep::JoinWorkers,
            TrialStep::MergeReports,
        ],
    };
    assert(steps@ =~= trial_steps_of(mode, num_clients));
    steps
}

/// In either mode a trial starts its workers once, queues batches in one
/// step only, closes the queue after everything was queued and the workers
/// were started, waits for the workers after that, and merges last.
pub proof fn lemma_trial_order(mode: DeliveryMode, num_clients: u16)
    ensures
        ({
            let steps = trial_steps_of(mode, num_clients);
            let n = steps.len() as int;
            &&& steps[n - 1] == TrialStep::MergeReports
            &&& steps[n - 2] == TrialStep::JoinWorkers
            &&& steps[n - 3] == TrialStep::CloseQueue
            &&& steps[1] == TrialStep::SpawnWorkers(num_clients)
            &&& forall|i: int|
                0 <= i < n && (#[trigger] steps[i]) is SpawnWorkers ==> i == 1
            &&& forall|i: int|
                0 <= i < n && (#[trigger] steps[i] == TrialStep::QueueAllBatches || steps[i]
                    == TrialStep::StreamBatches) ==> i < n - 3 && (mode == DeliveryMode::Buffered
                    <==> i == 0)
        }),
{
}

/// Why a worker stopped before the queue was closed.
#[derive(Clone, Copy, Debug, PartialEq, Eq, Structural)]
pub enum WorkerError {
    /// The report has no room for what a batch can count.
    CountOverflow,
    /// The engine does not support a command of a batch.
    Unsupported,
}

/// What a worker does after a batch.
#[derive(Clone, Copy, Debug, PartialEq, Eq, Structural)]
pub enum WorkerAction {
    /// Take the next batch from the queue.
    Receive,
    /// Give way to the other workers, then take the next batch.
    YieldThenReceive,
}

/// The batches counted towards the next time a worker gives way, after one
/// more batch.
pub open spec fn batches_after(since_yield: nat) -> nat {
    if since_yield + 1 == YIELD_AFTER_BATCHES {
        0
    } else {
        since_yield + 1
    }
}

/// What a worker does after one more batch: it takes the next, giving way
/// before where it is cooperative and the batch was the last of
/// `YIELD_AFTER_BATCHES`.
pub open spec fn action_after(cooperative: bool, since_yield: nat) -> WorkerAction {
    if cooperative && since_yield + 1 == YIELD_AFTER_BATCHES {
        WorkerAction::YieldThenReceive
    } else {
        WorkerAction::Receive
    }
}

/// A worker of a trial: it applies the batches it is handed to the engine,
/// counts into a report of its own, and hands the report out when the queue
/// is closed and drained.
pub struct Worker {
    report: Report,
    clock: BatchClock,
    cooperative: bool,
}

impl Worker {
    /// What the worker has counted.
    pub closed spec fn counted(&self) -> Report {
        self.report
    }

    /// How many batches the worker has applied since it began or last
    /// gave way.
    pub closed spec fn since_yield(&self) -> nat {
        self.clock.since_yield()
    }

    /// Whether the worker shares its thread with others and gives way to
    /// them.
    pub closed spec fn is_cooperative(&self) -> bool {
        self.cooperative
    }

    /// A worker that counts into `report`.
    pub fn new(report: Report, cooperative: bool) -> (worker: Worker)
        ensures
            worker.counted() == report,
            worker.since_yield() == 0,
            worker.is_cooperative() == cooperative,
    {
        Worker { report, clock: BatchClock::new(), cooperative }
    }

    /// Applies one batch to the engine.
    ///
    /// A batch that the report has no room for is not applied at all. A
    /// batch with a command that the engine does not support is applied up
    /// to that command. Either ends the worker, and with it the trial.
    /// Otherwise the worker goes on to the next batch, giving way first
    /// where it is cooperative and this was the last of
    /// `YIELD_AFTER_BATCHES` batches.
    pub fn on_batch<D: CacheDriver>(&mut self, commands: Vec<Command>, cache: &mut D) -> (result:
        Result<WorkerAction, WorkerError>)
        ensures
            final(self).is_cooperative() == old(self).is_cooperative(),
            final(cache).setting() == old(cache).setting(),
            result == Err::<WorkerAction, WorkerError>(WorkerError::CountOverflow) <==> !has_room(
                &old(self).counted(),
                lookups(command_views(commands@)) + updates(command_views(commands@)),
            ),
            result == Err::<WorkerAction, WorkerError>(WorkerError::CountOverflow) ==> {
                &&& final(self).counted() == old(self).counted()
                &&& final(self).since_yield() == old(self).since_yield()
                &&& final(cache).steps() == old(cache).steps()
            },
            result.is_ok() ==> batch_driven(
                old(cache).steps(),
                final(cache).steps(),
                &old(self).counted(),
                &final(self).counted(),
                old(cache).setting(),
                command_views(commands@),
                true,
            ),
            result == Err::<WorkerAction, WorkerError>(WorkerError::Unsupported) ==> exists|done: int|
                0 <= done < commands@.len() && #[trigger] batch_driven(
                    old(cache).steps(),
                    final(cache).steps(),
                    &old(self).counted(),
                    &final(self).counted(),
                    old(cache).setting(),
                    command_views(commands@).take(done + 1),
                    false,
                ),
            result.is_ok() ==> {
                &&& result.unwrap() == action_after(
                    old(self).is_cooperative(),
                    old(self).since_yield(),
                )
                &&& final(self).since_yield() == batches_after(old(self).since_yield())
            },
            old(self).counted().consistent() ==> final(self).counted().consistent(),
    {
        if !can_process(&commands, &self.report) {
            return Err(WorkerError::CountOverflow);
        }
        match process_commands(commands, cache, &mut self.report) {
            Ok(()) => {},
            Err(_) => {
                return Err(WorkerError::Unsupported);
            },
        }
        if self.clock.batch_done() && self.cooperative {
            Ok(WorkerAction::YieldThenReceive)
        } else {
            Ok(WorkerAction::Receive)
        }
    }

    /// Hands out the report of a worker whose queue is closed and drained.
    pub fn finish(self) -> (report: Report)
        ensures
            report == self.counted(),
    {
        self.report
    }
}

} // verus!
