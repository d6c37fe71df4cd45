//! From trace lines to commands.
//!
//! Every line that holds a request advances a counter by one; the counter
//! and the sampling toggles of the configuration decide, by a fixed order of
//! precedence, which command the request becomes.

use crate::config::Config;
use crate::parser::{parse_line, EntryView, GenericTraceParser, ParseError, TraceParser};
use crate::{command_views, Command, CommandView};
use vstd::prelude::*;
use vstd::utf8::encode_utf8;

verus! {

/// Every how many requests the engine is cleared, where that is sampled.
pub const INVALIDATE_ALL_PERIOD: usize = 100_000;

/// Every how many requests entries are removed by predicate.
pub const INVALIDATE_ENTRIES_IF_PERIOD: usize = 5_000;

/// Every how many requests a range is reinserted.
pub const UPDATE_PERIOD: usize = 11;

/// Every how many requests a range is removed.
pub const INVALIDATE_PERIOD: usize = 8;

/// Every how many requests a range goes through the single-flight initializer.
pub const INSERT_ONCE_PERIOD: usize = 3;

/// Every how many requests the engine is walked.
pub const ITERATE_PERIOD: usize = 50_000;

/// The rule that turns a request into its command.
#[derive(Clone, Copy, Debug, PartialEq, Eq, Structural)]
pub enum Branch {
    InvalidateAll,
    InvalidateEntriesIf,
    Update,
    Invalidate,
    GetOrInsertOnce,
    GetOrInsert,
}

/// The rule that applies to the request numbered `counter`: the first one,
/// in this order, whose toggle is on and whose period divides the counter.
pub open spec fn branch_of(config: Config, counter: int) -> Branch {
    if config.invalidate_all && counter % 100_000 == 0 {
        Branch::InvalidateAll
    } else if config.invalidate_entries_if && counter % 5_000 == 0 {
        Branch::InvalidateEntriesIf
    } else if config.size_aware && counter % 11 == 0 {
        Branch::Update
    } else if config.invalidate && counter % 8 == 0 {
        Branch::Invalidate
    } else if config.insert_once && counter % 3 == 0 {
        Branch::GetOrInsertOnce
    } else {
        Branch::GetOrInsert
    }
}

/// The commands a rule emits for an entry.
pub open spec fn branch_commands(branch: Branch, entry: EntryView) -> Seq<CommandView> {
    match branch {
        Branch::InvalidateAll => seq![CommandView::InvalidateAll, CommandView::GetOrInsert(entry)],
        Branch::InvalidateEntriesIf => seq![CommandView::InvalidateEntriesIf(entry)],
        Branch::Update => seq![CommandView::Update(entry)],
        Branch::Invalidate => seq![CommandView::Invalidate(entry)],
        Branch::GetOrInsertOnce => seq![CommandView::GetOrInsertOnce(entry)],
        Branch::GetOrInsert => seq![CommandView::GetOrInsert(entry)],
    }
}

/// Whether a walk of the engine follows the request numbered `counter`.
pub open spec fn iterates_at(config: Config, counter: int) -> bool {
    config.iterate && counter % 50_000 == 0
}

/// The commands of the request numbered `counter`: those of its rule, then
/// a walk of the engine where one is due.
pub open spec fn entry_commands(config: Config, counter: int, entry: EntryView) -> Seq<
    CommandView,
> {
    let commands = branch_commands(branch_of(config, counter), entry);
    if iterates_at(config, counter) {
        commands.push(CommandView::Iterate)
    } else {
        commands
    }
}

/// What a run over some lines comes to: the commands of the lines before
/// the first rejected one, the counter after them, and the rejection if any.
pub struct Generated {
    pub commands: Seq<CommandView>,
    pub counter: int,
    pub error: Option<ParseError>,
}

/// One line after what came before: nothing changes once a line was
/// rejected or where the line is skipped; a rejected line is recorded; a
/// request advances the counter and adds its commands.
pub open spec fn generate_line(config: Config, before: Generated, line: (usize, Seq<u8>)) -> Generated {
    if before.error.is_some() {
        before
    } else {
        match parse_line(line.1, line.0) {
            Err(e) => Generated { error: Some(e), ..before },
            Ok(None) => before,
            Ok(Some(entry)) => Generated {
                commands: before.commands + entry_commands(config, before.counter + 1, entry),
                counter: before.counter + 1,
                error: None,
            },
        }
    }
}

/// The lines in order, each given as its position and its bytes, taken
/// after `before`.
pub open spec fn generate_from(config: Config, before: Generated, lines: Seq<(usize, Seq<u8>)>) -> Generated
    decreases lines.len(),
{
    if lines.len() == 0 {
        before
    } else {
        generate_line(config, generate_from(config, before, lines.drop_last()), lines.last())
    }
}

/// The run over `lines` that starts with the counter at `counter`.
pub open spec fn generate(config: Config, counter: int, lines: Seq<(usize, Seq<u8>)>) -> Generated {
    generate_from(config, Generated { commands: Seq::empty(), counter, error: None }, lines)
}

/// The positions and bytes of a chunk of numbered lines.
pub open spec fn trace_lines(chunk: Seq<(usize, String)>) -> Seq<(usize, Seq<u8>)> {
    Seq::new(chunk.len(), |i: int| (chunk[i].0, encode_utf8(chunk[i].1@)))
}

/// The counter never advances by more than the number of lines.
pub proof fn lemma_generate_counter(config: Config, before: Generated, lines: Seq<(usize, Seq<u8>)>)
    ensures
        before.counter <= generate_from(config, before, lines).counter <= before.counter
            + lines.len(),
    decreases lines.len(),
{
    if lines.len() > 0 {
        lemma_generate_counter(config, before, lines.drop_last());
    }
}

/// Replaying goes on where the last pass stopped: a run over `first`
/// followed by `second` is the run over `second` taken after the run over
/// `first`, counter and all.
pub proof fn lemma_generate_concat(
    config: Config,
    before: Generated,
    first: Seq<(usize, Seq<u8>)>,
    second: Seq<(usize, Seq<u8>)>,
)
    ensures
        generate_from(config, before, first + second) == generate_from(
            config,
            generate_from(config, before, first),
            second,
        ),
    decreases second.len(),
{
    if second.len() == 0 {
        assert(first + second =~= first);
    } else {
        lemma_generate_concat(config, before, first, second.drop_last());
        assert((first + second).drop_last() =~= first + second.drop_last());
        assert((first + second).last() == second.last());
    }
}

/// The rule that fires for a counter depends on the five toggles of the
/// order of precedence and on nothing else in the configuration: two
/// configurations that agree on those five choose the same rule.
pub proof fn lemma_branch_ignores_unrelated_flags(a: Config, b: Config, counter: int)
    requires
        a.invalidate_all == b.invalidate_all,
        a.invalidate_entries_if == b.invalidate_entries_if,
        a.size_aware == b.size_aware,
        a.invalidate == b.invalidate,
        a.insert_once == b.insert_once,
    ensures
        branch_of(a, counter) == branch_of(b, counter),
{
}

/// Whether a walk follows a request depends on the `iterate` toggle alone.
pub proof fn lemma_iterate_ignores_other_flags(a: Config, b: Config, counter: int)
    requires
        a.iterate == b.iterate,
    ensures
        iterates_at(a, counter) == iterates_at(b, counter),
{
}

/// Two runs over the same lines from the same counter, under
/// configurations that agree on the six sampling toggles, come to the same
/// commands, the same counter and the same rejection.
pub proof fn lemma_generate_deterministic(
    a: Config,
    b: Config,
    before: Generated,
    lines: Seq<(usize, Seq<u8>)>,
)
    requires
        a.invalidate_all == b.invalidate_all,
        a.invalidate_entries_if == b.invalidate_entries_if,
        a.size_aware == b.size_aware,
        a.invalidate == b.invalidate,
        a.insert_once == b.insert_once,
        a.iterate == b.iterate,
    ensures
        generate_from(a, before, lines) == generate_from(b, before, lines),
    decreases lines.len(),
{
    if lines.len() > 0 {
        lemma_generate_deterministic(a, b, before, lines.drop_last());
    }
}

/// Two answers of `generate_commands` to the same lines from the same
/// counter, under configurations that say the same, are the same: the same
/// commands in the same order, or the same rejection, and the same counter
/// afterwards.
pub proof fn lemma_same_run_same_answer(
    a: Config,
    b: Config,
    counter: int,
    lines: Seq<(usize, Seq<u8>)>,
    first: Result<Vec<Command>, ParseError>,
    first_counter: usize,
    second: Result<Vec<Command>, ParseError>,
    second_counter: usize,
)
    requires
        a.same_as(&b),
        generated_as(first, first_counter, generate(a, counter, lines)),
        generated_as(second, second_counter, generate(b, counter, lines)),
    ensures
        first_counter == second_counter,
        match (first, second) {
            (Ok(x), Ok(y)) => command_views(x@) == command_views(y@),
            (Err(e), Err(f)) => e == f,
            _ => false,
        },
{
    lemma_generate_deterministic(
        a,
        b,
        Generated { commands: Seq::empty(), counter, error: None },
        lines,
    );
}

/// The commands without the walks of the engine.
pub open spec fn without_iterate(commands: Seq<CommandView>) -> Seq<CommandView>
    decreases commands.len(),
{
    if commands.len() == 0 {
        Seq::empty()
    } else if commands.last() is Iterate {
        without_iterate(commands.drop_last())
    } else {
        without_iterate(commands.drop_last()).push(commands.last())
    }
}

/// Leaving the walks out of two lists leaves them out of the two together.
pub proof fn lemma_without_iterate_concat(first: Seq<CommandView>, second: Seq<CommandView>)
    ensures
        without_iterate(first + second) == without_iterate(first) + without_iterate(second),
    decreases second.len(),
{
    if second.len() == 0 {
        assert(first + second =~= first);
        assert(without_iterate(first) + without_iterate(second) =~= without_iterate(first));
    } else {
        lemma_without_iterate_concat(first, second.drop_last());
        assert((first + second).drop_last() =~= first + second.drop_last());
        assert((first + second).last() == second.last());
        if second.last() is Iterate {
        } else {
            assert(without_iterate(first) + without_iterate(second.drop_last()).push(
                second.last(),
            ) =~= (without_iterate(first) + without_iterate(second.drop_last())).push(
                second.last(),
            ));
        }
    }
}

/// The commands of a request without the walk are those of its rule.
pub proof fn lemma_entry_commands_without_iterate(config: Config, counter: int, entry: EntryView)
    ensures
        without_iterate(entry_commands(config, counter, entry)) == branch_commands(
            branch_of(config, counter),
            entry,
        ),
{
    let rule = branch_commands(branch_of(config, counter), entry);
    lemma_rule_has_no_iterate(branch_of(config, counter), entry);
    if iterates_at(config, counter) {
        assert(rule.push(CommandView::Iterate).drop_last() =~= rule);
    }
}

proof fn lemma_rule_has_no_iterate(branch: Branch, entry: EntryView)
    ensures
        without_iterate(branch_commands(branch, entry)) == branch_commands(branch, entry),
{
    let rule = branch_commands(branch, entry);
    reveal_with_fuel(without_iterate, 3);
    if rule.len() == 1 {
        assert(rule.drop_last() =~= Seq::<CommandView>::empty());
        assert(without_iterate(rule) =~= rule);
    } else {
        assert(rule.len() == 2);
        assert(rule.drop_last() =~= seq![rule[0]]);
        assert(rule.drop_last().drop_last() =~= Seq::<CommandView>::empty());
        assert(without_iterate(rule) =~= rule);
    }
}

/// Toggling a flag that is none of the five of the order of precedence,
/// `iterate` among them, changes nothing in a run but the walks: two runs
/// over the same lines from the same counter, under configurations that
/// agree on the five, come to the same commands once the walks are left
/// out, to the same counter and to the same rejection.
pub proof fn lemma_unrelated_flags_change_walks_only(
    a: Config,
    b: Config,
    before_a: Generated,
    before_b: Generated,
    lines: Seq<(usize, Seq<u8>)>,
)
    requires
        a.invalidate_all == b.invalidate_all,
        a.invalidate_entries_if == b.invalidate_entries_if,
        a.size_aware == b.size_aware,
        a.invalidate == b.invalidate,
        a.insert_once == b.insert_once,
        before_a.counter == before_b.counter,
        before_a.error == before_b.error,
        without_iterate(before_a.commands) == without_iterate(before_b.commands),
    ensures
        generate_from(a, before_a, lines).counter == generate_from(b, before_b, lines).counter,
        generate_from(a, before_a, lines).error == generate_from(b, before_b, lines).error,
        without_iterate(generate_from(a, before_a, lines).commands) == without_iterate(
            generate_from(b, before_b, lines).commands,
        ),
    decreases lines.len(),
{
    if lines.len() > 0 {
        lemma_unrelated_flags_change_walks_only(a, b, before_a, before_b, lines.drop_last());
        let upto_a = generate_from(a, before_a, lines.drop_last());
        let upto_b = generate_from(b, before_b, lines.drop_last());
        let line = lines.last();
        if upto_a.error.is_none() {
            match parse_line(line.1, line.0) {
                Ok(Some(entry)) => {
                    let n = upto_a.counter + 1;
                    lemma_entry_commands_without_iterate(a, n, entry);
                    lemma_entry_commands_without_iterate(b, n, entry);
                    lemma_without_iterate_concat(upto_a.commands, entry_commands(a, n, entry));
                    lemma_without_iterate_concat(upto_b.commands, entry_commands(b, n, entry));
                },
                _ => {},
            }
        }
    }
}

/// A command that the configuration's toggles allow: lookups with inserts
/// always, every other command only where its toggle is on.
pub open spec fn allowed(config: Config, command: CommandView) -> bool {
    match command {
        CommandView::GetOrInsert(_) => true,
        CommandView::GetOrInsertOnce(_) => config.insert_once,
        CommandView::Update(_) => config.size_aware,
        CommandView::Invalidate(_) => config.invalidate,
        CommandView::InvalidateAll => config.invalidate_all,
        CommandView::InvalidateEntriesIf(_) => config.invalidate_entries_if,
        CommandView::Iterate => config.iterate,
    }
}

/// A run emits no command whose toggle is off.
pub proof fn lemma_commands_follow_toggles(
    config: Config,
    before: Generated,
    lines: Seq<(usize, Seq<u8>)>,
)
    requires
        forall|i: int| 0 <= i < before.commands.len() ==> allowed(config, #[trigger] before.commands[i]),
    ensures
        forall|i: int|
            0 <= i < generate_from(config, before, lines).commands.len() ==> allowed(
                config,
                #[trigger] generate_from(config, before, lines).commands[i],
            ),
    decreases lines.len(),
{
    if lines.len() > 0 {
        lemma_commands_follow_toggles(config, before, lines.drop_last());
    }
}

/// The answer of `generate_commands` agrees with what the run comes to.
pub open spec fn generated_as(
    result: Result<Vec<Command>, ParseError>,
    counter: usize,
    expected: Generated,
) -> bool {
    &&& counter == expected.counter
    &&& match result {
        Ok(commands) => expected.error.is_none() && command_views(commands@)
            == expected.commands,
        Err(e) => expected.error == Some(e),
    }
}

/// Once a line was rejected, no later line changes anything.
pub proof fn lemma_generate_stops(config: Config, before: Generated, lines: Seq<(usize, Seq<u8>)>)
    requires
        before.error.is_some(),
    ensures
        generate_from(config, before, lines) == before,
    decreases lines.len(),
{
    if lines.len() > 0 {
        lemma_generate_stops(config, before, lines.drop_last());
    }
}

/// Turns a chunk of numbered trace lines into commands.
///
/// Each line that holds a request advances `counter` by one and becomes the
/// commands of that count; a `*` line changes nothing. The first rejected
/// line ends the run with its error, `counter` standing at the requests
/// before it. `max_chunk_size` only sizes the buffer, and no larger than
/// the chunk.
pub fn generate_commands(
    config: &Config,
    max_chunk_size: usize,
    counter: &mut usize,
    chunk: &[(usize, String)],
) -> (result: Result<Vec<Command>, ParseError>)
    requires
        *old(counter) + chunk@.len() <= usize::MAX,
    ensures
        generated_as(
            result,
            *final(counter),
            generate(*config, *old(counter) as int, trace_lines(chunk@)),
        ),
{
    let mut parser = GenericTraceParser;
    let capacity = if max_chunk_size < chunk.len() {
        max_chunk_size
    } else {
        chunk.len()
    };
    let mut ops: Vec<Command> = Vec::with_capacity(capacity);
    let ghost lines = trace_lines(chunk@);
    let ghost first = *counter;
    let ghost start = Generated { commands: Seq::empty(), counter: first as int, error: None };
    let mut i: usize = 0;
    assert(command_views(ops@) =~= Seq::<CommandView>::empty());
    while i < chunk.len()
        invariant
            i <= chunk@.len(),
            lines == trace_lines(chunk@),
            first == *old(counter),
            start == (Generated { commands: Seq::empty(), counter: first as int, error: None }),
            first + chunk@.len() <= usize::MAX,
            *counter <= first + i,
            generate_from(*config, start, lines.take(i as int)) == (Generated {
                commands: command_views(ops@),
                counter: *counter as int,
                error: None,
            }),
        decreases chunk@.len() - i,
    {
        let line_number = chunk[i].0;
        let line = chunk[i].1.as_str();
        let ghost before = generate_from(*config, start, lines.take(i as int));
        let ghost views = command_views(ops@);
        proof {
            assert(lines.take(i + 1).drop_last() =~= lines.take(i as int));
            assert(lines.take(i + 1).last() == lines[i as int]);
            assert(lines[i as int] == (line_number, encode_utf8(line@)));
        }
        match parser.parse(line, line_number) {
            Err(e) => {
                proof {
                    let after = generate_from(*config, start, lines.take(i + 1));
                    assert(after.error == Some(e));
                    assert(lines =~= lines.take(i + 1) + lines.skip(i + 1));
                    lemma_generate_concat(*config, start, lines.take(i + 1), lines.skip(i + 1));
                    lemma_generate_stops(*config, after, lines.skip(i + 1));
                }
                return Err(e);
            },
            Ok(None) => {},
            Ok(Some(entry)) => {
                *counter += 1;
                let ghost e = entry@;
                if config.invalidate_all && *counter % INVALIDATE_ALL_PERIOD == 0 {
                    ops.push(Command::InvalidateAll);
                    ops.push(Command::GetOrInsert(entry));
                } else if config.invalidate_entries_if && *counter % INVALIDATE_ENTRIES_IF_PERIOD
                    == 0 {
                    ops.push(Command::InvalidateEntriesIf(entry));
                } else if config.size_aware && *counter % UPDATE_PERIOD == 0 {
                    ops.push(Command::Update(entry));
                } else if config.invalidate && *counter % INVALIDATE_PERIOD == 0 {
                    ops.push(Command::Invalidate(entry));
                } else if config.insert_once && *counter % INSERT_ONCE_PERIOD == 0 {
                    ops.push(Command::GetOrInsertOnce(entry));
                } else {
                    ops.push(Command::GetOrInsert(entry));
                }
                if config.iterate && *counter % ITERATE_PERIOD == 0 {
                    ops.push(Command::Iterate);
                }
                assert(command_views(ops@) =~= views + entry_commands(
                    *config,
                    *counter as int,
                    e,
                ));
            },
        }
        i = i + 1;
    }
    assert(lines.take(chunk@.len() as int) =~= lines);
    Ok(ops)
}

} // verus!
