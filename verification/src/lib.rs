//! The core of a trace-replay harness for cache engines: trace lines become
//! entries, entries become commands by fixed sampling rules, commands are
//! applied to an engine through one driver interface, and what the workers
//! counted is merged into one report.

use crate::parser::{EntryView, TraceEntry};
use vstd::prelude::*;

pub use crate::report::Report;
pub use crate::trace_file::TraceFile;

pub mod cache;
pub mod cadence;
pub mod config;
pub mod decimal;
pub mod engines;
pub mod eviction_counters;
pub mod load_gen;
pub mod parser;
pub mod report;
pub mod span;
pub mod text;
pub mod trace_file;
pub mod trial;

verus! {

/// Number of trace lines that make up one batch of commands.
pub const BATCH_SIZE: usize = 200;

/// One operation for a worker to apply to the engine.
#[derive(Debug)]
pub enum Command {
    /// Look each key up and insert the ones that are missing.
    GetOrInsert(TraceEntry),
    /// Look each key up through the engine's single-flight initializer.
    GetOrInsertOnce(TraceEntry),
    /// Insert each key, whether it is present or not.
    Update(TraceEntry),
    /// Remove each key.
    Invalidate(TraceEntry),
    /// Clear the engine.
    InvalidateAll,
    /// Remove the entries whose value matches a key of the range.
    InvalidateEntriesIf(TraceEntry),
    /// Walk all entries once.
    Iterate,
}

/// What a command is, over the views of its entry.
pub enum CommandView {
    GetOrInsert(EntryView),
    GetOrInsertOnce(EntryView),
    Update(EntryView),
    Invalidate(EntryView),
    InvalidateAll,
    InvalidateEntriesIf(EntryView),
    Iterate,
}

impl View for Command {
    type V = CommandView;

    open spec fn view(&self) -> CommandView {
        match *self {
            Command::GetOrInsert(e) => CommandView::GetOrInsert(e@),
            Command::GetOrInsertOnce(e) => CommandView::GetOrInsertOnce(e@),
            Command::Update(e) => CommandView::Update(e@),
            Command::Invalidate(e) => CommandView::Invalidate(e@),
            Command::InvalidateAll => CommandView::InvalidateAll,
            Command::InvalidateEntriesIf(e) => CommandView::InvalidateEntriesIf(e@),
            Command::Iterate => CommandView::Iterate,
        }
    }
}

/// The views of a sequence of commands, in order.
pub open spec fn command_views(commands: Seq<Command>) -> Seq<CommandView> {
    Seq::new(commands.len(), |i: int| commands[i]@)
}

} // verus!
