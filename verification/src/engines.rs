//! The engines a run can be measured on, what each of them offers, and
//! which of them a configuration can use.

use crate::config::{Config, RemovalNotificationMode};
use crate::decimal::{decimal_chars, push_decimal};
use crate::load_gen::{allowed, generate, lemma_commands_follow_toggles, Generated};
use crate::trial::max_capacity_of;
use crate::CommandView;
use vstd::prelude::*;
use vstd::string::StringExecFns;

verus! {

/// The worker counts a run sweeps unless it names its own.
pub const DEFAULT_NUM_CLIENTS: [u16; 5] = [16, 24, 32, 40, 48];

/// Into how many segments the segmented cache is split.
pub const NUM_SEGMENTS: usize = 8;

/// An engine that the harness can drive.
#[derive(Clone, Copy, Debug, PartialEq, Eq, Structural)]
pub enum EngineKind {
    /// `mini_moka::unsync::Cache`, driven by one worker without a queue.
    MiniMokaUnsync,
    /// `hashlink::LruCache` behind a mutex.
    HashLink,
    /// `quick_cache::sync::Cache`.
    QuickCache,
    /// `stretto::Cache`.
    Stretto,
    /// `mini_moka::sync::Cache`.
    MiniMokaSync,
    /// `moka::sync::Cache`.
    MokaSync,
    /// `moka::future::Cache`, driven by cooperative tasks.
    MokaAsync,
    /// `moka::sync::SegmentedCache` of so many segments.
    MokaSegmented(usize),
}

/// What an engine offers beyond looking up and inserting.
#[derive(Clone, Copy, Debug, PartialEq, Eq, Structural)]
pub struct Capabilities {
    /// A single-flight initializer.
    pub insert_once: bool,
    /// Removal of a key.
    pub invalidate: bool,
    /// Removal of all entries.
    pub invalidate_all: bool,
    /// Removal by predicate.
    pub invalidate_entries_if: bool,
    /// A walk over all entries.
    pub iterate: bool,
    /// Entries of different weights.
    pub size_aware: bool,
    /// Reports of evictions.
    pub eviction_listener: bool,
    /// Time to live and time to idle.
    pub expiration: bool,
    /// Expiry decided entry by entry.
    pub per_key_expiration: bool,
}

/// What each engine offers.
pub open spec fn capabilities_of(kind: EngineKind) -> Capabilities {
    match kind {
        EngineKind::MokaSync | EngineKind::MokaAsync | EngineKind::MokaSegmented(_) => Capabilities {
            insert_once: true,
            invalidate: true,
            invalidate_all: true,
            invalidate_entries_if: true,
            iterate: true,
            size_aware: true,
            eviction_listener: true,
            expiration: true,
            per_key_expiration: true,
        },
        EngineKind::MiniMokaSync => Capabilities {
            insert_once: false,
            invalidate: true,
            invalidate_all: true,
            invalidate_entries_if: false,
            iterate: true,
            size_aware: true,
            eviction_listener: false,
            expiration: true,
            per_key_expiration: false,
        },
        EngineKind::MiniMokaUnsync => Capabilities {
            insert_once: false,
            invalidate: true,
            invalidate_all: true,
            invalidate_entries_if: true,
            iterate: true,
            size_aware: true,
            eviction_listener: false,
            expiration: true,
            per_key_expiration: false,
        },
        EngineKind::HashLink | EngineKind::QuickCache | EngineKind::Stretto => Capabilities {
            insert_once: false,
            invalidate: false,
            invalidate_all: false,
            invalidate_entries_if: false,
            iterate: false,
            size_aware: false,
            eviction_listener: false,
            expiration: false,
            per_key_expiration: false,
        },
    }
}

/// The engine offers everything the configuration turns on. The entry
/// selectors and expiry decided entry by entry are other ways of using an
/// engine, taken where the engine has them: asking for them rules no engine
/// out.
pub open spec fn offers(caps: Capabilities, config: Config) -> bool {
    &&& config.insert_once ==> caps.insert_once
    &&& config.invalidate ==> caps.invalidate
    &&& config.invalidate_all ==> caps.invalidate_all
    &&& config.invalidate_entries_if ==> caps.invalidate_entries_if
    &&& config.iterate ==> caps.iterate
    &&& config.size_aware ==> caps.size_aware
    &&& config.eviction_listener != RemovalNotificationMode::Disabled ==> caps.eviction_listener
    &&& config.ttl.is_some() || config.tti.is_some() ==> caps.expiration
}

/// The moka engines offer whatever a configuration turns on.
pub proof fn lemma_moka_offers_all(config: Config, segments: usize)
    ensures
        offers(capabilities_of(EngineKind::MokaSync), config),
        offers(capabilities_of(EngineKind::MokaAsync), config),
        offers(capabilities_of(EngineKind::MokaSegmented(segments)), config),
{
}

/// An engine of these capabilities can apply the command.
pub open spec fn accepts(caps: Capabilities, command: CommandView) -> bool {
    match command {
        CommandView::GetOrInsert(_) => true,
        CommandView::GetOrInsertOnce(_) => caps.insert_once,
        CommandView::Update(_) => caps.size_aware,
        CommandView::Invalidate(_) => caps.invalidate,
        CommandView::InvalidateAll => caps.invalidate_all,
        CommandView::InvalidateEntriesIf(_) => caps.invalidate_entries_if,
        CommandView::Iterate => caps.iterate,
    }
}

/// An engine that offers what a configuration turns on can apply every
/// command that a run under the configuration emits: whether an engine
/// suits a run is settled before the run.
pub proof fn lemma_planned_engine_accepts_commands(
    caps: Capabilities,
    config: Config,
    counter: int,
    lines: Seq<(usize, Seq<u8>)>,
)
    requires
        offers(caps, config),
    ensures
        forall|i: int|
            0 <= i < generate(config, counter, lines).commands.len() ==> accepts(
                caps,
                #[trigger] generate(config, counter, lines).commands[i],
            ),
{
    let start = Generated { commands: Seq::empty(), counter, error: None };
    lemma_commands_follow_toggles(config, start, lines);
    assert forall|i: int| 0 <= i < generate(config, counter, lines).commands.len() implies accepts(
        caps,
        #[trigger] generate(config, counter, lines).commands[i],
    ) by {
        assert(allowed(config, generate(config, counter, lines).commands[i]));
    }
}

/// The name an engine's reports go by.
pub open spec fn report_name_of(kind: EngineKind) -> Seq<char> {
    match kind {
        EngineKind::MiniMokaUnsync => "Mini Moka Unsync Cache"@,
        EngineKind::HashLink => "HashLink (LRU w/ Mutex)"@,
        EngineKind::QuickCache => "QuickCache Sync Cache"@,
        EngineKind::Stretto => "Stretto"@,
        EngineKind::MiniMokaSync => "Mini Moka Sync Cache"@,
        EngineKind::MokaSync => "Moka Sync Cache"@,
        EngineKind::MokaAsync => "Moka Async Cache"@,
        EngineKind::MokaSegmented(n) => "Moka SegmentedCache("@ + decimal_chars(n as nat) + ")"@,
    }
}

/// Whether an engine's reports show the capacity it was built with, scaled
/// for weights, rather than the number of entries.
pub open spec fn reports_scaled_capacity(kind: EngineKind) -> bool {
    match kind {
        EngineKind::HashLink | EngineKind::QuickCache | EngineKind::Stretto => false,
        _ => true,
    }
}

/// The capacity that an engine's reports show for `capacity` entries.
pub open spec fn report_capacity_of(kind: EngineKind, size_aware: bool, capacity: usize) -> int {
    if reports_scaled_capacity(kind) {
        max_capacity_of(size_aware, capacity)
    } else {
        capacity as int
    }
}

impl EngineKind {
    /// What the engine offers.
    pub fn capabilities(&self) -> (caps: Capabilities)
        ensures
            caps == capabilities_of(*self),
    {
        match self {
            EngineKind::MokaSync | EngineKind::MokaAsync | EngineKind::MokaSegmented(_) => Capabilities {
                insert_once: true,
                invalidate: true,
                invalidate_all: true,
                invalidate_entries_if: true,
                iterate: true,
                size_aware: true,
                eviction_listener: true,
                expiration: true,
                per_key_expiration: true,
            },
            EngineKind::MiniMokaSync => Capabilities {
                insert_once: false,
                invalidate: true,
                invalidate_all: true,
                invalidate_entries_if: false,
                iterate: true,
                size_aware: true,
                eviction_listener: false,
                expiration: true,
                per_key_expiration: false,
            },
            EngineKind::MiniMokaUnsync => Capabilities {
                insert_once: false,
                invalidate: true,
                invalidate_all: true,
                invalidate_entries_if: true,
                iterate: true,
                size_aware: true,
                eviction_listener: false,
                expiration: true,
                per_key_expiration: false,
            },
            EngineKind::HashLink | EngineKind::QuickCache | EngineKind::Stretto => Capabilities {
                insert_once: false,
                invalidate: false,
                invalidate_all: false,
                invalidate_entries_if: false,
                iterate: false,
                size_aware: false,
                eviction_listener: false,
                expiration: false,
                per_key_expiration: false,
            },
        }
    }

    /// Whether the engine can run the configuration: it can where it
    /// offers everything that the configuration turns on.
    pub fn supports(&self, config: &Config) -> (supported: bool)
        ensures
            supported == offers(capabilities_of(*self), *config),
    {
        let caps = self.capabilities();
        (!config.insert_once || caps.insert_once) && (!config.invalidate || caps.invalidate) && (
        !config.invalidate_all || caps.invalidate_all) && (!config.invalidate_entries_if
            || caps.invalidate_entries_if) && (!config.iterate || caps.iterate) && (
        !config.size_aware || caps.size_aware) && (!config.is_eviction_listener_enabled()
            || caps.eviction_listener) && (!(config.ttl.is_some() || config.tti.is_some())
            || caps.expiration)
    }

    /// The name the engine's reports go by.
    pub fn report_name(&self) -> (name: String)
        ensures
            name@ == report_name_of(*self),
    {
        match self {
            EngineKind::MiniMokaUnsync => String::from_str("Mini Moka Unsync Cache"),
            EngineKind::HashLink => String::from_str("HashLink (LRU w/ Mutex)"),
            EngineKind::QuickCache => String::from_str("QuickCache Sync Cache"),
            EngineKind::Stretto => String::from_str("Stretto"),
            EngineKind::MiniMokaSync => String::from_str("Mini Moka Sync Cache"),
            EngineKind::MokaSync => String::from_str("Moka Sync Cache"),
            EngineKind::MokaAsync => String::from_str("Moka Async Cache"),
            EngineKind::MokaSegmented(n) => {
                let mut name = String::from_str("Moka SegmentedCache(");
                push_decimal(&mut name, *n as u64);
                name.append(")");
                name
            },
        }
    }

    /// The capacity that the engine's reports show for `capacity` entries.
    pub fn report_capacity(&self, config: &Config, capacity: usize) -> (shown: u64)
        requires
            report_capacity_of(*self, config.size_aware, capacity) <= u64::MAX,
        ensures
            shown == report_capacity_of(*self, config.size_aware, capacity),
    {
        match self {
            EngineKind::HashLink | EngineKind::QuickCache | EngineKind::Stretto => capacity as u64,
            _ => crate::trial::max_capacity(config, capacity),
        }
    }

    /// Whether the engine is driven by several workers through a queue.
    pub fn has_workers(&self) -> (workers: bool)
        ensures
            workers == (*self != EngineKind::MiniMokaUnsync),
    {
        match self {
            EngineKind::MiniMokaUnsync => false,
            _ => true,
        }
    }
}

/// The engines in the order in which a run measures them.
pub open spec fn all_engines() -> Seq<EngineKind> {
    seq![
        EngineKind::MiniMokaUnsync,
        EngineKind::HashLink,
        EngineKind::QuickCache,
        EngineKind::Stretto,
        EngineKind::MiniMokaSync,
        EngineKind::MokaSync,
        EngineKind::MokaAsync,
        EngineKind::MokaSegmented(NUM_SEGMENTS),
    ]
}

/// The engines that a configuration is measured on: all that support it, in
/// order.
pub fn planned_engines(config: &Config) -> (engines: Vec<EngineKind>)
    ensures
        engines@ == all_engines().filter(|kind: EngineKind| offers(capabilities_of(kind), *config)),
{
    let all = [
        EngineKind::MiniMokaUnsync,
        EngineKind::HashLink,
        EngineKind::QuickCache,
        EngineKind::Stretto,
        EngineKind::MiniMokaSync,
        EngineKind::MokaSync,
        EngineKind::MokaAsync,
        EngineKind::MokaSegmented(NUM_SEGMENTS),
    ];
    let ghost supported = |kind: EngineKind| offers(capabilities_of(kind), *config);
    assert(all@ =~= all_engines());
    let mut engines: Vec<EngineKind> = Vec::new();
    let mut i: usize = 0;
    assert(all@.take(0) =~= Seq::<EngineKind>::empty());
    proof {
        reveal(Seq::filter);
    }
    while i < 8
        invariant
            i <= 8,
            all@ == all_engines(),
            all@.len() == 8,
            supported == (|kind: EngineKind| offers(capabilities_of(kind), *config)),
            engines@ == all@.take(i as int).filter(supported),
        decreases 8 - i,
    {
        proof {
            reveal(Seq::filter);
            assert(all@.take(i + 1).drop_last() =~= all@.take(i as int));
            assert(all@.take(i + 1).last() == all@[i as int]);
        }
        if all[i].supports(config) {
            engines.push(all[i]);
        }
        i = i + 1;
    }
    assert(all@.take(8) =~= all@);
    engines
}

/// The worker counts that a run sweeps: its own, or the default ones.
pub fn num_clients(config: &Config) -> (counts: Vec<u16>)
    ensures
        counts@ == match config.num_clients {
            Some(own) => own@,
            None => DEFAULT_NUM_CLIENTS@,
        },
{
    match &config.num_clients {
        Some(own) => own.clone(),
        None => {
            let counts = vec![16u16, 24, 32, 40, 48];
            assert(counts@ =~= DEFAULT_NUM_CLIENTS@);
            counts
        },
    }
}

/// The eviction listener mode that goes by `name`.
pub open spec fn listener_mode_named(name: Seq<char>) -> Option<RemovalNotificationMode> {
    if name == "immediate"@ {
        Some(RemovalNotificationMode::Immediate)
    } else if name == "queued"@ {
        Some(RemovalNotificationMode::Queued)
    } else {
        None
    }
}

/// Reads an eviction listener mode: `immediate` or `queued`.
pub fn listener_mode(name: &str) -> (mode: Option<RemovalNotificationMode>)
    ensures
        mode == listener_mode_named(name@),
{
    if crate::text::same_text(name, "immediate") {
        Some(RemovalNotificationMode::Immediate)
    } else if crate::text::same_text(name, "queued") {
        Some(RemovalNotificationMode::Queued)
    } else {
        None
    }
}

} // verus!
