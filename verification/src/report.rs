//! What a worker counted, and how the counts of many workers become one
//! record.

use crate::decimal::{decimal_chars, push_decimal};
use crate::eviction_counters::{EvictionCounters, EvictionCounts};
use crate::span::Span;
use vstd::prelude::*;
use vstd::string::StringExecFns;

verus! {

/// The template of a trial's reports: every worker starts from a report
/// built of it.
pub struct ReportBuilder {
    name: String,
    capacity: u64,
    num_workers: Option<u16>,
}

impl ReportBuilder {
    pub closed spec fn name(&self) -> Seq<char> {
        self.name@
    }

    pub closed spec fn capacity(&self) -> u64 {
        self.capacity
    }

    pub closed spec fn num_workers(&self) -> Option<u16> {
        self.num_workers
    }

    pub fn new(name: &str, capacity: u64, num_workers: Option<u16>) -> (builder: ReportBuilder)
        ensures
            builder.name() == name@,
            builder.capacity() == capacity,
            builder.num_workers() == num_workers,
    {
        ReportBuilder { name: String::from_str(name), capacity, num_workers }
    }

    /// A report that has counted nothing yet.
    pub fn build(&self) -> (report: Report)
        ensures
            report.is_fresh(self.name(), self.capacity(), self.num_workers()),
    {
        Report::new(self.name.as_str(), self.capacity, self.num_workers)
    }
}

#[derive(Clone, Debug)]
pub struct Report {
    pub name: String,
    pub capacity: u64,
    pub num_workers: Option<u16>,
    pub has_eviction_counts: bool,
    pub insert_count: u64,
    pub read_count: u64,
    pub hit_count: u64,
    pub invalidation_count: u64,
    /// Entries evicted to keep the cache within its capacity.
    pub eviction_count: u64,
    pub expiration_count: u64,
    pub duration: Option<Span>,
}

/// The six counts of a report.
pub struct Counts {
    pub insert: int,
    pub read: int,
    pub hit: int,
    pub invalidation: int,
    pub eviction: int,
    pub expiration: int,
}

impl Counts {
    /// Count by count, the sum of two.
    pub open spec fn plus(self, other: Counts) -> Counts {
        Counts {
            insert: self.insert + other.insert,
            read: self.read + other.read,
            hit: self.hit + other.hit,
            invalidation: self.invalidation + other.invalidation,
            eviction: self.eviction + other.eviction,
            expiration: self.expiration + other.expiration,
        }
    }

    /// Count by count, the difference of two.
    pub open spec fn minus(self, other: Counts) -> Counts {
        Counts {
            insert: self.insert - other.insert,
            read: self.read - other.read,
            hit: self.hit - other.hit,
            invalidation: self.invalidation - other.invalidation,
            eviction: self.eviction - other.eviction,
            expiration: self.expiration - other.expiration,
        }
    }

    /// Every count is at least the matching count of `other`.
    pub open spec fn covers(self, other: Counts) -> bool {
        &&& self.insert >= other.insert
        &&& self.read >= other.read
        &&& self.hit >= other.hit
        &&& self.invalidation >= other.invalidation
        &&& self.eviction >= other.eviction
        &&& self.expiration >= other.expiration
    }

    /// These counts with the engine's eviction counts added: invalidations,
    /// evictions for capacity and expirations.
    pub open spec fn with_evictions(self, counts: EvictionCounts) -> Counts {
        Counts {
            invalidation: self.invalidation + counts.explicit,
            eviction: self.eviction + counts.size,
            expiration: self.expiration + counts.expired,
            ..self
        }
    }

    /// No invalidation, eviction or expiration is counted.
    pub open spec fn holds_no_evictions(self) -> bool {
        self.invalidation == 0 && self.eviction == 0 && self.expiration == 0
    }

    /// Every count is one a report can hold.
    pub open spec fn fits(self) -> bool {
        &&& 0 <= self.insert <= u64::MAX
        &&& 0 <= self.read <= u64::MAX
        &&& 0 <= self.hit <= u64::MAX
        &&& 0 <= self.invalidation <= u64::MAX
        &&& 0 <= self.eviction <= u64::MAX
        &&& 0 <= self.expiration <= u64::MAX
    }
}

/// The separator of a record's fields.
pub open spec fn field_separator() -> Seq<char> {
    ", "@
}

impl Report {
    /// The six counts.
    pub open spec fn counts(&self) -> Counts {
        Counts {
            insert: self.insert_count as int,
            read: self.read_count as int,
            hit: self.hit_count as int,
            invalidation: self.invalidation_count as int,
            eviction: self.eviction_count as int,
            expiration: self.expiration_count as int,
        }
    }

    /// No more hits than reads.
    pub open spec fn consistent(&self) -> bool {
        self.hit_count <= self.read_count
    }

    /// The lookups that found nothing: reads that were no hits.
    pub open spec fn missed_count(&self) -> int {
        self.read_count - self.hit_count
    }

    /// The report says whose it is and has counted nothing.
    pub open spec fn is_fresh(&self, name: Seq<char>, capacity: u64, num_workers: Option<u16>) -> bool {
        &&& self.name@ == name
        &&& self.capacity == capacity
        &&& self.num_workers == num_workers
        &&& !self.has_eviction_counts
        &&& self.counts() == Counts::zero()
        &&& self.duration.is_none()
    }

    /// Name, capacity, worker count, eviction flag and duration are those of
    /// `other`.
    pub open spec fn same_heading(&self, other: &Report) -> bool {
        &&& self.name@ == other.name@
        &&& self.capacity == other.capacity
        &&& self.num_workers == other.num_workers
        &&& self.has_eviction_counts == other.has_eviction_counts
        &&& self.duration == other.duration
    }

    pub fn new(name: &str, capacity: u64, num_workers: Option<u16>) -> (report: Report)
        ensures
            report.is_fresh(name@, capacity, num_workers),
            report.consistent(),
    {
        Report {
            name: String::from_str(name),
            capacity,
            num_workers,
            has_eviction_counts: false,
            insert_count: 0,
            read_count: 0,
            hit_count: 0,
            invalidation_count: 0,
            eviction_count: 0,
            expiration_count: 0,
            duration: None,
        }
    }

    /// Adds the counts of `other` to this report's own; the heading stays.
    pub fn merge(&mut self, other: &Report)
        requires
            old(self).counts().plus(other.counts()).fits(),
        ensures
            final(self).counts() == old(self).counts().plus(other.counts()),
            final(self).same_heading(old(self)),
            old(self).consistent() && other.consistent() ==> final(self).consistent(),
    {
        self.insert_count += other.insert_count;
        self.read_count += other.read_count;
        self.hit_count += other.hit_count;
        self.invalidation_count += other.invalidation_count;
        self.eviction_count += other.eviction_count;
        self.expiration_count += other.expiration_count;
    }

    /// Adds the counts of `other` where every sum fits; says whether it
    /// did, and leaves the report as it is where it did not.
    pub fn try_merge(&mut self, other: &Report) -> (merged: bool)
        ensures
            merged == old(self).counts().plus(other.counts()).fits(),
            merged ==> final(self).counts() == old(self).counts().plus(other.counts()),
            !merged ==> final(self).counts() == old(self).counts(),
            final(self).same_heading(old(self)),
            old(self).consistent() && other.consistent() ==> final(self).consistent(),
    {
        if other.insert_count <= u64::MAX - self.insert_count && other.read_count <= u64::MAX
            - self.read_count && other.hit_count <= u64::MAX - self.hit_count
            && other.invalidation_count <= u64::MAX - self.invalidation_count
            && other.eviction_count <= u64::MAX - self.eviction_count
            && other.expiration_count <= u64::MAX - self.expiration_count {
            self.merge(other);
            true
        } else {
            false
        }
    }

    /// The report that `diff` subtracts from: the one with more inserts,
    /// `other` where both have as many.
    pub open spec fn minuend<'a>(&'a self, other: &'a Report) -> &'a Report {
        if self.insert_count > other.insert_count {
            self
        } else {
            other
        }
    }

    /// The report that `diff` subtracts.
    pub open spec fn subtrahend<'a>(&'a self, other: &'a Report) -> &'a Report {
        if self.insert_count > other.insert_count {
            other
        } else {
            self
        }
    }

    /// The span between two snapshots' durations, where both have one.
    pub open spec fn duration_between(longer: Option<Span>, shorter: Option<Span>) -> Option<Span> {
        match (longer, shorter) {
            (Some(l), Some(s)) => Some(Span { nanos: (l.nanos - s.nanos) as u128 }),
            _ => None,
        }
    }

    /// The minuend's counts and duration are at least the subtrahend's.
    pub open spec fn can_diff(&self, other: &Report) -> bool {
        let l = self.minuend(other);
        let s = self.subtrahend(other);
        &&& l.counts().covers(s.counts())
        &&& l.duration.is_some() && s.duration.is_some() ==> l.duration.unwrap().nanos
            >= s.duration.unwrap().nanos
    }

    /// Whether `diff` can be taken of the two snapshots.
    pub fn is_diffable(&self, other: &Report) -> (can: bool)
        ensures
            can == self.can_diff(other),
    {
        let (l, s) = if self.insert_count > other.insert_count {
            (self, other)
        } else {
            (other, self)
        };
        let durations = match (l.duration, s.duration) {
            (Some(d_l), Some(d_s)) => d_l.nanos >= d_s.nanos,
            _ => true,
        };
        durations && l.insert_count >= s.insert_count && l.read_count >= s.read_count
            && l.hit_count >= s.hit_count && l.invalidation_count >= s.invalidation_count
            && l.eviction_count >= s.eviction_count && l.expiration_count >= s.expiration_count
    }

    /// What two snapshots of one report differ by: the counts and duration
    /// of the one with more inserts, less those of the other, under the
    /// name, capacity, worker count and eviction flag of `self`.
    pub fn diff(&self, other: &Report) -> (d: Report)
        requires
            self.can_diff(other),
        ensures
            d.counts() == self.minuend(other).counts().minus(self.subtrahend(other).counts()),
            d.duration == Report::duration_between(
                self.minuend(other).duration,
                self.subtrahend(other).duration,
            ),
            d.name@ == self.name@,
            d.capacity == self.capacity,
            d.num_workers == self.num_workers,
            d.has_eviction_counts == self.has_eviction_counts,
            d.consistent() == (self.minuend(other).missed_count() >= self.subtrahend(
                other,
            ).missed_count()),
    {
        let (l, s) = if self.insert_count > other.insert_count {
            (self, other)
        } else {
            (other, self)
        };
        let duration = match (l.duration, s.duration) {
            (Some(d_l), Some(d_s)) => Some(Span { nanos: d_l.nanos - d_s.nanos }),
            _ => None,
        };
        Report {
            name: self.name.clone(),
            capacity: self.capacity,
            num_workers: self.num_workers,
            has_eviction_counts: self.has_eviction_counts,
            insert_count: l.insert_count - s.insert_count,
            read_count: l.read_count - s.read_count,
            hit_count: l.hit_count - s.hit_count,
            invalidation_count: l.invalidation_count - s.invalidation_count,
            eviction_count: l.eviction_count - s.eviction_count,
            expiration_count: l.expiration_count - s.expiration_count,
            duration,
        }
    }

    /// The counts of this report with the engine's eviction counts added:
    /// invalidations, evictions for capacity and expirations.
    pub open spec fn counts_with_evictions(&self, counts: EvictionCounts) -> Counts {
        Counts {
            invalidation: self.invalidation_count + counts.explicit,
            eviction: self.eviction_count + counts.size,
            expiration: self.expiration_count + counts.expired,
            ..self.counts()
        }
    }

    /// Adds the engine's eviction counts and marks the report as carrying
    /// them.
    pub fn add_eviction_totals(&mut self, counts: &EvictionCounts)
        requires
            old(self).counts_with_evictions(*counts).fits(),
        ensures
            final(self).counts() == old(self).counts_with_evictions(*counts),
            final(self).has_eviction_counts,
            final(self).name@ == old(self).name@,
            final(self).capacity == old(self).capacity,
            final(self).num_workers == old(self).num_workers,
            final(self).duration == old(self).duration,
    {
        self.has_eviction_counts = true;
        self.invalidation_count += counts.explicit;
        self.eviction_count += counts.size;
        self.expiration_count += counts.expired;
    }

    /// Reads the engine's eviction counters once and adds what they hold.
    ///
    /// Returns whether the counts were added: they are added, and the report
    /// marked as carrying them, exactly where every sum fits; otherwise the
    /// report stays as it is. They always fit a report that holds no
    /// eviction counts yet.
    pub fn add_eviction_counts(&mut self, eviction_counters: &EvictionCounters) -> (added: bool)
        ensures
            exists|counts: EvictionCounts| #[trigger]
                Report::evictions_taken(old(self), final(self), counts, added),
            old(self).holds_no_evictions() ==> added,
    {
        let counts = eviction_counters.snapshot();
        let added = self.try_add_eviction_totals(&counts);
        proof {
            assert(Report::evictions_taken(old(self), self, counts, added));
            if old(self).holds_no_evictions() {
                assert(old(self).counts_with_evictions(counts).fits());
            }
        }
        added
    }

    /// The report has counted no invalidation, eviction or expiration.
    pub open spec fn holds_no_evictions(&self) -> bool {
        self.invalidation_count == 0 && self.eviction_count == 0 && self.expiration_count == 0
    }

    /// The report went from `before` to `after` by taking the eviction
    /// counts `counts`, or by leaving them out, as `added` says: they are
    /// taken exactly where every sum fits, and then added to the
    /// invalidations, the evictions and the expirations, the report being
    /// marked as carrying them; left out, they change nothing. Name,
    /// capacity, worker count and duration stay either way.
    pub open spec fn evictions_taken(
        before: &Report,
        after: &Report,
        counts: EvictionCounts,
        added: bool,
    ) -> bool {
        &&& added == before.counts_with_evictions(counts).fits()
        &&& after.counts() == if added {
            before.counts_with_evictions(counts)
        } else {
            before.counts()
        }
        &&& after.has_eviction_counts == (added || before.has_eviction_counts)
        &&& after.name@ == before.name@
        &&& after.capacity == before.capacity
        &&& after.num_workers == before.num_workers
        &&& after.duration == before.duration
    }

    /// Adds the eviction counts where every sum fits; says whether it did,
    /// and leaves the report as it is where it did not.
    pub fn try_add_eviction_totals(&mut self, counts: &EvictionCounts) -> (added: bool)
        ensures
            Report::evictions_taken(old(self), final(self), *counts, added),
    {
        if counts.explicit <= u64::MAX - self.invalidation_count && counts.size <= u64::MAX
            - self.eviction_count && counts.expired <= u64::MAX - self.expiration_count {
            self.add_eviction_totals(counts);
            true
        } else {
            false
        }
    }

    /// The header line of the records, with or without the eviction columns.
    pub open spec fn csv_header(has_eviction_counters: bool) -> Seq<char> {
        if has_eviction_counters {
            "Cache, Max Capacity, Clients, Inserts, Reads, Hit Ratio, Invalidates, Evicted by Size, Expired, Duration Secs"@
        } else {
            "Cache, Max Capacity, Clients, Inserts, Reads, Hit Ratio, Duration Secs"@
        }
    }

    pub fn cvs_header(has_eviction_counters: bool) -> (header: String)
        ensures
            header@ == Report::csv_header(has_eviction_counters),
    {
        if has_eviction_counters {
            String::from_str(
                "Cache, Max Capacity, Clients, Inserts, Reads, Hit Ratio, Invalidates, Evicted by Size, Expired, Duration Secs",
            )
        } else {
            String::from_str(
                "Cache, Max Capacity, Clients, Inserts, Reads, Hit Ratio, Duration Secs",
            )
        }
    }

    /// The worker-count field: the number, or `-` for a run without workers.
    pub open spec fn workers_field(num_workers: Option<u16>) -> Seq<char> {
        match num_workers {
            Some(n) => decimal_chars(n as nat),
            None => "-"@,
        }
    }

    /// The duration field: the seconds as they are given, or `-` for a report
    /// whose duration was not measured.
    pub open spec fn duration_field(duration: Option<Span>, seconds: Seq<char>) -> Seq<char> {
        match duration {
            Some(_) => seconds,
            None => "-"@,
        }
    }

    /// The record of this report: name, capacity, workers, inserts, reads,
    /// hit ratio, the three eviction counts where the report carries them,
    /// and duration, separated by a comma and a space. The hit ratio and
    /// the seconds of the duration stand as they are given.
    pub open spec fn csv_record(&self, hit_ratio: Seq<char>, seconds: Seq<char>) -> Seq<char> {
        let head = self.name@ + field_separator() + decimal_chars(self.capacity as nat)
            + field_separator() + Report::workers_field(self.num_workers) + field_separator()
            + decimal_chars(self.insert_count as nat) + field_separator() + decimal_chars(
            self.read_count as nat,
        ) + field_separator() + hit_ratio;
        let counts = if self.has_eviction_counts {
            head + field_separator() + decimal_chars(self.invalidation_count as nat)
                + field_separator() + decimal_chars(self.eviction_count as nat)
                + field_separator() + decimal_chars(self.expiration_count as nat)
        } else {
            head
        };
        counts + field_separator() + Report::duration_field(self.duration, seconds)
    }

    /// Writes the report as one record. `hit_ratio` is the text of the hit
    /// ratio and `seconds` that of the duration in seconds, as the caller
    /// renders them; `seconds` is not looked at where the report has no
    /// duration.
    pub fn to_csv_record(&self, hit_ratio: &str, seconds: &str) -> (record: String)
        ensures
            record@ == self.csv_record(hit_ratio@, seconds@),
    {
        let mut record = self.name.clone();
        record.append(", ");
        push_decimal(&mut record, self.capacity);
        record.append(", ");
        match self.num_workers {
            Some(n) => push_decimal(&mut record, n as u64),
            None => record.append("-"),
        }
        record.append(", ");
        push_decimal(&mut record, self.insert_count);
        record.append(", ");
        push_decimal(&mut record, self.read_count);
        record.append(", ");
        record.append(hit_ratio);
        if self.has_eviction_counts {
            record.append(", ");
            push_decimal(&mut record, self.invalidation_count);
            record.append(", ");
            push_decimal(&mut record, self.eviction_count);
            record.append(", ");
            push_decimal(&mut record, self.expiration_count);
        }
        record.append(", ");
        match self.duration {
            Some(_) => record.append(seconds),
            None => record.append("-"),
        }
        record
    }
}

/// Hits stay within reads when counts are added: where neither of two has
/// more hits than reads, their sum has not.
pub proof fn lemma_merge_keeps_hits_within_reads(a: Counts, b: Counts)
    requires
        a.hit <= a.read,
        b.hit <= b.read,
    ensures
        a.plus(b).hit <= a.plus(b).read,
        a.plus(b).read - a.plus(b).hit == (a.read - a.hit) + (b.read - b.hit),
{
}

/// Merging adds count by count, so the order of two reports does not matter
/// to the counts.
pub proof fn lemma_merge_commutative(a: Counts, b: Counts)
    ensures
        a.plus(b) == b.plus(a),
{
}

/// Merging adds count by count, so reports may be merged in any grouping.
pub proof fn lemma_merge_associative(a: Counts, b: Counts, c: Counts)
    ensures
        a.plus(b).plus(c) == a.plus(b.plus(c)),
{
}

/// A report that has counted nothing changes no count it is merged into.
pub proof fn lemma_merge_zero(a: Counts)
    ensures
        a.plus(Counts::zero()) == a,
        Counts::zero().plus(a) == a,
{
}

/// The difference of two snapshots does not depend on which of them `diff`
/// is called on, where their insert counts differ.
pub proof fn lemma_diff_either_order(a: Report, b: Report)
    requires
        a.insert_count != b.insert_count,
    ensures
        a.minuend(&b) == b.minuend(&a),
        a.subtrahend(&b) == b.subtrahend(&a),
        a.can_diff(&b) == b.can_diff(&a),
        a.minuend(&b).counts().minus(a.subtrahend(&b).counts()).insert > 0,
{
}

impl Counts {
    /// All counts zero.
    pub open spec fn zero() -> Counts {
        Counts { insert: 0, read: 0, hit: 0, invalidation: 0, eviction: 0, expiration: 0 }
    }
}

} // verus!
