//! Counters of the operations that reading takes.
use crate::key::same_name;
use vstd::prelude::*;

verus! {

const STAT_TOTAL: &'static str = "total";

const STAT_PROCESSED: &'static str = "processed";

const STAT_GET: &'static str = "get";

const STAT_NEXT: &'static str = "next";

const STAT_PREV: &'static str = "prev";

const STAT_SEEK: &'static str = "seek";

const STAT_SEEK_FOR_PREV: &'static str = "seek_for_prev";

const STAT_OVER_SEEK_BOUND: &'static str = "over_seek_bound";

/// The name of a column family.
pub type CfName = &'static str;

/// The column family that holds the data.
pub const CF_DEFAULT: &'static str = "default";

/// The column family that holds the locks.
pub const CF_LOCK: &'static str = "lock";

/// The column family that holds the write records.
pub const CF_WRITE: &'static str = "write";

/// The column family that holds the raft log.
pub const CF_RAFT: &'static str = "raft";

/// The sum of two counters, which stops at the largest value that a counter holds.
pub open spec fn capped_sum(a: usize, b: usize) -> usize {
    if a + b > usize::MAX {
        usize::MAX
    } else {
        (a + b) as usize
    }
}

/// How much was read.
#[derive(Debug, Clone)]
pub struct FlowStatistics {
    pub read_keys: usize,
    pub read_bytes: usize,
}

impl Default for FlowStatistics {
    fn default() -> (stat: FlowStatistics)
        ensures
            stat == (FlowStatistics { read_keys: 0, read_bytes: 0 }),
    {
        FlowStatistics { read_keys: 0, read_bytes: 0 }
    }
}

impl FlowStatistics {
    /// What `add` makes of these counters: the keys of both are added up, and the
    /// bytes of `other` are counted from the number of keys that were read before.
    pub open spec fn merged(self, other: FlowStatistics) -> FlowStatistics {
        FlowStatistics {
            read_keys: capped_sum(self.read_keys, other.read_keys),
            read_bytes: capped_sum(self.read_keys, other.read_bytes),
        }
    }

    /// Takes the counters of `other` in.
    pub fn add(&mut self, other: &Self)
        ensures
            *final(self) == old(self).merged(*other),
    {
        self.read_bytes = self.read_keys.saturating_add(other.read_bytes);
        self.read_keys = self.read_keys.saturating_add(other.read_keys);
    }
}

/// Statistics collects the ops taken when fetching data.
#[derive(Debug, Clone)]
pub struct CFStatistics {
    /// How many keys are of effect to the user. The caller increases this counter.
    pub processed: usize,
    pub get: usize,
    pub next: usize,
    pub prev: usize,
    pub seek: usize,
    pub seek_for_prev: usize,
    pub over_seek_bound: usize,
    pub flow_stats: FlowStatistics,
}

impl Default for CFStatistics {
    fn default() -> (stat: CFStatistics)
        ensures
            stat == CFStatistics::zero(),
    {
        CFStatistics {
            processed: 0,
            get: 0,
            next: 0,
            prev: 0,
            seek: 0,
            seek_for_prev: 0,
            over_seek_bound: 0,
            flow_stats: FlowStatistics::default(),
        }
    }
}

/// What a scan of one column family took, as it is reported to the client.
#[derive(Debug, PartialEq, Eq, Clone, Copy, Structural)]
pub struct ScanInfo {
    pub processed: i64,
    pub total: i64,
}

/// The number that a counter is reported as: itself, or, past the largest signed
/// number, what remains of it in two's complement.
pub open spec fn reported(n: int) -> int {
    if n <= i64::MAX {
        n
    } else {
        n - 0x1_0000_0000_0000_0000
    }
}

fn report(n: usize) -> (r: i64)
    ensures
        r == reported(n as int),
{
    let wide: u64 = n as u64;
    let r: i64 = #[verifier::truncate] (wide as i64);
    assert(wide <= 0x7fff_ffff_ffff_ffff ==> (wide as i64) == wide) by (bit_vector);
    assert(wide > 0x7fff_ffff_ffff_ffff ==> (wide as i64) == wide - 0x1_0000_0000_0000_0000)
        by (bit_vector);
    r
}

impl CFStatistics {
    /// All counters at zero.
    pub open spec fn zero() -> CFStatistics {
        CFStatistics {
            processed: 0,
            get: 0,
            next: 0,
            prev: 0,
            seek: 0,
            seek_for_prev: 0,
            over_seek_bound: 0,
            flow_stats: FlowStatistics { read_keys: 0, read_bytes: 0 },
        }
    }

    /// How many operations were made, of every kind.
    pub open spec fn op_count(self) -> int {
        self.get + self.next + self.prev + self.seek + self.seek_for_prev
    }

    /// How many operations were made, of every kind.
    #[inline]
    pub fn total_op_count(&self) -> (n: usize)
        requires
            self.op_count() <= usize::MAX,
        ensures
            n == self.op_count(),
    {
        self.get + self.next + self.prev + self.seek + self.seek_for_prev
    }

    /// The counters under their names, in the order in which they are listed.
    pub open spec fn listing(self) -> Seq<(&'static str, usize)> {
        seq![
            ("total", self.op_count() as usize),
            ("processed", self.processed),
            ("get", self.get),
            ("next", self.next),
            ("prev", self.prev),
            ("seek", self.seek),
            ("seek_for_prev", self.seek_for_prev),
            ("over_seek_bound", self.over_seek_bound),
        ]
    }

    /// Lists the counters under their names.
    pub fn details(&self) -> (list: Vec<(&str, usize)>)
        requires
            self.op_count() <= usize::MAX,
        ensures
            list@ == self.listing(),
    {
        vec![
            (STAT_TOTAL, self.total_op_count()),
            (STAT_PROCESSED, self.processed),
            (STAT_GET, self.get),
            (STAT_NEXT, self.next),
            (STAT_PREV, self.prev),
            (STAT_SEEK, self.seek),
            (STAT_SEEK_FOR_PREV, self.seek_for_prev),
            (STAT_OVER_SEEK_BOUND, self.over_seek_bound),
        ]
    }

    /// What `add` makes of these counters.
    pub open spec fn merged(self, other: CFStatistics) -> CFStatistics {
        CFStatistics {
            processed: capped_sum(self.processed, other.processed),
            get: capped_sum(self.get, other.get),
            next: capped_sum(self.next, other.next),
            prev: capped_sum(self.prev, other.prev),
            seek: capped_sum(self.seek, other.seek),
            seek_for_prev: capped_sum(self.seek_for_prev, other.seek_for_prev),
            over_seek_bound: capped_sum(self.over_seek_bound, other.over_seek_bound),
            flow_stats: self.flow_stats.merged(other.flow_stats),
        }
    }

    /// Takes the counters of `other` in; none of them goes past the largest value.
    pub fn add(&mut self, other: &Self)
        ensures
            *final(self) == old(self).merged(*other),
    {
        self.processed = self.processed.saturating_add(other.processed);
        self.get = self.get.saturating_add(other.get);
        self.next = self.next.saturating_add(other.next);
        self.prev = self.prev.saturating_add(other.prev);
        self.seek = self.seek.saturating_add(other.seek);
        self.seek_for_prev = self.seek_for_prev.saturating_add(other.seek_for_prev);
        self.over_seek_bound = self.over_seek_bound.saturating_add(other.over_seek_bound);
        self.flow_stats.add(&other.flow_stats);
    }

    /// Whether `info` reports these counters.
    pub open spec fn reported_by(self, info: ScanInfo) -> bool {
        &&& info.processed == reported(self.processed as int)
        &&& info.total == reported(self.op_count())
    }

    /// Reports how many keys were processed and how many operations that took.
    pub fn scan_info(&self) -> (info: ScanInfo)
        requires
            self.op_count() <= usize::MAX,
        ensures
            self.reported_by(info),
    {
        ScanInfo { processed: report(self.processed), total: report(self.total_op_count()) }
    }
}

/// What a scan took in each column family, as it is reported to the client.
#[derive(Debug, PartialEq, Eq, Clone, Copy, Structural)]
pub struct ScanDetail {
    pub write: ScanInfo,
    pub lock: ScanInfo,
    pub data: ScanInfo,
}

/// The counters of each column family.
#[derive(Debug, Clone)]
pub struct Statistics {
    pub lock: CFStatistics,
    pub write: CFStatistics,
    pub data: CFStatistics,
}

impl Default for Statistics {
    fn default() -> (stat: Statistics)
        ensures
            stat == Statistics::zero(),
    {
        Statistics {
            lock: CFStatistics::default(),
            write: CFStatistics::default(),
            data: CFStatistics::default(),
        }
    }
}

/// A part of the statistics: the counters of one column family.
#[derive(Debug, PartialEq, Eq, Clone, Copy, Structural)]
pub enum CfPart {
    Data,
    Lock,
    Write,
}

/// Which counters stand under the name of a column family: those of the data under
/// the empty name and the default name, and none under any other name than these
/// and the names of the lock and the write column family.
pub open spec fn cf_part(cf: Seq<char>) -> Option<CfPart> {
    if cf.len() == 0 || cf == CF_DEFAULT@ {
        Some(CfPart::Data)
    } else if cf == CF_LOCK@ {
        Some(CfPart::Lock)
    } else if cf == CF_WRITE@ {
        Some(CfPart::Write)
    } else {
        None
    }
}

impl Statistics {
    /// All counters at zero.
    pub open spec fn zero() -> Statistics {
        Statistics {
            lock: CFStatistics::zero(),
            write: CFStatistics::zero(),
            data: CFStatistics::zero(),
        }
    }

    /// How many operations were made in all column families.
    pub open spec fn op_count(self) -> int {
        self.lock.op_count() + self.write.op_count() + self.data.op_count()
    }

    /// Whether the operations of each column family can be counted.
    pub open spec fn each_countable(self) -> bool {
        &&& self.lock.op_count() <= usize::MAX
        &&& self.write.op_count() <= usize::MAX
        &&& self.data.op_count() <= usize::MAX
    }

    /// How many operations were made in all column families.
    pub fn total_op_count(&self) -> (n: usize)
        requires
            self.op_count() <= usize::MAX,
        ensures
            n == self.op_count(),
    {
        self.lock.total_op_count() + self.write.total_op_count() + self.data.total_op_count()
    }

    /// How many keys were processed in all column families.
    pub fn total_processed(&self) -> (n: usize)
        requires
            self.lock.processed + self.write.processed + self.data.processed <= usize::MAX,
        ensures
            n == self.lock.processed + self.write.processed + self.data.processed,
    {
        self.lock.processed + self.write.processed + self.data.processed
    }

    /// Lists the counters of each column family under its name.
    pub fn details(&self) -> (list: Vec<(&str, Vec<(&str, usize)>)>)
        requires
            self.each_countable(),
        ensures
            list@.len() == 3,
            list@[0].0 == CF_DEFAULT && list@[0].1@ == self.data.listing(),
            list@[1].0 == CF_LOCK && list@[1].1@ == self.lock.listing(),
            list@[2].0 == CF_WRITE && list@[2].1@ == self.write.listing(),
    {
        vec![
            (CF_DEFAULT, self.data.details()),
            (CF_LOCK, self.lock.details()),
            (CF_WRITE, self.write.details()),
        ]
    }

    /// What `add` makes of these counters.
    pub open spec fn merged(self, other: Statistics) -> Statistics {
        Statistics {
            lock: self.lock.merged(other.lock),
            write: self.write.merged(other.write),
            data: self.data.merged(other.data),
        }
    }

    /// Takes the counters of `other` in, column family by column family.
    pub fn add(&mut self, other: &Self)
        ensures
            *final(self) == old(self).merged(*other),
    {
        self.lock.add(&other.lock);
        self.write.add(&other.write);
        self.data.add(&other.data);
    }

    /// Reports what was done in each column family.
    pub fn scan_detail(&self) -> (detail: ScanDetail)
        requires
            self.each_countable(),
        ensures
            self.data.reported_by(detail.data),
            self.lock.reported_by(detail.lock),
            self.write.reported_by(detail.write),
    {
        ScanDetail {
            data: self.data.scan_info(),
            lock: self.lock.scan_info(),
            write: self.write.scan_info(),
        }
    }

    /// The counters of one part.
    pub open spec fn part(self, part: CfPart) -> CFStatistics {
        match part {
            CfPart::Data => self.data,
            CfPart::Lock => self.lock,
            CfPart::Write => self.write,
        }
    }

    /// The statistics with the counters of one part replaced.
    pub open spec fn with_part(self, part: CfPart, stat: CFStatistics) -> Statistics {
        match part {
            CfPart::Data => Statistics { data: stat, ..self },
            CfPart::Lock => Statistics { lock: stat, ..self },
            CfPart::Write => Statistics { write: stat, ..self },
        }
    }

    /// The counters that stand under the name of a column family, to be changed.
    pub fn mut_cf_statistics(&mut self, cf: &str) -> (stat: &mut CFStatistics)
        requires
            cf_part(cf@) is Some,
        ensures
            *stat == old(self).part(cf_part(cf@)->0),
            *final(self) == old(self).with_part(cf_part(cf@)->0, *final(stat)),
    {
        if cf.is_empty() {
            return &mut self.data;
        }
        if same_name(cf, CF_DEFAULT) {
            &mut self.data
        } else if same_name(cf, CF_LOCK) {
            &mut self.lock
        } else {
            &mut self.write
        }
    }
}

/// The counters of several requests added up, and how many requests these were.
#[derive(Debug)]
pub struct StatisticsSummary {
    pub stat: Statistics,
    pub count: u64,
}

impl Default for StatisticsSummary {
    fn default() -> (summary: StatisticsSummary)
        ensures
            summary == (StatisticsSummary { stat: Statistics::zero(), count: 0 }),
    {
        StatisticsSummary { stat: Statistics::default(), count: 0 }
    }
}

impl StatisticsSummary {
    /// Takes the counters of one more request in.
    pub fn add_statistics(&mut self, v: &Statistics)
        requires
            old(self).count < u64::MAX,
        ensures
            final(self).stat == old(self).stat.merged(*v),
            final(self).count == old(self).count + 1,
    {
        self.stat.add(v);
        self.count += 1;
    }
}

} // verus!
