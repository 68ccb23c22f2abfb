//! What holds of every call that takes counters together, lists or reports them.
use crate::statistics::{CFStatistics, FlowStatistics, ScanDetail, ScanInfo};
use crate::statistics::{Statistics, StatisticsSummary};
use vstd::prelude::*;

verus! {

/// Whether `sum` is what two counters come to together: their sum, or the largest value
/// that a counter holds where the sum is larger than that.
pub open spec fn takes_together(sum: usize, a: usize, b: usize) -> bool {
    &&& a + b <= usize::MAX ==> sum == a + b
    &&& a + b > usize::MAX ==> sum == usize::MAX
}

/// Whether each counter of `sum` is what the same counters of `a` and `b` come to
/// together. Only the bytes are counted from the number of keys that `a` had read.
pub open spec fn takes_each_together(sum: CFStatistics, a: CFStatistics, b: CFStatistics) -> bool {
    &&& takes_together(sum.processed, a.processed, b.processed)
    &&& takes_together(sum.get, a.get, b.get)
    &&& takes_together(sum.next, a.next, b.next)
    &&& takes_together(sum.prev, a.prev, b.prev)
    &&& takes_together(sum.seek, a.seek, b.seek)
    &&& takes_together(sum.seek_for_prev, a.seek_for_prev, b.seek_for_prev)
    &&& takes_together(sum.over_seek_bound, a.over_seek_bound, b.over_seek_bound)
    &&& takes_together(
        sum.flow_stats.read_keys,
        a.flow_stats.read_keys,
        b.flow_stats.read_keys,
    )
    &&& takes_together(
        sum.flow_stats.read_bytes,
        a.flow_stats.read_keys,
        b.flow_stats.read_bytes,
    )
}

/// Whether no counter has counted anything.
pub open spec fn counted_nothing(stat: CFStatistics) -> bool {
    &&& stat.processed == 0
    &&& stat.get == 0
    &&& stat.next == 0
    &&& stat.prev == 0
    &&& stat.seek == 0
    &&& stat.seek_for_prev == 0
    &&& stat.over_seek_bound == 0
    &&& stat.flow_stats.read_keys == 0
    &&& stat.flow_stats.read_bytes == 0
}

/// New counters have counted nothing.
pub proof fn new_counters_have_counted_nothing()
    ensures
        forall|stat: FlowStatistics| #[trigger]
            call_ensures(FlowStatistics::default, (), stat) ==> stat.read_keys == 0
                && stat.read_bytes == 0,
        forall|stat: CFStatistics| #[trigger]
            call_ensures(CFStatistics::default, (), stat) ==> counted_nothing(stat),
        forall|stat: Statistics| #[trigger]
            call_ensures(Statistics::default, (), stat) ==> counted_nothing(stat.lock)
                && counted_nothing(stat.write) && counted_nothing(stat.data),
        forall|summary: StatisticsSummary| #[trigger]
            call_ensures(StatisticsSummary::default, (), summary) ==> summary.count == 0
                && counted_nothing(summary.stat.lock) && counted_nothing(summary.stat.write)
                && counted_nothing(summary.stat.data),
{
}

/// Every addition adds each counter to its own and to no other, in each column family, and
/// stops at the largest value that a counter holds.
pub proof fn every_addition_adds_each_counter()
    ensures
        forall|stat: &mut FlowStatistics, other: &FlowStatistics, done: ()| #[trigger]
            call_ensures(FlowStatistics::add, (stat, other), done) ==> {
                &&& takes_together(final(stat).read_keys, stat.read_keys, other.read_keys)
                &&& takes_together(final(stat).read_bytes, stat.read_keys, other.read_bytes)
            },
        forall|stat: &mut CFStatistics, other: &CFStatistics, done: ()| #[trigger]
            call_ensures(CFStatistics::add, (stat, other), done) ==> takes_each_together(
                *final(stat),
                *stat,
                *other,
            ),
        forall|stat: &mut Statistics, other: &Statistics, done: ()| #[trigger]
            call_ensures(Statistics::add, (stat, other), done) ==> {
                &&& takes_each_together(final(stat).lock, stat.lock, other.lock)
                &&& takes_each_together(final(stat).write, stat.write, other.write)
                &&& takes_each_together(final(stat).data, stat.data, other.data)
            },
        forall|summary: &mut StatisticsSummary, v: &Statistics, done: ()| #[trigger]
            call_ensures(StatisticsSummary::add_statistics, (summary, v), done) ==> {
                &&& takes_each_together(final(summary).stat.lock, summary.stat.lock, v.lock)
                &&& takes_each_together(final(summary).stat.write, summary.stat.write, v.write)
                &&& takes_each_together(final(summary).stat.data, summary.stat.data, v.data)
                &&& final(summary).count == summary.count + 1
            },
{
}

/// Every total is the sum of the gets, the steps and the seeks. Neither the keys that were
/// processed nor the walks that were given up are operations of their own.
pub proof fn every_total_is_a_sum()
    ensures
        forall|stat: &CFStatistics, n: usize| #[trigger]
            call_ensures(CFStatistics::total_op_count, (stat,), n) ==> n == stat.get + stat.next
                + stat.prev + stat.seek + stat.seek_for_prev,
        forall|stat: &Statistics, n: usize| #[trigger]
            call_ensures(Statistics::total_op_count, (stat,), n) ==> n == (stat.lock.get
                + stat.lock.next + stat.lock.prev + stat.lock.seek + stat.lock.seek_for_prev) + (
            stat.write.get + stat.write.next + stat.write.prev + stat.write.seek
                + stat.write.seek_for_prev) + (stat.data.get + stat.data.next + stat.data.prev
                + stat.data.seek + stat.data.seek_for_prev),
        forall|stat: &Statistics, n: usize| #[trigger]
            call_ensures(Statistics::total_processed, (stat,), n) ==> n == stat.lock.processed
                + stat.write.processed + stat.data.processed,
{
}

/// Whether the list holds each counter once under its own name, after their total.
pub open spec fn lists_each(list: Seq<(&str, usize)>, stat: CFStatistics) -> bool {
    let total = stat.get + stat.next + stat.prev + stat.seek + stat.seek_for_prev;
    &&& list.len() == 8
    &&& list[0].0@ == "total"@ && (total <= usize::MAX ==> list[0].1 == total)
    &&& list[1].0@ == "processed"@ && list[1].1 == stat.processed
    &&& list[2].0@ == "get"@ && list[2].1 == stat.get
    &&& list[3].0@ == "next"@ && list[3].1 == stat.next
    &&& list[4].0@ == "prev"@ && list[4].1 == stat.prev
    &&& list[5].0@ == "seek"@ && list[5].1 == stat.seek
    &&& list[6].0@ == "seek_for_prev"@ && list[6].1 == stat.seek_for_prev
    &&& list[7].0@ == "over_seek_bound"@ && list[7].1 == stat.over_seek_bound
}

/// Every list of counters holds each of them under its own name; and every list of the
/// counters of the column families holds those of each under the name of the family.
pub proof fn every_list_names_each_counter()
    ensures
        forall|stat: &CFStatistics, list: Vec<(&str, usize)>| #[trigger]
            call_ensures(CFStatistics::details, (stat,), list) ==> lists_each(list@, *stat),
        forall|stat: &Statistics, list: Vec<(&str, Vec<(&str, usize)>)>| #[trigger]
            call_ensures(Statistics::details, (stat,), list) ==> {
                &&& list@.len() == 3
                &&& list@[0].0@ == "default"@ && lists_each(list@[0].1@, stat.data)
                &&& list@[1].0@ == "lock"@ && lists_each(list@[1].1@, stat.lock)
                &&& list@[2].0@ == "write"@ && lists_each(list@[2].1@, stat.write)
            },
{
}

/// Whether the report gives the keys that were processed and the number of operations: each
/// as itself where a signed number can hold it, and else as the number with the same bits.
pub open spec fn reports_each(info: ScanInfo, stat: CFStatistics) -> bool {
    let total = stat.get + stat.next + stat.prev + stat.seek + stat.seek_for_prev;
    &&& stat.processed <= i64::MAX ==> info.processed == stat.processed
    &&& stat.processed > i64::MAX ==> info.processed == stat.processed - u64::MAX - 1
    &&& total <= i64::MAX ==> info.total == total
    &&& i64::MAX < total <= usize::MAX ==> info.total == total - u64::MAX - 1
}

/// Every report gives each counter as itself, whatever its size, as long as a signed number
/// can hold it.
pub proof fn every_report_is_true()
    ensures
        forall|stat: &CFStatistics, info: ScanInfo| #[trigger]
            call_ensures(CFStatistics::scan_info, (stat,), info) ==> reports_each(info, *stat),
        forall|stat: &Statistics, detail: ScanDetail| #[trigger]
            call_ensures(Statistics::scan_detail, (stat,), detail) ==> {
                &&& reports_each(detail.data, stat.data)
                &&& reports_each(detail.lock, stat.lock)
                &&& reports_each(detail.write, stat.write)
            },
{
}

/// A larger count is never reported as a smaller one.
pub proof fn larger_counts_are_reported_larger()
    ensures
        forall|a: &CFStatistics, b: &CFStatistics, ra: ScanInfo, rb: ScanInfo|
            #![trigger
                call_ensures(CFStatistics::scan_info, (a,), ra),
                call_ensures(CFStatistics::scan_info, (b,), rb),
            ]
            call_ensures(CFStatistics::scan_info, (a,), ra) && call_ensures(
                CFStatistics::scan_info,
                (b,),
                rb,
            ) && a.processed < b.processed <= i64::MAX ==> ra.processed < rb.processed,
{
}

/// The counters of a column family are found under its name, those of the data also under
/// the empty name; and to change them changes those of no other column family.
pub proof fn every_column_family_has_its_counters()
    ensures
        forall|stat: &mut Statistics, cf: &str, part: &mut CFStatistics| #[trigger]
            call_ensures(Statistics::mut_cf_statistics, (stat, cf), part) ==> {
                &&& cf@ == ""@ || cf@ == "default"@ ==> {
                    &&& *part == stat.data
                    &&& final(stat).data == *final(part)
                    &&& final(stat).lock == stat.lock
                    &&& final(stat).write == stat.write
                }
                &&& cf@ == "lock"@ ==> {
                    &&& *part == stat.lock
                    &&& final(stat).lock == *final(part)
                    &&& final(stat).data == stat.data
                    &&& final(stat).write == stat.write
                }
                &&& cf@ == "write"@ ==> {
                    &&& *part == stat.write
                    &&& final(stat).write == *final(part)
                    &&& final(stat).data == stat.data
                    &&& final(stat).lock == stat.lock
                }
            },
{
    reveal_strlit("");
    reveal_strlit("default");
    reveal_strlit("lock");
    reveal_strlit("write");
    assert("lock"@[0] != "default"@[0]);
    assert("write"@[0] != "default"@[0]);
    assert("write"@[0] != "lock"@[0]);
}

} // verus!
