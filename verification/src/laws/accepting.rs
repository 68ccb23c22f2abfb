//! Which calls are in order: what may be asked of each operation.
use crate::cursor::Cursor;
use crate::engine::{local_cf_configs, settle, Answer, CbContext, Engine, Modify, Snapshot};
use crate::error::Error;
use crate::iterator::{bounds_part_entries, key_bytes, key_bytes_split, Entry, Iterator};
use crate::key::{compare, key_lt, key_lt_total, same_name, Key, Value};
use crate::laws::{near_seek_cost_is_bounded, near_seek_keeps_source};
use crate::memory::{MemorySnapshot, MemoryStore};
use crate::scan::{CursorView, Outcome, ScanMode};
use crate::statistics::{CFStatistics, CfName, FlowStatistics, Statistics, StatisticsSummary};
use std::time::Duration;
use vstd::prelude::*;

verus! {

/// Keys and names of every kind may be made and compared, and every error may be copied.
pub proof fn every_key_may_be_compared()
    ensures
        forall|a: &[u8], b: &[u8]| #[trigger] call_requires(compare, (a, b)),
        forall|a: &str, b: &str| #[trigger] call_requires(same_name, (a, b)),
        forall|bytes: Vec<u8>| #[trigger] call_requires(Key::from_encoded, (bytes,)),
        forall|key: &Key| #[trigger] call_requires(Key::encoded, (key,)),
        forall|error: &Error| #[trigger] call_requires(Error::maybe_clone, (error,)),
        forall|cfs: &[CfName]| #[trigger] call_requires(local_cf_configs, (cfs,)),
        call_requires(CbContext::new, ()),
{
}

/// Every batch may be written to a store, and every key of every column family be read from it.
pub proof fn every_change_may_be_written()
    ensures
        call_requires(MemoryStore::new, ()),
        forall|store: &mut MemoryStore, batch: &Vec<Modify>| #[trigger]
            call_requires(MemoryStore::write, (store, batch)),
        forall|store: &MemoryStore| #[trigger] call_requires(MemoryStore::snapshot, (store,)),
        forall|held: &MemorySnapshot, key: &Key| #[trigger]
            call_requires(MemorySnapshot::get, (held, key)),
        forall|held: &MemorySnapshot, cf: CfName, key: &Key| #[trigger]
            call_requires(MemorySnapshot::get_cf, (held, cf, key)),
        forall|held: &MemorySnapshot, mode: ScanMode| #[trigger]
            call_requires(MemorySnapshot::iter, (held, (), mode)),
        forall|held: &MemorySnapshot, cf: CfName, mode: ScanMode| #[trigger]
            call_requires(MemorySnapshot::iter_cf, (held, cf, (), mode)),
{
}

/// Every request may be put to an engine.
pub proof fn every_request_may_be_made<E: Engine>()
    ensures
        forall|engine: &E, ctx: &E::Context, batch: Vec<Modify>| #[trigger]
            call_requires(E::write, (engine, ctx, batch)),
        forall|engine: &E, ctx: &E::Context| #[trigger]
            call_requires(E::snapshot, (engine, ctx)),
        forall|engine: &E, ctx: &E::Context, key: Key, value: Value| #[trigger]
            call_requires(E::put, (engine, ctx, key, value)),
        forall|engine: &E, ctx: &E::Context, cf: CfName, key: Key, value: Value| #[trigger]
            call_requires(E::put_cf, (engine, ctx, cf, key, value)),
        forall|engine: &E, ctx: &E::Context, key: Key| #[trigger]
            call_requires(E::delete, (engine, ctx, key)),
        forall|engine: &E, ctx: &E::Context, cf: CfName, key: Key| #[trigger]
            call_requires(E::delete_cf, (engine, ctx, cf, key)),
{
}

/// Every answer may be settled.
pub proof fn every_answer_may_be_settled<T>()
    ensures
        forall|answer: Answer<T>, timeout: Duration| #[trigger]
            call_requires(settle::<T>, (answer, timeout)),
{
}

/// Whether the operations that were counted can be added up.
pub open spec fn adds_up(stat: CFStatistics) -> bool {
    stat.get + stat.next + stat.prev + stat.seek + stat.seek_for_prev <= usize::MAX
}

/// Counters of every size may be added, and be listed and reported as long as their total is a
/// number that a counter holds.
pub proof fn every_count_may_be_reported()
    ensures
        forall|stat: &mut FlowStatistics, other: &FlowStatistics| #[trigger]
            call_requires(FlowStatistics::add, (stat, other)),
        forall|stat: &mut CFStatistics, other: &CFStatistics| #[trigger]
            call_requires(CFStatistics::add, (stat, other)),
        forall|stat: &mut Statistics, other: &Statistics| #[trigger]
            call_requires(Statistics::add, (stat, other)),
        forall|summary: &mut StatisticsSummary, v: &Statistics|
            summary.count < u64::MAX ==> #[trigger] call_requires(
                StatisticsSummary::add_statistics,
                (summary, v),
            ),
        forall|stat: &CFStatistics|
            adds_up(*stat) ==> #[trigger] call_requires(CFStatistics::total_op_count, (stat,)),
        forall|stat: &CFStatistics|
            adds_up(*stat) ==> #[trigger] call_requires(CFStatistics::details, (stat,)),
        forall|stat: &CFStatistics|
            adds_up(*stat) ==> #[trigger] call_requires(CFStatistics::scan_info, (stat,)),
        forall|stat: &Statistics|
            adds_up(stat.lock) && adds_up(stat.write) && adds_up(stat.data)
                ==> #[trigger] call_requires(Statistics::details, (stat,)),
        forall|stat: &Statistics|
            adds_up(stat.lock) && adds_up(stat.write) && adds_up(stat.data)
                ==> #[trigger] call_requires(Statistics::scan_detail, (stat,)),
        forall|stat: &Statistics|
            (stat.lock.get + stat.lock.next + stat.lock.prev + stat.lock.seek
                + stat.lock.seek_for_prev) + (stat.write.get + stat.write.next + stat.write.prev
                + stat.write.seek + stat.write.seek_for_prev) + (stat.data.get + stat.data.next
                + stat.data.prev + stat.data.seek + stat.data.seek_for_prev) <= usize::MAX
                ==> #[trigger] call_requires(Statistics::total_op_count, (stat,)),
        forall|stat: &Statistics|
            stat.lock.processed + stat.write.processed + stat.data.processed <= usize::MAX
                ==> #[trigger] call_requires(Statistics::total_processed, (stat,)),
        forall|stat: &mut Statistics, cf: &str|
            cf@ == ""@ || cf@ == "default"@ || cf@ == "lock"@ || cf@ == "write"@
                ==> #[trigger] call_requires(Statistics::mut_cf_statistics, (stat, cf)),
{
    reveal_strlit("");
}

/// A cursor may be made over every iterator that walks in the order of the keys.
pub proof fn every_ordered_iterator_may_be_walked<I: Iterator>()
    ensures
        forall|iter: I, mode: ScanMode|
            (forall|i: int, j: int|
                #![trigger iter.source().entries[i], iter.source().entries[j]]
                0 <= i < j < iter.source().entries.len() ==> key_lt(
                    iter.source().entries[i].0,
                    iter.source().entries[j].0,
                )) && (iter.at() matches Some(i) ==> 0 <= i < iter.source().entries.len())
                ==> #[trigger] call_requires(Cursor::<I>::new, (iter, mode)),
{
}

/// Whether there is room in the counters for a near seek over these entries.
pub open spec fn has_room(statistics: CFStatistics, entries: Seq<Entry>) -> bool {
    let most = 2 * key_bytes(entries, 0, entries.len() as int);
    &&& statistics.next + 32 <= usize::MAX
    &&& statistics.prev + 32 <= usize::MAX
    &&& statistics.seek + 1 <= usize::MAX
    &&& statistics.seek_for_prev + 1 <= usize::MAX
    &&& statistics.over_seek_bound + 1 <= usize::MAX
    &&& statistics.flow_stats.read_keys + 32 <= usize::MAX
    &&& statistics.flow_stats.read_bytes + most <= usize::MAX
}

/// Every key may be sought with a valid cursor, from wherever it stands, in the direction of
/// its mode, as long as there is room in the counters; and it may be moved in every mode.
pub proof fn every_valid_cursor_may_be_moved<I: Iterator>()
    ensures
        forall|cursor: &mut Cursor<I>, statistics: &mut CFStatistics|
            cursor@.wf() && statistics.next < usize::MAX ==> #[trigger] call_requires(
                Cursor::<I>::next,
                (cursor, statistics),
            ),
        forall|cursor: &mut Cursor<I>, statistics: &mut CFStatistics|
            cursor@.wf() && statistics.prev < usize::MAX ==> #[trigger] call_requires(
                Cursor::<I>::prev,
                (cursor, statistics),
            ),
        forall|cursor: &mut Cursor<I>, statistics: &mut CFStatistics|
            cursor@.wf() && statistics.seek < usize::MAX ==> #[trigger] call_requires(
                Cursor::<I>::seek_to_first,
                (cursor, statistics),
            ),
        forall|cursor: &mut Cursor<I>, statistics: &mut CFStatistics|
            cursor@.wf() && statistics.seek < usize::MAX ==> #[trigger] call_requires(
                Cursor::<I>::seek_to_last,
                (cursor, statistics),
            ),
        forall|cursor: &mut Cursor<I>, key: &Key, statistics: &mut CFStatistics|
            cursor@.wf() && statistics.seek < usize::MAX ==> #[trigger] call_requires(
                Cursor::<I>::internal_seek,
                (cursor, key, statistics),
            ),
        forall|cursor: &mut Cursor<I>, key: &Key, statistics: &mut CFStatistics|
            cursor@.wf() && statistics.seek_for_prev < usize::MAX ==> #[trigger] call_requires(
                Cursor::<I>::internal_seek_for_prev,
                (cursor, key, statistics),
            ),
        forall|cursor: &mut Cursor<I>, key: &Key, statistics: &mut CFStatistics|
            cursor@.wf() && !(cursor@.mode is Backward) && statistics.seek < usize::MAX
                ==> #[trigger] call_requires(Cursor::<I>::seek, (cursor, key, statistics)),
        forall|cursor: &mut Cursor<I>, key: &Key, statistics: &mut CFStatistics|
            cursor@.wf() && !(cursor@.mode is Forward) && statistics.seek_for_prev < usize::MAX
                ==> #[trigger] call_requires(
                Cursor::<I>::seek_for_prev,
                (cursor, key, statistics),
            ),
        forall|cursor: &mut Cursor<I>, statistics: &mut CFStatistics|
            cursor@.wf() && cursor@.at is Some && statistics.flow_stats.read_keys < usize::MAX
                && statistics.flow_stats.read_bytes
                + cursor@.source.entries[cursor@.at->0].0.len() <= usize::MAX
                ==> #[trigger] call_requires(Cursor::<I>::key, (cursor, statistics)),
        forall|cursor: &mut Cursor<I>, statistics: &mut CFStatistics|
            cursor@.wf() && cursor@.at is Some && statistics.flow_stats.read_keys < usize::MAX
                && statistics.flow_stats.read_bytes
                + cursor@.source.entries[cursor@.at->0].1.len() <= usize::MAX
                ==> #[trigger] call_requires(Cursor::<I>::value, (cursor, statistics)),
        forall|cursor: &Cursor<I>| #[trigger] call_requires(Cursor::<I>::valid, (cursor,)),
{
}

/// How many bytes a near seek reads at most: those of every key, and of the key at which the
/// cursor stands once more.
#[verifier::rlimit(60)]
proof fn near_seek_reads_at_most(c: CursorView, t: Seq<u8>, allow_reseek: bool)
    requires
        c.wf(),
    ensures
        c.near_seek(t, allow_reseek).charge.read_bytes <= 2 * key_bytes(c.entries(), 0, c.len()),
        c.near_seek_for_prev(t, allow_reseek).charge.read_bytes <= 2 * key_bytes(
            c.entries(),
            0,
            c.len(),
        ),
{
    bounds_part_entries(c.entries(), t);
    if c.at is Some {
        let i = c.at->0;
        let n = c.first_from(t);
        let m = c.end_upto(t);
        key_lt_total(c.current_key(), t);
        stretch_is_part(c.entries(), i, i + 1);
        assert(key_bytes(c.entries(), i, i) == 0);
        assert(key_bytes(c.entries(), i, i + 1) == c.current_key().len());
        if key_lt(c.current_key(), t) {
            if n - 1 - i >= 30 {
                stretch_is_part(c.entries(), i + 1, i + 31);
            } else if n < c.len() {
                stretch_is_part(c.entries(), i + 1, n + 1);
            } else {
                stretch_is_part(c.entries(), i + 1, n);
            }
        } else if key_lt(t, c.current_key()) {
            if i - m >= 30 {
                stretch_is_part(c.entries(), i - 30, i);
            } else if m > 0 {
                stretch_is_part(c.entries(), m - 1, i);
            } else {
                stretch_is_part(c.entries(), 0, i);
            }
        }
    }
}

/// A stretch of entries holds no more bytes than all entries.
proof fn stretch_is_part(entries: Seq<Entry>, from: int, to: int)
    requires
        0 <= from <= to <= entries.len(),
    ensures
        key_bytes(entries, from, to) <= key_bytes(entries, 0, entries.len() as int),
{
    key_bytes_split(entries, 0, from, to);
    key_bytes_split(entries, 0, to, entries.len() as int);
}

/// Every key may be sought from nearby with a valid cursor, in the direction of its mode, as
/// long as there is room in the counters.
pub proof fn every_key_may_be_sought_from_nearby<I: Iterator>()
    ensures
        forall|
            cursor: &mut Cursor<I>,
            key: &Key,
            allow_reseek: bool,
            statistics: &mut CFStatistics,
        |
            cursor@.wf() && !(cursor@.mode is Backward) && has_room(
                *statistics,
                cursor@.source.entries,
            ) ==> #[trigger] call_requires(
                Cursor::<I>::near_seek,
                (cursor, key, allow_reseek, statistics),
            ),
        forall|
            cursor: &mut Cursor<I>,
            key: &Key,
            allow_reseek: bool,
            statistics: &mut CFStatistics,
        |
            cursor@.wf() && !(cursor@.mode is Forward) && has_room(
                *statistics,
                cursor@.source.entries,
            ) ==> #[trigger] call_requires(
                Cursor::<I>::near_seek_for_prev,
                (cursor, key, allow_reseek, statistics),
            ),
{
    assert forall|
        cursor: &mut Cursor<I>,
        key: &Key,
        allow_reseek: bool,
        statistics: &mut CFStatistics,
    |
        cursor@.wf() && !(cursor@.mode is Backward) && has_room(
            *statistics,
            cursor@.source.entries,
        ) implies #[trigger] call_requires(
        Cursor::<I>::near_seek,
        (cursor, key, allow_reseek, statistics),
    ) by {
        near_seek_cost_is_bounded(cursor@, key@, allow_reseek);
        near_seek_reads_at_most(cursor@, key@, allow_reseek);
    }
    assert forall|
        cursor: &mut Cursor<I>,
        key: &Key,
        allow_reseek: bool,
        statistics: &mut CFStatistics,
    |
        cursor@.wf() && !(cursor@.mode is Forward) && has_room(
            *statistics,
            cursor@.source.entries,
        ) implies #[trigger] call_requires(
        Cursor::<I>::near_seek_for_prev,
        (cursor, key, allow_reseek, statistics),
    ) by {
        near_seek_cost_is_bounded(cursor@, key@, allow_reseek);
        near_seek_reads_at_most(cursor@, key@, allow_reseek);
    }
}

/// Whether there is room in the counters for a near seek over these entries, and for reading the
/// entry to which it leads.
pub open spec fn has_room_to_read(statistics: CFStatistics, entries: Seq<Entry>) -> bool {
    let most = 3 * key_bytes(entries, 0, entries.len() as int);
    &&& has_room(statistics, entries)
    &&& statistics.flow_stats.read_bytes + most <= usize::MAX
    &&& forall|i: int|
        #![trigger entries[i]]
        0 <= i < entries.len() ==> statistics.flow_stats.read_bytes + most + entries[i].1.len()
            <= usize::MAX
}

/// Every key may be sought in reverse with a valid cursor that is not a forward one, and be
/// looked up with every valid cursor, as long as there is room in the counters.
#[verifier::rlimit(40)]
pub proof fn every_key_may_be_looked_up<I: Iterator>()
    ensures
        forall|
            cursor: &mut Cursor<I>,
            key: &Key,
            statistics: &mut CFStatistics,
        |
            cursor@.wf() && !(cursor@.mode is Forward) && has_room_to_read(
                *statistics,
                cursor@.source.entries,
            ) ==> #[trigger] call_requires(
                Cursor::<I>::reverse_seek,
                (cursor, key, statistics),
            ),
        forall|
            cursor: &mut Cursor<I>,
            key: &Key,
            allow_reseek: bool,
            statistics: &mut CFStatistics,
        |
            cursor@.wf() && !(cursor@.mode is Forward) && has_room_to_read(
                *statistics,
                cursor@.source.entries,
            ) ==> #[trigger] call_requires(
                Cursor::<I>::near_reverse_seek,
                (cursor, key, allow_reseek, statistics),
            ),
        forall|
            cursor: &mut Cursor<I>,
            key: &Key,
            allow_reseek: bool,
            statistics: &mut CFStatistics,
        |
            cursor@.wf() && has_room_to_read(
                *statistics,
                cursor@.source.entries,
            ) ==> #[trigger] call_requires(
                Cursor::<I>::near_seek_get,
                (cursor, key, allow_reseek, statistics),
            ),
{
    assert forall|
        cursor: &mut Cursor<I>,
        key: &Key,
        statistics: &mut CFStatistics,
    |
        cursor@.wf() && !(cursor@.mode is Forward) && has_room_to_read(
            *statistics,
            cursor@.source.entries,
        ) implies #[trigger] call_requires(
            Cursor::<I>::reverse_seek,
            (cursor, key, statistics),
        ) by {
        near_seek_cost_is_bounded(cursor@, key@, false);
        near_seek_reads_at_most(cursor@, key@, false);
        near_seek_keeps_source(cursor@, key@, false);
        near_seek_leads_to_an_entry(cursor@, key@, false);
        reading_on_fits(cursor@.seek_for_prev(key@), cursor@.source.entries, key@, *statistics);
    }
    assert forall|
        cursor: &mut Cursor<I>,
        key: &Key,
        allow_reseek: bool,
        statistics: &mut CFStatistics,
    |
        cursor@.wf() && !(cursor@.mode is Forward) && has_room_to_read(
            *statistics,
            cursor@.source.entries,
        ) implies #[trigger] call_requires(
            Cursor::<I>::near_reverse_seek,
            (cursor, key, allow_reseek, statistics),
        ) by {
        near_seek_cost_is_bounded(cursor@, key@, allow_reseek);
        near_seek_reads_at_most(cursor@, key@, allow_reseek);
        near_seek_keeps_source(cursor@, key@, allow_reseek);
        near_seek_leads_to_an_entry(cursor@, key@, allow_reseek);
        reading_on_fits(
            cursor@.near_seek_for_prev(key@, allow_reseek),
            cursor@.source.entries,
            key@,
            *statistics,
        );
    }
    assert forall|
        cursor: &mut Cursor<I>,
        key: &Key,
        allow_reseek: bool,
        statistics: &mut CFStatistics,
    |
        cursor@.wf() && has_room_to_read(
            *statistics,
            cursor@.source.entries,
        ) implies #[trigger] call_requires(
            Cursor::<I>::near_seek_get,
            (cursor, key, allow_reseek, statistics),
        ) by {
        near_seek_cost_is_bounded(cursor@, key@, allow_reseek);
        near_seek_reads_at_most(cursor@, key@, allow_reseek);
        near_seek_keeps_source(cursor@, key@, allow_reseek);
        near_seek_leads_to_an_entry(cursor@, key@, allow_reseek);
        reading_on_fits(
            cursor@.near_seek_either(key@, allow_reseek),
            cursor@.source.entries,
            key@,
            *statistics,
        );
    }
}

/// Where there is room for a seek and for reading where it led, both may be counted.
proof fn reading_on_fits(
    sought: Outcome,
    entries: Seq<Entry>,
    t: Seq<u8>,
    statistics: CFStatistics,
)
    requires
        has_room_to_read(statistics, entries),
        sought.charge.next + sought.charge.prev + sought.charge.seek + sought.charge.seek_for_prev
            <= 31,
        sought.charge.seek + sought.charge.seek_for_prev <= 1,
        sought.charge.over_seek_bound <= 1,
        sought.charge.read_keys <= 31,
        sought.charge.read_bytes <= 2 * key_bytes(entries, 0, entries.len() as int),
        sought.found ==> (sought.cursor.at matches Some(n) && 0 <= n < entries.len()),
        sought.cursor.source.entries == entries,
    ensures
        sought.then_step_before(t).charge.fits(statistics),
        sought.then_read_under(t).charge.fits(statistics),
{
    if sought.found {
        let n = sought.cursor.at->0;
        let entry = entries[n];
        stretch_is_part(entries, n, n + 1);
        assert(key_bytes(entries, n, n) == 0);
        assert(key_bytes(entries, n, n + 1) == entry.0.len());
    }
}

/// A seek leads to one of the entries, if it finds one.
#[verifier::rlimit(40)]
proof fn near_seek_leads_to_an_entry(c: CursorView, t: Seq<u8>, allow_reseek: bool)
    requires
        c.wf(),
    ensures
        c.seek_for_prev(t).found ==> (c.seek_for_prev(t).cursor.at matches Some(n) && 0 <= n
            < c.len()),
        c.near_seek(t, allow_reseek).found ==> (c.near_seek(t, allow_reseek).cursor.at matches Some(
            n,
        ) && 0 <= n < c.len()),
        c.near_seek_for_prev(t, allow_reseek).found ==> (c.near_seek_for_prev(
            t,
            allow_reseek,
        ).cursor.at matches Some(n) && 0 <= n < c.len()),
        c.seek_for_prev(t).cursor.source == c.source,
{
    bounds_part_entries(c.entries(), t);
    if c.at is Some {
        key_lt_total(c.current_key(), t);
    }
}

} // verus!
