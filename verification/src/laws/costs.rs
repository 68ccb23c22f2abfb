//! What a near seek takes, by how far it goes.
use crate::cursor::Cursor;
use crate::error::{Error, Result};
use crate::iterator::{bounds_part_entries, key_bytes, Entry, Iterator};
use crate::key::{key_lt, key_lt_total, Key};
use crate::laws::near_seek_cost_is_bounded;
use crate::laws::{staying_backward_cursor_is_left_alone, staying_forward_cursor_is_left_alone};
use crate::laws::reading::{counts_moves, counts_read};
use crate::laws::{near_seek_agrees_with_seek, near_seek_for_prev_agrees_with_seek_for_prev};
use crate::laws::{seek_finds_first, seek_for_prev_finds_last, stays_after, stays_before};
use crate::scan::{Charge, CursorView};
use crate::statistics::CFStatistics;
use vstd::prelude::*;

verus! {

/// The bytes of the keys of a stretch of entries are those of each key added up.
pub proof fn key_bytes_add_up(entries: Seq<Entry>, from: int, to: int)
    ensures
        from >= to ==> key_bytes(entries, from, to) == 0,
        from <= to ==> key_bytes(entries, from, to + 1) == key_bytes(entries, from, to)
            + entries[to].0.len(),
{
}

/// How many keys, and how many bytes of them, are read where the key at which the cursor
/// stands is read.
pub open spec fn unread_keys(c: CursorView) -> int {
    if c.key_read {
        0
    } else {
        1
    }
}

pub open spec fn unread_bytes(c: CursorView) -> int {
    if c.key_read {
        0
    } else {
        c.source.entries[c.at->0].0.len() as int
    }
}

/// Whether the key and the value at which the cursor stands are marked as read, or not.
pub open spec fn marked(c: CursorView, key_read: bool, value_read: bool) -> bool {
    c.key_read == key_read && c.value_read == value_read
}

/// Whether a near seek of `t` from the entry `i` to the entry `j`, the first whose key is not
/// before `t`, is charged what it takes. Up to thirty entries are passed one by one; beyond
/// that, thirty are passed and a seek is made.
pub open spec fn charged_to_first(
    c: CursorView,
    there: CursorView,
    t: Seq<u8>,
    i: int,
    j: int,
    before: CFStatistics,
    after: CFStatistics,
) -> bool {
    let entries = c.source.entries;
    let keys = unread_keys(c);
    let bytes = unread_bytes(c);
    if entries[i].0 == t {
        &&& counts_moves(before, after, 0, 0, 0, 0, 0)
        &&& counts_read(before, after, keys, bytes)
        &&& marked(there, true, c.value_read)
    } else if key_lt(entries[i].0, t) {
        if j - i <= 30 {
            &&& counts_moves(before, after, j - i, 0, 0, 0, 0)
            &&& counts_read(before, after, keys + j - i, bytes + key_bytes(entries, i + 1, j + 1))
            &&& marked(there, true, false)
        } else {
            &&& counts_moves(before, after, 30, 0, 1, 0, 1)
            &&& counts_read(before, after, keys + 30, bytes + key_bytes(entries, i + 1, i + 31))
            &&& marked(there, false, false)
        }
    } else if c.mode is Forward {
        &&& counts_moves(before, after, 0, 0, 1, 0, 0)
        &&& counts_read(before, after, keys, bytes)
        &&& marked(there, false, false)
    } else if entries[j].0 == t {
        if i - j <= 30 {
            &&& counts_moves(before, after, 0, i - j, 0, 0, 0)
            &&& counts_read(before, after, keys + i - j, bytes + key_bytes(entries, j, i))
            &&& marked(there, true, false)
        } else {
            &&& counts_moves(before, after, 0, 30, 1, 0, 1)
            &&& counts_read(before, after, keys + 30, bytes + key_bytes(entries, i - 30, i))
            &&& marked(there, false, false)
        }
    } else if i - j >= 30 {
        &&& counts_moves(before, after, 0, 30, 1, 0, 1)
        &&& counts_read(before, after, keys + 30, bytes + key_bytes(entries, i - 30, i))
        &&& marked(there, false, false)
    } else if j > 0 {
        &&& counts_moves(before, after, 1, i - j + 1, 0, 0, 0)
        &&& counts_read(before, after, keys + i - j + 1, bytes + key_bytes(entries, j - 1, i))
        &&& marked(there, false, false)
    } else {
        &&& counts_moves(before, after, 0, i + 1, 1, 0, 0)
        &&& counts_read(before, after, keys + i, bytes + key_bytes(entries, 0, i))
        &&& marked(there, false, false)
    }
}

/// Whether a backward near seek of `t` from the entry `i` to the entry `j`, the last whose key
/// is not after `t`, is charged what it takes.
pub open spec fn charged_to_last(
    c: CursorView,
    there: CursorView,
    t: Seq<u8>,
    i: int,
    j: int,
    before: CFStatistics,
    after: CFStatistics,
) -> bool {
    let entries = c.source.entries;
    let last = entries.len() - 1;
    let keys = unread_keys(c);
    let bytes = unread_bytes(c);
    if entries[i].0 == t {
        &&& counts_moves(before, after, 0, 0, 0, 0, 0)
        &&& counts_read(before, after, keys, bytes)
        &&& marked(there, true, c.value_read)
    } else if key_lt(t, entries[i].0) {
        if i - j <= 30 {
            &&& counts_moves(before, after, 0, i - j, 0, 0, 0)
            &&& counts_read(before, after, keys + i - j, bytes + key_bytes(entries, j, i))
            &&& marked(there, true, false)
        } else {
            &&& counts_moves(before, after, 0, 30, 0, 1, 1)
            &&& counts_read(before, after, keys + 30, bytes + key_bytes(entries, i - 30, i))
            &&& marked(there, false, false)
        }
    } else if c.mode is Backward {
        &&& counts_moves(before, after, 0, 0, 0, 1, 0)
        &&& counts_read(before, after, keys, bytes)
        &&& marked(there, false, false)
    } else if entries[j].0 == t {
        if j - i <= 30 {
            &&& counts_moves(before, after, j - i, 0, 0, 0, 0)
            &&& counts_read(before, after, keys + j - i, bytes + key_bytes(entries, i + 1, j + 1))
            &&& marked(there, true, false)
        } else {
            &&& counts_moves(before, after, 30, 0, 0, 1, 1)
            &&& counts_read(before, after, keys + 30, bytes + key_bytes(entries, i + 1, i + 31))
            &&& marked(there, false, false)
        }
    } else if j - i >= 30 {
        &&& counts_moves(before, after, 30, 0, 0, 1, 1)
        &&& counts_read(before, after, keys + 30, bytes + key_bytes(entries, i + 1, i + 31))
        &&& marked(there, false, false)
    } else if j < last {
        &&& counts_moves(before, after, j - i + 1, 1, 0, 0, 0)
        &&& counts_read(before, after, keys + j - i + 1, bytes + key_bytes(entries, i + 1, j + 2))
        &&& marked(there, false, false)
    } else {
        &&& counts_moves(before, after, j - i + 1, 0, 1, 0, 0)
        &&& counts_read(before, after, keys + j - i, bytes + key_bytes(entries, i + 1, j + 1))
        &&& marked(there, false, false)
    }
}

/// The charge of a near seek that finds an entry.
#[verifier::rlimit(60)]
proof fn near_seek_is_charged(
    c: CursorView,
    t: Seq<u8>,
    allow_reseek: bool,
    i: int,
    before: CFStatistics,
    after: CFStatistics,
)
    requires
        c.wf(),
        !(c.mode is Backward),
        !stays_after(c, t, allow_reseek),
        c.at == Some(i),
        c.near_seek(t, allow_reseek).found,
        c.near_seek(t, allow_reseek).charge.leads(before, after),
    ensures
        charged_to_first(
            c,
            c.near_seek(t, allow_reseek).cursor,
            t,
            i,
            c.near_seek(t, allow_reseek).cursor.at->0,
            before,
            after,
        ),
{
    bounds_part_entries(c.entries(), t);
    key_lt_total(c.current_key(), t);
    near_seek_agrees_with_seek(c, t, allow_reseek);
    seek_finds_first(c, t);
    let j = c.near_seek(t, allow_reseek).cursor.at->0;
    key_lt_total(c.key(j), t);
    assert(j == c.first_from(t));
    assert(c.end_upto(t) == if c.key(j) == t { j + 1 } else { j });
}

/// The charge of a backward near seek that finds an entry.
#[verifier::rlimit(60)]
proof fn near_seek_for_prev_is_charged(
    c: CursorView,
    t: Seq<u8>,
    allow_reseek: bool,
    i: int,
    before: CFStatistics,
    after: CFStatistics,
)
    requires
        c.wf(),
        !(c.mode is Forward),
        !stays_before(c, t, allow_reseek),
        c.at == Some(i),
        c.near_seek_for_prev(t, allow_reseek).found,
        c.near_seek_for_prev(t, allow_reseek).charge.leads(before, after),
    ensures
        charged_to_last(
            c,
            c.near_seek_for_prev(t, allow_reseek).cursor,
            t,
            i,
            c.near_seek_for_prev(t, allow_reseek).cursor.at->0,
            before,
            after,
        ),
{
    bounds_part_entries(c.entries(), t);
    key_lt_total(c.current_key(), t);
    near_seek_for_prev_agrees_with_seek_for_prev(c, t, allow_reseek);
    seek_for_prev_finds_last(c, t);
    let j = c.near_seek_for_prev(t, allow_reseek).cursor.at->0;
    key_lt_total(c.key(j), t);
    assert(j == c.end_upto(t) - 1);
    assert(c.first_from(t) == if c.key(j) == t { j } else { j + 1 });
}

/// Every near seek that finds an entry is charged what it takes to get there, forward and
/// backward: a step for each entry on the way if these are few, and a seek if they are many.
pub proof fn every_near_seek_is_charged_by_distance<I: Iterator>()
    ensures
        forall|
            cursor: &mut Cursor<I>,
            key: &Key,
            allow_reseek: bool,
            statistics: &mut CFStatistics,
            found: Result<bool>,
        | #[trigger]
            call_ensures(Cursor::<I>::near_seek, (cursor, key, allow_reseek, statistics), found)
                && cursor@.wf() && !(cursor@.mode is Backward) && !stays_after(
                cursor@,
                key@,
                allow_reseek,
            ) && cursor@.at is Some && found == Ok::<bool, Error>(true) ==> charged_to_first(
                cursor@,
                final(cursor)@,
                key@,
                cursor@.at->0,
                final(cursor)@.at->0,
                *statistics,
                *final(statistics),
            ),
        forall|
            cursor: &mut Cursor<I>,
            key: &Key,
            allow_reseek: bool,
            statistics: &mut CFStatistics,
            found: Result<bool>,
        | #[trigger]
            call_ensures(
                Cursor::<I>::near_seek_for_prev,
                (cursor, key, allow_reseek, statistics),
                found,
            ) && cursor@.wf() && !(cursor@.mode is Forward) && !stays_before(
                cursor@,
                key@,
                allow_reseek,
            ) && cursor@.at is Some && found == Ok::<bool, Error>(true) ==> charged_to_last(
                cursor@,
                final(cursor)@,
                key@,
                cursor@.at->0,
                final(cursor)@.at->0,
                *statistics,
                *final(statistics),
            ),
{
    assert forall|
        cursor: &mut Cursor<I>,
        key: &Key,
        allow_reseek: bool,
        statistics: &mut CFStatistics,
        found: Result<bool>,
    | #[trigger]
        call_ensures(Cursor::<I>::near_seek, (cursor, key, allow_reseek, statistics), found)
            && cursor@.wf() && !(cursor@.mode is Backward) && !stays_after(
            cursor@,
            key@,
            allow_reseek,
        ) && cursor@.at is Some && found == Ok::<bool, Error>(true) implies charged_to_first(
        cursor@,
        final(cursor)@,
        key@,
        cursor@.at->0,
        final(cursor)@.at->0,
        *statistics,
        *final(statistics),
    ) by {
        near_seek_is_charged(
            cursor@,
            key@,
            allow_reseek,
            cursor@.at->0,
            *statistics,
            *final(statistics),
        );
    }
    assert forall|
        cursor: &mut Cursor<I>,
        key: &Key,
        allow_reseek: bool,
        statistics: &mut CFStatistics,
        found: Result<bool>,
    | #[trigger]
        call_ensures(
            Cursor::<I>::near_seek_for_prev,
            (cursor, key, allow_reseek, statistics),
            found,
        ) && cursor@.wf() && !(cursor@.mode is Forward) && !stays_before(
            cursor@,
            key@,
            allow_reseek,
        ) && cursor@.at is Some && found == Ok::<bool, Error>(true) implies charged_to_last(
        cursor@,
        final(cursor)@,
        key@,
        cursor@.at->0,
        final(cursor)@.at->0,
        *statistics,
        *final(statistics),
    ) by {
        near_seek_for_prev_is_charged(
            cursor@,
            key@,
            allow_reseek,
            cursor@.at->0,
            *statistics,
            *final(statistics),
        );
    }
}

/// Every near seek that finds nothing, and did not know so, is charged what it takes to get
/// off the entries: a step for each on the way if these are few, and a seek if they are many.
#[verifier::rlimit(40)]
pub proof fn every_near_miss_is_charged_by_distance<I: Iterator>()
    ensures
        forall|
            cursor: &mut Cursor<I>,
            key: &Key,
            allow_reseek: bool,
            statistics: &mut CFStatistics,
            found: Result<bool>,
        | #[trigger]
            call_ensures(Cursor::<I>::near_seek, (cursor, key, allow_reseek, statistics), found)
                && cursor@.wf()
                && !(cursor@.mode is Backward)
                && !cursor@.knows_none_from(key@)
                && cursor@.at is Some
                && found == Ok::<bool, Error>(false) ==> {
                let entries = cursor@.source.entries;
                let i = cursor@.at->0;
                let n = entries.len();
                let keys = unread_keys(cursor@);
                let bytes = unread_bytes(cursor@);
                if n - i <= 30 {
                    &&& counts_moves(*statistics, *final(statistics), n - i, 0, 0, 0, 0)
                    &&& counts_read(
                        *statistics,
                        *final(statistics),
                        keys + n - i - 1,
                        bytes + key_bytes(entries, i + 1, n as int),
                    )
                } else {
                    &&& counts_moves(*statistics, *final(statistics), 30, 0, 1, 0, 1)
                    &&& counts_read(
                        *statistics,
                        *final(statistics),
                        keys + 30,
                        bytes + key_bytes(entries, i + 1, i + 31),
                    )
                }
            },
        forall|
            cursor: &mut Cursor<I>,
            key: &Key,
            allow_reseek: bool,
            statistics: &mut CFStatistics,
            found: Result<bool>,
        | #[trigger]
            call_ensures(
                Cursor::<I>::near_seek_for_prev,
                (cursor, key, allow_reseek, statistics),
                found,
            )
                && cursor@.wf()
                && !(cursor@.mode is Forward)
                && !cursor@.knows_none_upto(key@)
                && cursor@.at is Some
                && found == Ok::<bool, Error>(false) ==> {
                let entries = cursor@.source.entries;
                let i = cursor@.at->0;
                let keys = unread_keys(cursor@);
                let bytes = unread_bytes(cursor@);
                if i + 1 <= 30 {
                    &&& counts_moves(*statistics, *final(statistics), 0, i + 1, 0, 0, 0)
                    &&& counts_read(
                        *statistics,
                        *final(statistics),
                        keys + i,
                        bytes + key_bytes(entries, 0, i),
                    )
                } else {
                    &&& counts_moves(*statistics, *final(statistics), 0, 30, 0, 1, 1)
                    &&& counts_read(
                        *statistics,
                        *final(statistics),
                        keys + 30,
                        bytes + key_bytes(entries, i - 30, i),
                    )
                }
            },
{
    assert forall|
        cursor: &mut Cursor<I>,
        key: &Key,
        allow_reseek: bool,
        statistics: &mut CFStatistics,
        found: Result<bool>,
    | #[trigger]
        call_ensures(Cursor::<I>::near_seek, (cursor, key, allow_reseek, statistics), found)
            && cursor@.wf()
            && !(cursor@.mode is Backward)
            && !cursor@.knows_none_from(key@)
            && cursor@.at is Some
            && found == Ok::<bool, Error>(false) implies {
                let entries = cursor@.source.entries;
                let i = cursor@.at->0;
                let n = entries.len();
                let keys = unread_keys(cursor@);
                let bytes = unread_bytes(cursor@);
                if n - i <= 30 {
                    &&& counts_moves(*statistics, *final(statistics), n - i, 0, 0, 0, 0)
                    &&& counts_read(
                        *statistics,
                        *final(statistics),
                        keys + n - i - 1,
                        bytes + key_bytes(entries, i + 1, n as int),
                    )
                } else {
                    &&& counts_moves(*statistics, *final(statistics), 30, 0, 1, 0, 1)
                    &&& counts_read(
                        *statistics,
                        *final(statistics),
                        keys + 30,
                        bytes + key_bytes(entries, i + 1, i + 31),
                    )
                }
            } by {
        bounds_part_entries(cursor@.entries(), key@);
        if cursor@.at is Some {
            key_lt_total(cursor@.current_key(), key@);
        }
    }
    assert forall|
        cursor: &mut Cursor<I>,
        key: &Key,
        allow_reseek: bool,
        statistics: &mut CFStatistics,
        found: Result<bool>,
    | #[trigger]
        call_ensures(
            Cursor::<I>::near_seek_for_prev,
            (cursor, key, allow_reseek, statistics),
            found,
        )
            && cursor@.wf()
            && !(cursor@.mode is Forward)
            && !cursor@.knows_none_upto(key@)
            && cursor@.at is Some
            && found == Ok::<bool, Error>(false) implies {
                let entries = cursor@.source.entries;
                let i = cursor@.at->0;
                let keys = unread_keys(cursor@);
                let bytes = unread_bytes(cursor@);
                if i + 1 <= 30 {
                    &&& counts_moves(*statistics, *final(statistics), 0, i + 1, 0, 0, 0)
                    &&& counts_read(
                        *statistics,
                        *final(statistics),
                        keys + i,
                        bytes + key_bytes(entries, 0, i),
                    )
                } else {
                    &&& counts_moves(*statistics, *final(statistics), 0, 30, 0, 1, 1)
                    &&& counts_read(
                        *statistics,
                        *final(statistics),
                        keys + 30,
                        bytes + key_bytes(entries, i - 30, i),
                    )
                }
            } by {
        bounds_part_entries(cursor@.entries(), key@);
        if cursor@.at is Some {
            key_lt_total(cursor@.current_key(), key@);
        }
    }
}

/// Every near seek of a cursor that stands at no entry, and does not know
/// that nothing is there, is one seek.
pub proof fn every_near_seek_from_no_entry_seeks<I: Iterator>()
    ensures
        forall|
            cursor: &mut Cursor<I>,
            key: &Key,
            allow_reseek: bool,
            statistics: &mut CFStatistics,
            found: Result<bool>,
        | #[trigger]
            call_ensures(Cursor::<I>::near_seek, (cursor, key, allow_reseek, statistics), found)
                && cursor@.at is None
                && !cursor@.knows_none_from(key@) ==> {
                &&& counts_moves(*statistics, *final(statistics), 0, 0, 1, 0, 0)
                &&& counts_read(*statistics, *final(statistics), 0, 0)
            },
        forall|
            cursor: &mut Cursor<I>,
            key: &Key,
            allow_reseek: bool,
            statistics: &mut CFStatistics,
            found: Result<bool>,
        | #[trigger]
            call_ensures(
                Cursor::<I>::near_seek_for_prev,
                (cursor, key, allow_reseek, statistics),
                found,
            )
                && cursor@.at is None
                && !cursor@.knows_none_upto(key@) ==> {
                &&& counts_moves(*statistics, *final(statistics), 0, 0, 0, 1, 0)
                &&& counts_read(*statistics, *final(statistics), 0, 0)
            },
{
}

/// Every near seek, however far it goes and however it ends, takes at most thirty-one
/// operations, of which at most one is a seek; that it passed too many entries is counted only
/// where it passed thirty in one direction and then sought.
pub proof fn every_near_seek_is_bounded<I: Iterator>()
    ensures
        forall|
            cursor: &mut Cursor<I>,
            key: &Key,
            allow_reseek: bool,
            statistics: &mut CFStatistics,
            found: Result<bool>,
        | #[trigger]
            call_ensures(Cursor::<I>::near_seek, (cursor, key, allow_reseek, statistics), found)
                && cursor@.wf() ==> {
                let on = final(statistics).next - statistics.next;
                let back = final(statistics).prev - statistics.prev;
                let seeks = (final(statistics).seek - statistics.seek) + (
                final(statistics).seek_for_prev - statistics.seek_for_prev);
                let over = final(statistics).over_seek_bound - statistics.over_seek_bound;
                &&& 0 <= on && 0 <= back && 0 <= seeks && 0 <= over <= 1
                &&& on + back + seeks <= 31
                &&& seeks <= 1
                &&& over == 1 ==> seeks == 1 && (on == 30 && back == 0 || on == 0 && back == 30)
                &&& final(statistics).processed == statistics.processed
                &&& final(statistics).get == statistics.get
            },
        forall|
            cursor: &mut Cursor<I>,
            key: &Key,
            allow_reseek: bool,
            statistics: &mut CFStatistics,
            found: Result<bool>,
        | #[trigger]
            call_ensures(
                Cursor::<I>::near_seek_for_prev,
                (cursor, key, allow_reseek, statistics),
                found,
            )
                && cursor@.wf() ==> {
                let on = final(statistics).next - statistics.next;
                let back = final(statistics).prev - statistics.prev;
                let seeks = (final(statistics).seek - statistics.seek) + (
                final(statistics).seek_for_prev - statistics.seek_for_prev);
                let over = final(statistics).over_seek_bound - statistics.over_seek_bound;
                &&& 0 <= on && 0 <= back && 0 <= seeks && 0 <= over <= 1
                &&& on + back + seeks <= 31
                &&& seeks <= 1
                &&& over == 1 ==> seeks == 1 && (on == 30 && back == 0 || on == 0 && back == 30)
                &&& final(statistics).processed == statistics.processed
                &&& final(statistics).get == statistics.get
            },
{
    assert forall|
        cursor: &mut Cursor<I>,
        key: &Key,
        allow_reseek: bool,
        statistics: &mut CFStatistics,
        found: Result<bool>,
    | #[trigger]
        call_ensures(Cursor::<I>::near_seek, (cursor, key, allow_reseek, statistics), found)
            && cursor@.wf() implies {
                let on = final(statistics).next - statistics.next;
                let back = final(statistics).prev - statistics.prev;
                let seeks = (final(statistics).seek - statistics.seek) + (
                final(statistics).seek_for_prev - statistics.seek_for_prev);
                let over = final(statistics).over_seek_bound - statistics.over_seek_bound;
                &&& 0 <= on && 0 <= back && 0 <= seeks && 0 <= over <= 1
                &&& on + back + seeks <= 31
                &&& seeks <= 1
                &&& over == 1 ==> seeks == 1 && (on == 30 && back == 0 || on == 0 && back == 30)
                &&& final(statistics).processed == statistics.processed
                &&& final(statistics).get == statistics.get
            } by {
        near_seek_cost_is_bounded(cursor@, key@, allow_reseek);
    }
    assert forall|
        cursor: &mut Cursor<I>,
        key: &Key,
        allow_reseek: bool,
        statistics: &mut CFStatistics,
        found: Result<bool>,
    | #[trigger]
        call_ensures(
            Cursor::<I>::near_seek_for_prev,
            (cursor, key, allow_reseek, statistics),
            found,
        )
            && cursor@.wf() implies {
                let on = final(statistics).next - statistics.next;
                let back = final(statistics).prev - statistics.prev;
                let seeks = (final(statistics).seek - statistics.seek) + (
                final(statistics).seek_for_prev - statistics.seek_for_prev);
                let over = final(statistics).over_seek_bound - statistics.over_seek_bound;
                &&& 0 <= on && 0 <= back && 0 <= seeks && 0 <= over <= 1
                &&& on + back + seeks <= 31
                &&& seeks <= 1
                &&& over == 1 ==> seeks == 1 && (on == 30 && back == 0 || on == 0 && back == 30)
                &&& final(statistics).processed == statistics.processed
                &&& final(statistics).get == statistics.get
            } by {
        near_seek_cost_is_bounded(cursor@, key@, allow_reseek);
    }
}

/// A reverse seek and a backward seek that begin at the same place go together: where the
/// backward seek comes to the key itself, the reverse seek goes one step further back; and else
/// both come to the same entry. The reverse seek reads the key to which it came and counts the
/// step, and nothing more.
#[verifier::rlimit(40)]
pub proof fn every_reverse_seek_steps_off_the_key<I: Iterator>()
    ensures
        forall|
            cursor: &mut Cursor<I>,
            key: &Key,
            statistics: &mut CFStatistics,
            found: Result<bool>,
            other: &mut Cursor<I>,
            counting: &mut CFStatistics,
            before: Result<bool>,
        |
            #![trigger
                call_ensures(Cursor::<I>::seek_for_prev, (cursor, key, statistics), found),
                call_ensures(Cursor::<I>::reverse_seek, (other, key, counting), before),
            ]
            call_ensures(Cursor::<I>::seek_for_prev, (cursor, key, statistics), found)
                && call_ensures(Cursor::<I>::reverse_seek, (other, key, counting), before)
                && *other == *cursor
                && *counting == *statistics
                && cursor@.wf()
                && found is Ok
                && before is Ok ==> {
                let there = final(cursor)@;
                let n = there.at->0;
                let keys = unread_keys(there);
                let bytes = unread_bytes(there);
                if found == Ok::<bool, Error>(false) {
                    &&& before == Ok::<bool, Error>(false)
                    &&& final(other)@ == there
                    &&& *final(counting) == *final(statistics)
                } else if there.source.entries[n].0 == key@ {
                    &&& before == Ok::<bool, Error>(n > 0)
                    &&& n > 0 ==> final(other)@.at == Some(n - 1)
                    &&& n == 0 ==> final(other)@.at is None
                    &&& counts_moves(*final(statistics), *final(counting), 0, 1, 0, 0, 0)
                    &&& counts_read(*final(statistics), *final(counting), keys, bytes)
                    &&& marked(final(other)@, false, false)
                } else {
                    &&& before == Ok::<bool, Error>(true)
                    &&& final(other)@.at == there.at
                    &&& counts_moves(*final(statistics), *final(counting), 0, 0, 0, 0, 0)
                    &&& counts_read(*final(statistics), *final(counting), keys, bytes)
                    &&& marked(final(other)@, true, there.value_read)
                }
            },
{
    assert forall|
        cursor: &mut Cursor<I>,
        key: &Key,
        statistics: &mut CFStatistics,
        found: Result<bool>,
        other: &mut Cursor<I>,
        counting: &mut CFStatistics,
        before: Result<bool>,
    |
        #![trigger
            call_ensures(Cursor::<I>::seek_for_prev, (cursor, key, statistics), found),
            call_ensures(Cursor::<I>::reverse_seek, (other, key, counting), before),
        ]
        call_ensures(Cursor::<I>::seek_for_prev, (cursor, key, statistics), found)
            && call_ensures(Cursor::<I>::reverse_seek, (other, key, counting), before)
            && *other == *cursor
            && *counting == *statistics
            && cursor@.wf()
            && found is Ok
            && before is Ok implies {
                let there = final(cursor)@;
                let n = there.at->0;
                let keys = unread_keys(there);
                let bytes = unread_bytes(there);
                if found == Ok::<bool, Error>(false) {
                    &&& before == Ok::<bool, Error>(false)
                    &&& final(other)@ == there
                    &&& *final(counting) == *final(statistics)
                } else if there.source.entries[n].0 == key@ {
                    &&& before == Ok::<bool, Error>(n > 0)
                    &&& n > 0 ==> final(other)@.at == Some(n - 1)
                    &&& n == 0 ==> final(other)@.at is None
                    &&& counts_moves(*final(statistics), *final(counting), 0, 1, 0, 0, 0)
                    &&& counts_read(*final(statistics), *final(counting), keys, bytes)
                    &&& marked(final(other)@, false, false)
                } else {
                    &&& before == Ok::<bool, Error>(true)
                    &&& final(other)@.at == there.at
                    &&& counts_moves(*final(statistics), *final(counting), 0, 0, 0, 0, 0)
                    &&& counts_read(*final(statistics), *final(counting), keys, bytes)
                    &&& marked(final(other)@, true, there.value_read)
                }
            } by {
        bounds_part_entries(cursor@.entries(), key@);
        if cursor@.at is Some {
            key_lt_total(cursor@.current_key(), key@);
        }
        seek_for_prev_finds_last(cursor@, key@);
    }
}

/// A near reverse seek and a backward near seek that begin at the same place go together in the
/// same way.
#[verifier::rlimit(40)]
pub proof fn every_near_reverse_seek_steps_off_the_key<I: Iterator>()
    ensures
        forall|
            cursor: &mut Cursor<I>,
            key: &Key,
            allow_reseek: bool,
            statistics: &mut CFStatistics,
            found: Result<bool>,
            other: &mut Cursor<I>,
            counting: &mut CFStatistics,
            before: Result<bool>,
        |
            #![trigger
                call_ensures(
                    Cursor::<I>::near_seek_for_prev,
                    (cursor, key, allow_reseek, statistics),
                    found,
                ),
                call_ensures(
                    Cursor::<I>::near_reverse_seek,
                    (other, key, allow_reseek, counting),
                    before,
                ),
            ]
            call_ensures(
                Cursor::<I>::near_seek_for_prev,
                (cursor, key, allow_reseek, statistics),
                found,
            )
                && call_ensures(
                    Cursor::<I>::near_reverse_seek,
                    (other, key, allow_reseek, counting),
                    before,
                )
                && *other == *cursor
                && *counting == *statistics
                && cursor@.wf()
                && found is Ok
                && before is Ok
                && !(cursor@.mode is Forward) ==> {
                let there = final(cursor)@;
                let n = there.at->0;
                let keys = unread_keys(there);
                let bytes = unread_bytes(there);
                if found == Ok::<bool, Error>(false) {
                    &&& before == Ok::<bool, Error>(false)
                    &&& final(other)@ == there
                    &&& *final(counting) == *final(statistics)
                } else if there.source.entries[n].0 == key@ {
                    &&& before == Ok::<bool, Error>(n > 0)
                    &&& n > 0 ==> final(other)@.at == Some(n - 1)
                    &&& n == 0 ==> final(other)@.at is None
                    &&& counts_moves(*final(statistics), *final(counting), 0, 1, 0, 0, 0)
                    &&& counts_read(*final(statistics), *final(counting), keys, bytes)
                    &&& marked(final(other)@, false, false)
                } else {
                    &&& before == Ok::<bool, Error>(true)
                    &&& final(other)@.at == there.at
                    &&& counts_moves(*final(statistics), *final(counting), 0, 0, 0, 0, 0)
                    &&& counts_read(*final(statistics), *final(counting), keys, bytes)
                    &&& marked(final(other)@, true, there.value_read)
                }
            },
{
    assert forall|
        cursor: &mut Cursor<I>,
        key: &Key,
        allow_reseek: bool,
        statistics: &mut CFStatistics,
        found: Result<bool>,
        other: &mut Cursor<I>,
        counting: &mut CFStatistics,
        before: Result<bool>,
    |
        #![trigger
            call_ensures(
                Cursor::<I>::near_seek_for_prev,
                (cursor, key, allow_reseek, statistics),
                found,
            ),
            call_ensures(
                Cursor::<I>::near_reverse_seek,
                (other, key, allow_reseek, counting),
                before,
            ),
        ]
        call_ensures(
            Cursor::<I>::near_seek_for_prev,
            (cursor, key, allow_reseek, statistics),
            found,
        )
            && call_ensures(
                Cursor::<I>::near_reverse_seek,
                (other, key, allow_reseek, counting),
                before,
            )
            && *other == *cursor
            && *counting == *statistics
            && cursor@.wf()
            && found is Ok
            && before is Ok
            && !(cursor@.mode is Forward) implies {
                let there = final(cursor)@;
                let n = there.at->0;
                let keys = unread_keys(there);
                let bytes = unread_bytes(there);
                if found == Ok::<bool, Error>(false) {
                    &&& before == Ok::<bool, Error>(false)
                    &&& final(other)@ == there
                    &&& *final(counting) == *final(statistics)
                } else if there.source.entries[n].0 == key@ {
                    &&& before == Ok::<bool, Error>(n > 0)
                    &&& n > 0 ==> final(other)@.at == Some(n - 1)
                    &&& n == 0 ==> final(other)@.at is None
                    &&& counts_moves(*final(statistics), *final(counting), 0, 1, 0, 0, 0)
                    &&& counts_read(*final(statistics), *final(counting), keys, bytes)
                    &&& marked(final(other)@, false, false)
                } else {
                    &&& before == Ok::<bool, Error>(true)
                    &&& final(other)@.at == there.at
                    &&& counts_moves(*final(statistics), *final(counting), 0, 0, 0, 0, 0)
                    &&& counts_read(*final(statistics), *final(counting), keys, bytes)
                    &&& marked(final(other)@, true, there.value_read)
                }
            } by {
        bounds_part_entries(cursor@.entries(), key@);
        if cursor@.at is Some {
            key_lt_total(cursor@.current_key(), key@);
        }
    }
}

/// A lookup and a near seek that begin at the same place come to the same entry, backward for a
/// backward cursor; the lookup then reads the key there, and the value if the key is the one
/// that it looks for, and nothing more.
#[verifier::rlimit(80)]
pub proof fn every_lookup_reads_where_it_came<I: Iterator>()
    ensures
        forall|
            cursor: &mut Cursor<I>,
            key: &Key,
            allow_reseek: bool,
            statistics: &mut CFStatistics,
            found: Result<bool>,
            other: &mut Cursor<I>,
            counting: &mut CFStatistics,
            value: Result<Option<&[u8]>>,
        |
            #![trigger
                call_ensures(
                    Cursor::<I>::near_seek,
                    (cursor, key, allow_reseek, statistics),
                    found,
                ),
                call_ensures(
                    Cursor::<I>::near_seek_get,
                    (other, key, allow_reseek, counting),
                    value,
                ),
            ]
            call_ensures(Cursor::<I>::near_seek, (cursor, key, allow_reseek, statistics), found)
                && call_ensures(
                    Cursor::<I>::near_seek_get,
                    (other, key, allow_reseek, counting),
                    value,
                )
                && *other == *cursor
                && *counting == *statistics
                && cursor@.wf()
                && found is Ok
                && value is Ok
                && !(cursor@.mode is Backward) ==> {
                let there = final(cursor)@;
                let (k, v) = there.source.entries[there.at->0];
                let keys = unread_keys(there);
                let bytes = unread_bytes(there);
                if found == Ok::<bool, Error>(false) {
                    &&& value == Ok::<Option<&[u8]>, Error>(None)
                    &&& final(other)@ == there
                    &&& *final(counting) == *final(statistics)
                } else {
                    &&& final(other)@.at == there.at
                    &&& counts_moves(*final(statistics), *final(counting), 0, 0, 0, 0, 0)
                    &&& if k == key@ {
                        &&& value matches Ok(Some(x)) && x@ == v
                        &&& there.value_read ==> counts_read(
                            *final(statistics),
                            *final(counting),
                            keys,
                            bytes,
                        )
                        &&& !there.value_read ==> counts_read(
                            *final(statistics),
                            *final(counting),
                            keys,
                            bytes + v.len(),
                        )
                        &&& marked(final(other)@, true, true)
                    } else {
                        &&& value == Ok::<Option<&[u8]>, Error>(None)
                        &&& counts_read(*final(statistics), *final(counting), keys, bytes)
                        &&& marked(final(other)@, true, there.value_read)
                    }
                }
            },
        forall|
            cursor: &mut Cursor<I>,
            key: &Key,
            allow_reseek: bool,
            statistics: &mut CFStatistics,
            found: Result<bool>,
            other: &mut Cursor<I>,
            counting: &mut CFStatistics,
            value: Result<Option<&[u8]>>,
        |
            #![trigger
                call_ensures(
                    Cursor::<I>::near_seek_for_prev,
                    (cursor, key, allow_reseek, statistics),
                    found,
                ),
                call_ensures(
                    Cursor::<I>::near_seek_get,
                    (other, key, allow_reseek, counting),
                    value,
                ),
            ]
            call_ensures(
                Cursor::<I>::near_seek_for_prev,
                (cursor, key, allow_reseek, statistics),
                found,
            )
                && call_ensures(
                    Cursor::<I>::near_seek_get,
                    (other, key, allow_reseek, counting),
                    value,
                )
                && *other == *cursor
                && *counting == *statistics
                && cursor@.wf()
                && found is Ok
                && value is Ok
                && cursor@.mode is Backward ==> {
                let there = final(cursor)@;
                let (k, v) = there.source.entries[there.at->0];
                let keys = unread_keys(there);
                let bytes = unread_bytes(there);
                if found == Ok::<bool, Error>(false) {
                    &&& value == Ok::<Option<&[u8]>, Error>(None)
                    &&& final(other)@ == there
                    &&& *final(counting) == *final(statistics)
                } else {
                    &&& final(other)@.at == there.at
                    &&& counts_moves(*final(statistics), *final(counting), 0, 0, 0, 0, 0)
                    &&& if k == key@ {
                        &&& value matches Ok(Some(x)) && x@ == v
                        &&& there.value_read ==> counts_read(
                            *final(statistics),
                            *final(counting),
                            keys,
                            bytes,
                        )
                        &&& !there.value_read ==> counts_read(
                            *final(statistics),
                            *final(counting),
                            keys,
                            bytes + v.len(),
                        )
                        &&& marked(final(other)@, true, true)
                    } else {
                        &&& value == Ok::<Option<&[u8]>, Error>(None)
                        &&& counts_read(*final(statistics), *final(counting), keys, bytes)
                        &&& marked(final(other)@, true, there.value_read)
                    }
                }
            },
{
    assert forall|
        cursor: &mut Cursor<I>,
        key: &Key,
        allow_reseek: bool,
        statistics: &mut CFStatistics,
        found: Result<bool>,
        other: &mut Cursor<I>,
        counting: &mut CFStatistics,
        value: Result<Option<&[u8]>>,
    |
        #![trigger
            call_ensures(Cursor::<I>::near_seek, (cursor, key, allow_reseek, statistics), found),
            call_ensures(Cursor::<I>::near_seek_get, (other, key, allow_reseek, counting), value),
        ]
        call_ensures(Cursor::<I>::near_seek, (cursor, key, allow_reseek, statistics), found)
            && call_ensures(Cursor::<I>::near_seek_get, (other, key, allow_reseek, counting), value)
            && *other == *cursor
            && *counting == *statistics
            && cursor@.wf()
            && found is Ok
            && value is Ok
            && !(cursor@.mode is Backward) implies {
                let there = final(cursor)@;
                let (k, v) = there.source.entries[there.at->0];
                let keys = unread_keys(there);
                let bytes = unread_bytes(there);
                if found == Ok::<bool, Error>(false) {
                    &&& value == Ok::<Option<&[u8]>, Error>(None)
                    &&& final(other)@ == there
                    &&& *final(counting) == *final(statistics)
                } else {
                    &&& final(other)@.at == there.at
                    &&& counts_moves(*final(statistics), *final(counting), 0, 0, 0, 0, 0)
                    &&& if k == key@ {
                        &&& value matches Ok(Some(x)) && x@ == v
                        &&& there.value_read ==> counts_read(
                            *final(statistics),
                            *final(counting),
                            keys,
                            bytes,
                        )
                        &&& !there.value_read ==> counts_read(
                            *final(statistics),
                            *final(counting),
                            keys,
                            bytes + v.len(),
                        )
                        &&& marked(final(other)@, true, true)
                    } else {
                        &&& value == Ok::<Option<&[u8]>, Error>(None)
                        &&& counts_read(*final(statistics), *final(counting), keys, bytes)
                        &&& marked(final(other)@, true, there.value_read)
                    }
                }
            } by {
        bounds_part_entries(cursor@.entries(), key@);
        if cursor@.at is Some {
            key_lt_total(cursor@.current_key(), key@);
        }
    }
    assert forall|
        cursor: &mut Cursor<I>,
        key: &Key,
        allow_reseek: bool,
        statistics: &mut CFStatistics,
        found: Result<bool>,
        other: &mut Cursor<I>,
        counting: &mut CFStatistics,
        value: Result<Option<&[u8]>>,
    |
        #![trigger
            call_ensures(
                Cursor::<I>::near_seek_for_prev,
                (cursor, key, allow_reseek, statistics),
                found,
            ),
            call_ensures(Cursor::<I>::near_seek_get, (other, key, allow_reseek, counting), value),
        ]
        call_ensures(
            Cursor::<I>::near_seek_for_prev,
            (cursor, key, allow_reseek, statistics),
            found,
        )
            && call_ensures(Cursor::<I>::near_seek_get, (other, key, allow_reseek, counting), value)
            && *other == *cursor
            && *counting == *statistics
            && cursor@.wf()
            && found is Ok
            && value is Ok
            && cursor@.mode is Backward implies {
                let there = final(cursor)@;
                let (k, v) = there.source.entries[there.at->0];
                let keys = unread_keys(there);
                let bytes = unread_bytes(there);
                if found == Ok::<bool, Error>(false) {
                    &&& value == Ok::<Option<&[u8]>, Error>(None)
                    &&& final(other)@ == there
                    &&& *final(counting) == *final(statistics)
                } else {
                    &&& final(other)@.at == there.at
                    &&& counts_moves(*final(statistics), *final(counting), 0, 0, 0, 0, 0)
                    &&& if k == key@ {
                        &&& value matches Ok(Some(x)) && x@ == v
                        &&& there.value_read ==> counts_read(
                            *final(statistics),
                            *final(counting),
                            keys,
                            bytes,
                        )
                        &&& !there.value_read ==> counts_read(
                            *final(statistics),
                            *final(counting),
                            keys,
                            bytes + v.len(),
                        )
                        &&& marked(final(other)@, true, true)
                    } else {
                        &&& value == Ok::<Option<&[u8]>, Error>(None)
                        &&& counts_read(*final(statistics), *final(counting), keys, bytes)
                        &&& marked(final(other)@, true, there.value_read)
                    }
                }
            } by {
        bounds_part_entries(cursor@.entries(), key@);
        if cursor@.at is Some {
            key_lt_total(cursor@.current_key(), key@);
        }
    }
}

/// Every near seek that stays where it is because the cursor stands beyond the key already, and
/// is not told to seek anew, reads the key there and does nothing else.
pub proof fn every_staying_cursor_reads_its_key<I: Iterator>()
    ensures
        forall|
            cursor: &mut Cursor<I>,
            key: &Key,
            allow_reseek: bool,
            statistics: &mut CFStatistics,
            found: Result<bool>,
        | #[trigger]
            call_ensures(Cursor::<I>::near_seek, (cursor, key, allow_reseek, statistics), found)
                && cursor@.wf()
                && stays_after(cursor@, key@, allow_reseek) ==> {
                &&& found == Ok::<bool, Error>(true)
                &&& final(cursor)@.at == cursor@.at
                &&& final(cursor).iterator() == cursor.iterator()
                &&& counts_moves(*statistics, *final(statistics), 0, 0, 0, 0, 0)
                &&& counts_read(
                    *statistics,
                    *final(statistics),
                    unread_keys(cursor@),
                    unread_bytes(cursor@),
                )
                &&& marked(final(cursor)@, true, cursor@.value_read)
            },
        forall|
            cursor: &mut Cursor<I>,
            key: &Key,
            allow_reseek: bool,
            statistics: &mut CFStatistics,
            found: Result<bool>,
        | #[trigger]
            call_ensures(
                Cursor::<I>::near_seek_for_prev,
                (cursor, key, allow_reseek, statistics),
                found,
            )
                && cursor@.wf()
                && stays_before(cursor@, key@, allow_reseek) ==> {
                &&& found == Ok::<bool, Error>(true)
                &&& final(cursor)@.at == cursor@.at
                &&& final(cursor).iterator() == cursor.iterator()
                &&& counts_moves(*statistics, *final(statistics), 0, 0, 0, 0, 0)
                &&& counts_read(
                    *statistics,
                    *final(statistics),
                    unread_keys(cursor@),
                    unread_bytes(cursor@),
                )
                &&& marked(final(cursor)@, true, cursor@.value_read)
            },
        forall|
            cursor: &mut Cursor<I>,
            key: &Key,
            allow_reseek: bool,
            statistics: &mut CFStatistics,
            found: Result<bool>,
        | #[trigger]
            call_ensures(
                Cursor::<I>::near_reverse_seek,
                (cursor, key, allow_reseek, statistics),
                found,
            )
                && cursor@.wf()
                && stays_before(cursor@, key@, allow_reseek) ==> {
                &&& found == Ok::<bool, Error>(true)
                &&& final(cursor)@.at == cursor@.at
                &&& final(cursor).iterator() == cursor.iterator()
                &&& counts_moves(*statistics, *final(statistics), 0, 0, 0, 0, 0)
                &&& counts_read(
                    *statistics,
                    *final(statistics),
                    unread_keys(cursor@),
                    unread_bytes(cursor@),
                )
                &&& marked(final(cursor)@, true, cursor@.value_read)
            },
{
    staying_forward_cursor_is_left_alone::<I>();
    staying_backward_cursor_is_left_alone::<I>();
}

/// Every near seek that the iterator refuses, after it did not know that nothing is there, has
/// made that one seek, either at once or after it had passed thirty entries.
#[verifier::rlimit(40)]
pub proof fn every_refused_near_seek_is_charged<I: Iterator>()
    ensures
        forall|
            cursor: &mut Cursor<I>,
            key: &Key,
            allow_reseek: bool,
            statistics: &mut CFStatistics,
            found: Result<bool>,
        | #[trigger]
            call_ensures(Cursor::<I>::near_seek, (cursor, key, allow_reseek, statistics), found)
                && cursor@.wf()
                && !(cursor@.mode is Backward)
                && !cursor@.knows_none_from(key@)
                && found is Err ==> {
                ||| counts_moves(*statistics, *final(statistics), 0, 0, 1, 0, 0)
                ||| counts_moves(*statistics, *final(statistics), 30, 0, 1, 0, 1)
                ||| counts_moves(*statistics, *final(statistics), 0, 30, 1, 0, 1)
            },
        forall|
            cursor: &mut Cursor<I>,
            key: &Key,
            allow_reseek: bool,
            statistics: &mut CFStatistics,
            found: Result<bool>,
        | #[trigger]
            call_ensures(
                Cursor::<I>::near_seek_for_prev,
                (cursor, key, allow_reseek, statistics),
                found,
            )
                && cursor@.wf()
                && !(cursor@.mode is Forward)
                && !cursor@.knows_none_upto(key@)
                && found is Err ==> {
                ||| counts_moves(*statistics, *final(statistics), 0, 0, 0, 1, 0)
                ||| counts_moves(*statistics, *final(statistics), 30, 0, 0, 1, 1)
                ||| counts_moves(*statistics, *final(statistics), 0, 30, 0, 1, 1)
            },
{
}

} // verus!
