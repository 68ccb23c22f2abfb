//! What holds between the operations of a cursor, between what is written and what is read,
//! and between the operations of the statistics.
use crate::cursor::Cursor;
use crate::engine::{batch_effect, Modify};
use crate::error::{Error, Result};
use crate::iterator::{bounds_part_entries, Iterator, Request};
use crate::key::{key_le, key_lt, key_lt_total, key_lt_transitive, Key, Value};
use crate::scan::{Charge, CursorView, SEEK_BOUND};
use crate::statistics::{CFStatistics, CfName, Statistics};
use vstd::prelude::*;

pub mod accepting;
pub mod asking;
pub mod costs;
pub mod counting;
pub mod missing;
pub mod order;
pub mod reading;
pub mod seeking;
pub mod storing;

verus! {

/// A forward cursor that stands after `t` and is not told to seek anew.
pub open spec fn stays_after(c: CursorView, t: Seq<u8>, allow_reseek: bool) -> bool {
    c.at is Some && c.mode is Forward && key_lt(t, c.source.entries[c.at->0].0) && !allow_reseek
}

/// A backward cursor that stands before `t` and is not told to seek anew.
pub open spec fn stays_before(c: CursorView, t: Seq<u8>, allow_reseek: bool) -> bool {
    c.at is Some && c.mode is Backward && key_lt(c.source.entries[c.at->0].0, t) && !allow_reseek
}

/// A seek finds an entry if and only if there is one whose key is not before `t`, and
/// it leads to the first of these.
pub proof fn seek_finds_first(c: CursorView, t: Seq<u8>)
    requires
        c.wf(),
    ensures
        c.seek(t).found <==> exists|i: int|
            #![trigger c.entries()[i]]
            0 <= i < c.len() && key_le(t, c.entries()[i].0),
        c.seek(t).found ==> {
            &&& c.seek(t).cursor.at matches Some(n)
            &&& 0 <= n < c.len()
            &&& key_le(t, c.key(n))
            &&& forall|i: int| #![trigger c.entries()[i]] 0 <= i < n ==> key_lt(c.entries()[i].0, t)
        },
        c.seek(t).cursor.wf(),
{
    bounds_part_entries(c.entries(), t);
    let n = c.first_from(t);
    if n < c.len() {
        let e = c.entries()[n];
    }
    assert forall|i: int|
        #![trigger c.entries()[i]]
        0 <= i < c.len() && key_le(t, c.entries()[i].0) implies n < c.len() by {
        key_lt_total(c.entries()[i].0, t);
    }
    knows_truly(c, t);
}

/// What a cursor knows about the ends of the entries is true.
proof fn knows_truly(c: CursorView, t: Seq<u8>)
    requires
        c.wf(),
    ensures
        c.knows_none_from(t) ==> c.first_from(t) == c.len(),
        c.knows_none_upto(t) ==> c.end_upto(t) == 0,
{
    bounds_part_entries(c.entries(), t);
    if c.knows_none_from(t) && c.first_from(t) < c.len() {
        let e = c.entries()[c.first_from(t)];
        let m = c.max_key->0;
        if m != t {
            key_lt_transitive(e.0, m, t);
        }
        key_lt_total(e.0, t);
    }
    if c.knows_none_upto(t) && c.end_upto(t) > 0 {
        let e = c.entries()[c.end_upto(t) - 1];
        let m = c.min_key->0;
        if m != t {
            key_lt_transitive(t, m, e.0);
        }
        key_lt_total(e.0, t);
    }
}

/// A backward seek finds an entry if and only if there is one whose key is not after
/// `t`, and it leads to the last of these.
pub proof fn seek_for_prev_finds_last(c: CursorView, t: Seq<u8>)
    requires
        c.wf(),
    ensures
        c.seek_for_prev(t).found <==> exists|i: int|
            #![trigger c.entries()[i]]
            0 <= i < c.len() && key_le(c.entries()[i].0, t),
        c.seek_for_prev(t).found ==> {
            &&& c.seek_for_prev(t).cursor.at matches Some(n)
            &&& 0 <= n < c.len()
            &&& key_le(c.key(n), t)
            &&& forall|i: int|
                #![trigger c.entries()[i]]
                n < i < c.len() ==> key_lt(t, c.entries()[i].0)
        },
        c.seek_for_prev(t).cursor.wf(),
{
    bounds_part_entries(c.entries(), t);
    let n = c.end_upto(t);
    if n > 0 {
        let e = c.entries()[n - 1];
    }
    assert forall|i: int|
        #![trigger c.entries()[i]]
        0 <= i < c.len() && key_le(c.entries()[i].0, t) implies n > 0 by {
        key_lt_total(c.entries()[i].0, t);
    }
    knows_truly(c, t);
}

/// A seek from nearby and a seek from afar find the same: both find an entry or both
/// do not, and they lead to the same entry. Left out is the forward cursor that stays
/// where it is because it stands after `t` already.
#[verifier::rlimit(40)]
pub proof fn near_seek_agrees_with_seek(c: CursorView, t: Seq<u8>, allow_reseek: bool)
    requires
        c.wf(),
        !(c.mode is Backward),
        !stays_after(c, t, allow_reseek),
    ensures
        c.near_seek(t, allow_reseek).found == c.seek(t).found,
        c.seek(t).found ==> c.near_seek(t, allow_reseek).cursor.at == c.seek(t).cursor.at,
        c.near_seek(t, allow_reseek).cursor.wf(),
{
    bounds_part_entries(c.entries(), t);
    knows_truly(c, t);
    if c.at is Some {
        key_lt_total(c.current_key(), t);
    }
}

/// A backward seek from nearby and one from afar find the same. Left out is the
/// backward cursor that stays where it is because it stands before `t` already.
#[verifier::rlimit(40)]
pub proof fn near_seek_for_prev_agrees_with_seek_for_prev(
    c: CursorView,
    t: Seq<u8>,
    allow_reseek: bool,
)
    requires
        c.wf(),
        !(c.mode is Forward),
        !stays_before(c, t, allow_reseek),
    ensures
        c.near_seek_for_prev(t, allow_reseek).found == c.seek_for_prev(t).found,
        c.seek_for_prev(t).found ==> c.near_seek_for_prev(t, allow_reseek).cursor.at
            == c.seek_for_prev(t).cursor.at,
        c.near_seek_for_prev(t, allow_reseek).cursor.wf(),
{
    bounds_part_entries(c.entries(), t);
    knows_truly(c, t);
    if c.at is Some {
        key_lt_total(c.current_key(), t);
    }
}

/// A reverse seek finds an entry if and only if there is one whose key is before `t`,
/// and it leads to the last of these.
pub proof fn reverse_seek_finds_last_before(c: CursorView, t: Seq<u8>)
    requires
        c.wf(),
    ensures
        c.reverse_seek(t).found <==> exists|i: int|
            #![trigger c.entries()[i]]
            0 <= i < c.len() && key_lt(c.entries()[i].0, t),
        c.reverse_seek(t).found ==> {
            &&& c.reverse_seek(t).cursor.at matches Some(n)
            &&& 0 <= n < c.len()
            &&& key_lt(c.key(n), t)
            &&& forall|i: int|
                #![trigger c.entries()[i]]
                n < i < c.len() ==> key_le(t, c.entries()[i].0)
        },
        c.reverse_seek(t).cursor.wf(),
{
    bounds_part_entries(c.entries(), t);
    knows_truly(c, t);
    let n = c.first_from(t);
    if n > 0 {
        let e = c.entries()[n - 1];
        key_lt_total(e.0, t);
    }
    assert forall|i: int|
        #![trigger c.entries()[i]]
        0 <= i < c.len() && key_lt(c.entries()[i].0, t) implies n > 0 by {
        key_lt_total(c.entries()[i].0, t);
    }
}

/// A reverse seek from nearby and one from afar find the same. Left out is the backward
/// cursor that stays where it is because it stands before `t` already.
pub proof fn near_reverse_seek_agrees_with_reverse_seek(
    c: CursorView,
    t: Seq<u8>,
    allow_reseek: bool,
)
    requires
        c.wf(),
        !(c.mode is Forward),
        !stays_before(c, t, allow_reseek),
    ensures
        c.near_reverse_seek(t, allow_reseek).found == c.reverse_seek(t).found,
        c.reverse_seek(t).found ==> c.near_reverse_seek(t, allow_reseek).cursor.at
            == c.reverse_seek(t).cursor.at,
        c.near_reverse_seek(t, allow_reseek).cursor.wf(),
{
    near_seek_for_prev_agrees_with_seek_for_prev(c, t, allow_reseek);
    seek_for_prev_finds_last(c, t);
    near_seek_keeps_source(c, t, allow_reseek);
}

/// A near seek changes neither what the cursor walks over nor its mode.
pub proof fn near_seek_keeps_source(c: CursorView, t: Seq<u8>, allow_reseek: bool)
    ensures
        c.near_seek(t, allow_reseek).cursor.source == c.source,
        c.near_seek(t, allow_reseek).cursor.mode == c.mode,
        c.near_seek_for_prev(t, allow_reseek).cursor.source == c.source,
        c.near_seek_for_prev(t, allow_reseek).cursor.mode == c.mode,
{
}

/// Whether the answer says if there is an entry whose key is not before `t`, and the cursor
/// then stands at the first of these, over the same entries.
pub open spec fn finds_first_from(
    before: CursorView,
    t: Seq<u8>,
    answer: Result<bool>,
    after: CursorView,
) -> bool {
    &&& answer matches Ok(found) && (found <==> exists|i: int|
        #![trigger before.source.entries[i]]
        0 <= i < before.source.entries.len() && key_le(t, before.source.entries[i].0))
    &&& answer == Ok::<bool, Error>(true) ==> {
        &&& after.at matches Some(n)
        &&& 0 <= n < before.source.entries.len()
        &&& key_le(t, before.source.entries[n].0)
        &&& forall|i: int|
            #![trigger before.source.entries[i]]
            0 <= i < n ==> key_lt(before.source.entries[i].0, t)
    }
    &&& after.source == before.source
    &&& after.mode == before.mode
}

/// Whether the answer says if there is an entry whose key is not after `t`, and the cursor
/// then stands at the last of these, over the same entries.
pub open spec fn finds_last_upto(
    before: CursorView,
    t: Seq<u8>,
    answer: Result<bool>,
    after: CursorView,
) -> bool {
    &&& answer matches Ok(found) && (found <==> exists|i: int|
        #![trigger before.source.entries[i]]
        0 <= i < before.source.entries.len() && key_le(before.source.entries[i].0, t))
    &&& answer == Ok::<bool, Error>(true) ==> {
        &&& after.at matches Some(n)
        &&& 0 <= n < before.source.entries.len()
        &&& key_le(before.source.entries[n].0, t)
        &&& forall|i: int|
            #![trigger before.source.entries[i]]
            n < i < before.source.entries.len() ==> key_lt(t, before.source.entries[i].0)
    }
    &&& after.source == before.source
    &&& after.mode == before.mode
}

/// Whether the answer says if there is an entry whose key is before `t`, and the cursor
/// then stands at the last of these, over the same entries.
pub open spec fn finds_last_before(
    before: CursorView,
    t: Seq<u8>,
    answer: Result<bool>,
    after: CursorView,
) -> bool {
    &&& answer matches Ok(found) && (found <==> exists|i: int|
        #![trigger before.source.entries[i]]
        0 <= i < before.source.entries.len() && key_lt(before.source.entries[i].0, t))
    &&& answer == Ok::<bool, Error>(true) ==> {
        &&& after.at matches Some(n)
        &&& 0 <= n < before.source.entries.len()
        &&& key_lt(before.source.entries[n].0, t)
        &&& forall|i: int|
            #![trigger before.source.entries[i]]
            n < i < before.source.entries.len() ==> key_le(t, before.source.entries[i].0)
    }
    &&& after.source == before.source
    &&& after.mode == before.mode
}

/// Every call of `seek` over an iterator that refuses nothing, wherever the cursor stands and
/// whatever it was used for before, says if there is an entry whose key is not before the
/// key, and leads to the first of these.
pub proof fn every_seek_finds_first<I: Iterator>()
    ensures
        forall|
            cursor: &mut Cursor<I>,
            key: &Key,
            statistics: &mut CFStatistics,
            found: Result<bool>,
        | #[trigger]
            call_ensures(Cursor::<I>::seek, (cursor, key, statistics), found)
                && cursor@.wf()
                && cursor@.source.refuses_nothing() ==> finds_first_from(
                    cursor@,
                    key@,
                    found,
                    final(cursor)@,
                ),
{
    assert forall|
        cursor: &mut Cursor<I>,
        key: &Key,
        statistics: &mut CFStatistics,
        found: Result<bool>,
    | #[trigger]
        call_ensures(Cursor::<I>::seek, (cursor, key, statistics), found)
            && cursor@.wf()
            && cursor@.source.refuses_nothing() implies finds_first_from(
                cursor@,
                key@,
                found,
                final(cursor)@,
            ) by {
        seek_finds_first(cursor@, key@);
    }
}

/// Every call of `near_seek` over an iterator that refuses nothing, however far away the
/// cursor stands, answers as `seek` does and leads to the same entry: the first whose key is
/// not before the key. Left out is the forward cursor that stays where it is.
pub proof fn every_near_seek_finds_first<I: Iterator>()
    ensures
        forall|
            cursor: &mut Cursor<I>,
            key: &Key,
            allow_reseek: bool,
            statistics: &mut CFStatistics,
            found: Result<bool>,
        | #[trigger]
            call_ensures(Cursor::<I>::near_seek, (cursor, key, allow_reseek, statistics), found)
                && cursor@.wf()
                && cursor@.source.refuses_nothing()
                && !(cursor@.mode is Backward)
                && !stays_after(cursor@, key@, allow_reseek) ==> {
                &&& finds_first_from(cursor@, key@, found, final(cursor)@)
                &&& found == Ok::<bool, Error>(cursor@.seek(key@).found)
                &&& found == Ok::<bool, Error>(true) ==> final(cursor)@.at == cursor@.seek(
                    key@,
                ).cursor.at
            },
{
    assert forall|
        cursor: &mut Cursor<I>,
        key: &Key,
        allow_reseek: bool,
        statistics: &mut CFStatistics,
        found: Result<bool>,
    | #[trigger]
        call_ensures(Cursor::<I>::near_seek, (cursor, key, allow_reseek, statistics), found)
            && cursor@.wf()
            && cursor@.source.refuses_nothing()
            && !(cursor@.mode is Backward)
            && !stays_after(cursor@, key@, allow_reseek) implies {
            &&& finds_first_from(cursor@, key@, found, final(cursor)@)
            &&& found == Ok::<bool, Error>(cursor@.seek(key@).found)
            &&& found == Ok::<bool, Error>(true) ==> final(cursor)@.at == cursor@.seek(
                key@,
            ).cursor.at
        } by {
        seek_finds_first(cursor@, key@);
        near_seek_agrees_with_seek(cursor@, key@, allow_reseek);
        near_seek_keeps_source(cursor@, key@, allow_reseek);
    }
}

/// Every call of `seek_for_prev` over an iterator that refuses nothing says if there is an
/// entry whose key is not after the key, and leads to the last of these.
pub proof fn every_seek_for_prev_finds_last<I: Iterator>()
    ensures
        forall|
            cursor: &mut Cursor<I>,
            key: &Key,
            statistics: &mut CFStatistics,
            found: Result<bool>,
        | #[trigger]
            call_ensures(Cursor::<I>::seek_for_prev, (cursor, key, statistics), found)
                && cursor@.wf()
                && cursor@.source.refuses_nothing() ==> finds_last_upto(
                    cursor@,
                    key@,
                    found,
                    final(cursor)@,
                ),
{
    assert forall|
        cursor: &mut Cursor<I>,
        key: &Key,
        statistics: &mut CFStatistics,
        found: Result<bool>,
    | #[trigger]
        call_ensures(Cursor::<I>::seek_for_prev, (cursor, key, statistics), found)
            && cursor@.wf()
            && cursor@.source.refuses_nothing() implies finds_last_upto(
                cursor@,
                key@,
                found,
                final(cursor)@,
            ) by {
        seek_for_prev_finds_last(cursor@, key@);
    }
}

/// Every call of `near_seek_for_prev` over an iterator that refuses nothing, however far away
/// the cursor stands, answers as `seek_for_prev` does and leads to the same entry: the last
/// whose key is not after the key. Left out is the backward cursor that stays where it is.
pub proof fn every_near_seek_for_prev_finds_last<I: Iterator>()
    ensures
        forall|
            cursor: &mut Cursor<I>,
            key: &Key,
            allow_reseek: bool,
            statistics: &mut CFStatistics,
            found: Result<bool>,
        | #[trigger]
            call_ensures(
                Cursor::<I>::near_seek_for_prev,
                (cursor, key, allow_reseek, statistics),
                found,
            )
                && cursor@.wf()
                && cursor@.source.refuses_nothing()
                && !(cursor@.mode is Forward)
                && !stays_before(cursor@, key@, allow_reseek) ==> {
                &&& finds_last_upto(cursor@, key@, found, final(cursor)@)
                &&& found == Ok::<bool, Error>(cursor@.seek_for_prev(key@).found)
                &&& found == Ok::<bool, Error>(true) ==> final(cursor)@.at == cursor@.seek_for_prev(
                    key@,
                ).cursor.at
            },
{
    assert forall|
        cursor: &mut Cursor<I>,
        key: &Key,
        allow_reseek: bool,
        statistics: &mut CFStatistics,
        found: Result<bool>,
    | #[trigger]
        call_ensures(
            Cursor::<I>::near_seek_for_prev,
            (cursor, key, allow_reseek, statistics),
            found,
        )
            && cursor@.wf()
            && cursor@.source.refuses_nothing()
            && !(cursor@.mode is Forward)
            && !stays_before(cursor@, key@, allow_reseek) implies {
            &&& finds_last_upto(cursor@, key@, found, final(cursor)@)
            &&& found == Ok::<bool, Error>(cursor@.seek_for_prev(key@).found)
            &&& found == Ok::<bool, Error>(true) ==> final(cursor)@.at == cursor@.seek_for_prev(
                key@,
            ).cursor.at
        } by {
        seek_for_prev_finds_last(cursor@, key@);
        near_seek_for_prev_agrees_with_seek_for_prev(cursor@, key@, allow_reseek);
        near_seek_keeps_source(cursor@, key@, allow_reseek);
    }
}

/// Every call of `reverse_seek` over an iterator that refuses nothing says if there is an
/// entry whose key is before the key, and leads to the last of these.
pub proof fn every_reverse_seek_finds_last_before<I: Iterator>()
    ensures
        forall|
            cursor: &mut Cursor<I>,
            key: &Key,
            statistics: &mut CFStatistics,
            found: Result<bool>,
        | #[trigger]
            call_ensures(Cursor::<I>::reverse_seek, (cursor, key, statistics), found)
                && cursor@.wf()
                && cursor@.source.refuses_nothing() ==> finds_last_before(
                    cursor@,
                    key@,
                    found,
                    final(cursor)@,
                ),
{
    assert forall|
        cursor: &mut Cursor<I>,
        key: &Key,
        statistics: &mut CFStatistics,
        found: Result<bool>,
    | #[trigger]
        call_ensures(Cursor::<I>::reverse_seek, (cursor, key, statistics), found)
            && cursor@.wf()
            && cursor@.source.refuses_nothing() implies finds_last_before(
                cursor@,
                key@,
                found,
                final(cursor)@,
            ) by {
        reverse_seek_finds_last_before(cursor@, key@);
    }
}

/// Every call of `near_reverse_seek` over an iterator that refuses nothing, however far away
/// the cursor stands, answers as `reverse_seek` does and leads to the same entry: the last
/// whose key is before the key. Left out is the backward cursor that stays where it is.
pub proof fn every_near_reverse_seek_finds_last_before<I: Iterator>()
    ensures
        forall|
            cursor: &mut Cursor<I>,
            key: &Key,
            allow_reseek: bool,
            statistics: &mut CFStatistics,
            found: Result<bool>,
        | #[trigger]
            call_ensures(
                Cursor::<I>::near_reverse_seek,
                (cursor, key, allow_reseek, statistics),
                found,
            )
                && cursor@.wf()
                && cursor@.source.refuses_nothing()
                && !(cursor@.mode is Forward)
                && !stays_before(cursor@, key@, allow_reseek) ==> {
                &&& finds_last_before(cursor@, key@, found, final(cursor)@)
                &&& found == Ok::<bool, Error>(cursor@.reverse_seek(key@).found)
                &&& found == Ok::<bool, Error>(true) ==> final(cursor)@.at == cursor@.reverse_seek(
                    key@,
                ).cursor.at
            },
{
    assert forall|
        cursor: &mut Cursor<I>,
        key: &Key,
        allow_reseek: bool,
        statistics: &mut CFStatistics,
        found: Result<bool>,
    | #[trigger]
        call_ensures(
            Cursor::<I>::near_reverse_seek,
            (cursor, key, allow_reseek, statistics),
            found,
        )
            && cursor@.wf()
            && cursor@.source.refuses_nothing()
            && !(cursor@.mode is Forward)
            && !stays_before(cursor@, key@, allow_reseek) implies {
            &&& finds_last_before(cursor@, key@, found, final(cursor)@)
            &&& found == Ok::<bool, Error>(cursor@.reverse_seek(key@).found)
            &&& found == Ok::<bool, Error>(true) ==> final(cursor)@.at == cursor@.reverse_seek(
                key@,
            ).cursor.at
        } by {
        reverse_seek_finds_last_before(cursor@, key@);
        near_reverse_seek_agrees_with_reverse_seek(cursor@, key@, allow_reseek);
        near_seek_keeps_source(cursor@, key@, allow_reseek);
    }
}

/// A forward cursor that stands after `t`, and is not told to seek anew, performs no
/// operation: it reads its key and stays.
pub proof fn forward_cursor_stays(c: CursorView, t: Seq<u8>)
    requires
        c.wf(),
        stays_after(c, t, false),
    ensures
        c.near_seek(t, false) == c.with_key_read().stay().after(c.key_charge()),
{
    key_lt_total(c.current_key(), t);
}

/// A backward cursor that stands before `t`, and is not told to seek anew, performs no
/// operation: it reads its key and stays.
pub proof fn backward_cursor_stays(c: CursorView, t: Seq<u8>)
    requires
        c.wf(),
        stays_before(c, t, false),
    ensures
        c.near_seek_for_prev(t, false) == c.with_key_read().stay().after(c.key_charge()),
        c.near_reverse_seek(t, false).found,
        c.near_reverse_seek(t, false).cursor == c.with_key_read(),
{
    key_lt_total(c.current_key(), t);
}

/// Every call of `near_seek` that finds a forward cursor after the key already, and is not
/// told to seek anew, finds the entry there and performs no operation on the iterator: the
/// key is read, and nothing else is counted. A lookup then finds no value.
pub proof fn staying_forward_cursor_is_left_alone<I: Iterator>()
    ensures
        forall|
            cursor: &mut Cursor<I>,
            key: &Key,
            allow_reseek: bool,
            statistics: &mut CFStatistics,
            found: Result<bool>,
        | #[trigger]
            call_ensures(Cursor::<I>::near_seek, (cursor, key, allow_reseek, statistics), found)
                && cursor@.wf() && stays_after(cursor@, key@, allow_reseek) ==> {
                &&& found == Ok::<bool, Error>(true)
                &&& final(cursor)@ == cursor@.with_key_read()
                &&& final(cursor).iterator() == cursor.iterator()
                &&& cursor@.key_charge().leads(*statistics, *final(statistics))
            },
        forall|
            cursor: &mut Cursor<I>,
            key: &Key,
            allow_reseek: bool,
            statistics: &mut CFStatistics,
            value: Result<Option<&[u8]>>,
        | #[trigger]
            call_ensures(Cursor::<I>::near_seek_get, (cursor, key, allow_reseek, statistics), value)
                && cursor@.wf() && stays_after(cursor@, key@, allow_reseek) ==> {
                &&& value == Ok::<Option<&[u8]>, Error>(None)
                &&& final(cursor)@ == cursor@.with_key_read()
                &&& final(cursor).iterator() == cursor.iterator()
                &&& cursor@.key_charge().leads(*statistics, *final(statistics))
            },
{
    assert forall|
        cursor: &mut Cursor<I>,
        key: &Key,
        allow_reseek: bool,
        statistics: &mut CFStatistics,
        found: Result<bool>,
    | #[trigger]
        call_ensures(Cursor::<I>::near_seek, (cursor, key, allow_reseek, statistics), found)
            && cursor@.wf() && stays_after(cursor@, key@, allow_reseek) implies {
            &&& found == Ok::<bool, Error>(true)
            &&& final(cursor)@ == cursor@.with_key_read()
            &&& final(cursor).iterator() == cursor.iterator()
            &&& cursor@.key_charge().leads(*statistics, *final(statistics))
        } by {
        forward_cursor_stays(cursor@, key@);
        key_lt_total(cursor@.current_key(), key@);
    }
    assert forall|
        cursor: &mut Cursor<I>,
        key: &Key,
        allow_reseek: bool,
        statistics: &mut CFStatistics,
        value: Result<Option<&[u8]>>,
    | #[trigger]
        call_ensures(Cursor::<I>::near_seek_get, (cursor, key, allow_reseek, statistics), value)
            && cursor@.wf() && stays_after(cursor@, key@, allow_reseek) implies {
            &&& value == Ok::<Option<&[u8]>, Error>(None)
            &&& final(cursor)@ == cursor@.with_key_read()
            &&& final(cursor).iterator() == cursor.iterator()
            &&& cursor@.key_charge().leads(*statistics, *final(statistics))
        } by {
        forward_cursor_stays(cursor@, key@);
        key_lt_total(cursor@.current_key(), key@);
    }
}

/// Every call of `near_seek_for_prev` or `near_reverse_seek` that finds a backward cursor
/// before the key already, and is not told to seek anew, finds the entry there and performs
/// no operation on the iterator: the key is read, and nothing else is counted. A lookup then
/// finds no value.
pub proof fn staying_backward_cursor_is_left_alone<I: Iterator>()
    ensures
        forall|
            cursor: &mut Cursor<I>,
            key: &Key,
            allow_reseek: bool,
            statistics: &mut CFStatistics,
            found: Result<bool>,
        | #[trigger]
            call_ensures(
                Cursor::<I>::near_seek_for_prev,
                (cursor, key, allow_reseek, statistics),
                found,
            )
                && cursor@.wf() && stays_before(cursor@, key@, allow_reseek) ==> {
                &&& found == Ok::<bool, Error>(true)
                &&& final(cursor)@ == cursor@.with_key_read()
                &&& final(cursor).iterator() == cursor.iterator()
                &&& cursor@.key_charge().leads(*statistics, *final(statistics))
            },
        forall|
            cursor: &mut Cursor<I>,
            key: &Key,
            allow_reseek: bool,
            statistics: &mut CFStatistics,
            found: Result<bool>,
        | #[trigger]
            call_ensures(
                Cursor::<I>::near_reverse_seek,
                (cursor, key, allow_reseek, statistics),
                found,
            )
                && cursor@.wf() && stays_before(cursor@, key@, allow_reseek) ==> {
                &&& found == Ok::<bool, Error>(true)
                &&& final(cursor)@ == cursor@.with_key_read()
                &&& final(cursor).iterator() == cursor.iterator()
                &&& cursor@.key_charge().leads(*statistics, *final(statistics))
            },
        forall|
            cursor: &mut Cursor<I>,
            key: &Key,
            allow_reseek: bool,
            statistics: &mut CFStatistics,
            value: Result<Option<&[u8]>>,
        | #[trigger]
            call_ensures(Cursor::<I>::near_seek_get, (cursor, key, allow_reseek, statistics), value)
                && cursor@.wf() && stays_before(cursor@, key@, allow_reseek) ==> {
                &&& value == Ok::<Option<&[u8]>, Error>(None)
                &&& final(cursor)@ == cursor@.with_key_read()
                &&& final(cursor).iterator() == cursor.iterator()
                &&& cursor@.key_charge().leads(*statistics, *final(statistics))
            },
{
    assert forall|
        cursor: &mut Cursor<I>,
        key: &Key,
        allow_reseek: bool,
        statistics: &mut CFStatistics,
        found: Result<bool>,
    | #[trigger]
        call_ensures(
            Cursor::<I>::near_seek_for_prev,
            (cursor, key, allow_reseek, statistics),
            found,
        )
            && cursor@.wf() && stays_before(cursor@, key@, allow_reseek) implies {
            &&& found == Ok::<bool, Error>(true)
            &&& final(cursor)@ == cursor@.with_key_read()
            &&& final(cursor).iterator() == cursor.iterator()
            &&& cursor@.key_charge().leads(*statistics, *final(statistics))
        } by {
        backward_cursor_stays(cursor@, key@);
        key_lt_total(cursor@.current_key(), key@);
    }
    assert forall|
        cursor: &mut Cursor<I>,
        key: &Key,
        allow_reseek: bool,
        statistics: &mut CFStatistics,
        found: Result<bool>,
    | #[trigger]
        call_ensures(
            Cursor::<I>::near_reverse_seek,
            (cursor, key, allow_reseek, statistics),
            found,
        )
            && cursor@.wf() && stays_before(cursor@, key@, allow_reseek) implies {
            &&& found == Ok::<bool, Error>(true)
            &&& final(cursor)@ == cursor@.with_key_read()
            &&& final(cursor).iterator() == cursor.iterator()
            &&& cursor@.key_charge().leads(*statistics, *final(statistics))
        } by {
        backward_cursor_stays(cursor@, key@);
        key_lt_total(cursor@.current_key(), key@);
    }
    assert forall|
        cursor: &mut Cursor<I>,
        key: &Key,
        allow_reseek: bool,
        statistics: &mut CFStatistics,
        value: Result<Option<&[u8]>>,
    | #[trigger]
        call_ensures(Cursor::<I>::near_seek_get, (cursor, key, allow_reseek, statistics), value)
            && cursor@.wf() && stays_before(cursor@, key@, allow_reseek) implies {
            &&& value == Ok::<Option<&[u8]>, Error>(None)
            &&& final(cursor)@ == cursor@.with_key_read()
            &&& final(cursor).iterator() == cursor.iterator()
            &&& cursor@.key_charge().leads(*statistics, *final(statistics))
        } by {
        backward_cursor_stays(cursor@, key@);
        key_lt_total(cursor@.current_key(), key@);
    }
}

/// A forward cursor that stands after `t`, and is told to seek anew, does so.
pub proof fn forward_cursor_reseeks(c: CursorView, t: Seq<u8>)
    requires
        c.wf(),
        stays_after(c, t, false),
    ensures
        c.near_seek(t, true) == c.with_key_read().seek(t).after(c.key_charge()),
{
    key_lt_total(c.current_key(), t);
}

/// A backward cursor that stands before `t`, and is told to seek anew, does so.
pub proof fn backward_cursor_reseeks(c: CursorView, t: Seq<u8>)
    requires
        c.wf(),
        stays_before(c, t, false),
    ensures
        c.near_seek_for_prev(t, true) == c.with_key_read().seek_for_prev(t).after(c.key_charge()),
{
    key_lt_total(c.current_key(), t);
}

/// A mixed cursor that stands after `t` steps back first, and then seeks if it has passed
/// too many entries.
#[verifier::rlimit(40)]
pub proof fn mixed_cursor_steps_back_first(c: CursorView, t: Seq<u8>, allow_reseek: bool)
    requires
        c.wf(),
        c.mode is Mixed,
        c.at is Some,
        key_lt(t, c.current_key()),
    ensures
        c.near_seek(t, allow_reseek).charge.prev >= 1,
        c.at->0 - c.end_upto(t) >= SEEK_BOUND ==> {
            &&& c.near_seek(t, allow_reseek).charge.prev == SEEK_BOUND
            &&& c.near_seek(t, allow_reseek).charge.seek == 1
            &&& c.near_seek(t, allow_reseek).charge.over_seek_bound == 1
            &&& c.near_seek(t, allow_reseek).cursor == c.seek(t).cursor
        },
{
    bounds_part_entries(c.entries(), t);
    knows_truly(c, t);
    key_lt_total(c.current_key(), t);
}

/// A mixed cursor that stands before `t` steps on first, and then seeks backward if it has
/// passed too many entries.
#[verifier::rlimit(40)]
pub proof fn mixed_cursor_steps_on_first(c: CursorView, t: Seq<u8>, allow_reseek: bool)
    requires
        c.wf(),
        c.mode is Mixed,
        c.at is Some,
        key_lt(c.current_key(), t),
    ensures
        c.near_seek_for_prev(t, allow_reseek).charge.next >= 1,
        c.first_from(t) - 1 - c.at->0 >= SEEK_BOUND ==> {
            &&& c.near_seek_for_prev(t, allow_reseek).charge.next == SEEK_BOUND
            &&& c.near_seek_for_prev(t, allow_reseek).charge.seek_for_prev == 1
            &&& c.near_seek_for_prev(t, allow_reseek).charge.over_seek_bound == 1
            &&& c.near_seek_for_prev(t, allow_reseek).cursor == c.seek_for_prev(t).cursor
        },
{
    bounds_part_entries(c.entries(), t);
    knows_truly(c, t);
    key_lt_total(c.current_key(), t);
}

/// Whether a charge is within what a near seek may cost: as many operations as it may pass
/// entries and one more, of which one may be a seek. That it passed too many entries is
/// counted only where it passed just as many as it may, all in one direction, and then
/// sought.
pub open spec fn within_near_cost(charge: Charge) -> bool {
    &&& charge.next + charge.prev + charge.seek + charge.seek_for_prev <= SEEK_BOUND + 1
    &&& charge.seek + charge.seek_for_prev <= 1
    &&& charge.read_keys <= SEEK_BOUND + 1
    &&& charge.over_seek_bound <= 1
    &&& charge.over_seek_bound == 1 ==> {
        &&& charge.next == SEEK_BOUND && charge.prev == 0 || charge.next == 0 && charge.prev
            == SEEK_BOUND
        &&& charge.seek + charge.seek_for_prev == 1
    }
}

/// What a near seek costs.
#[verifier::rlimit(40)]
proof fn near_seek_cost(c: CursorView, t: Seq<u8>, allow_reseek: bool)
    requires
        c.wf(),
    ensures
        within_near_cost(c.near_seek(t, allow_reseek).charge),
{
    bounds_part_entries(c.entries(), t);
    knows_truly(c, t);
    if c.at is Some {
        key_lt_total(c.current_key(), t);
    }
}

/// What a backward near seek costs.
#[verifier::rlimit(40)]
proof fn near_seek_for_prev_cost(c: CursorView, t: Seq<u8>, allow_reseek: bool)
    requires
        c.wf(),
    ensures
        within_near_cost(c.near_seek_for_prev(t, allow_reseek).charge),
{
    bounds_part_entries(c.entries(), t);
    knows_truly(c, t);
    if c.at is Some {
        key_lt_total(c.current_key(), t);
    }
}

/// However far it stands from `t`, a near seek takes a bounded number of operations, of
/// which at most one is a seek.
pub proof fn near_seek_cost_is_bounded(c: CursorView, t: Seq<u8>, allow_reseek: bool)
    requires
        c.wf(),
    ensures
        within_near_cost(c.near_seek(t, allow_reseek).charge),
        within_near_cost(c.near_seek_for_prev(t, allow_reseek).charge),
{
    near_seek_cost(c, t, allow_reseek);
    near_seek_for_prev_cost(c, t, allow_reseek);
}

/// A near seek that would pass too many entries on its way forward falls back to a
/// seek, which still finds what it looks for.
pub proof fn far_near_seek_falls_back(c: CursorView, t: Seq<u8>, allow_reseek: bool)
    requires
        c.wf(),
        !(c.mode is Backward),
        c.at is Some,
        c.first_from(t) - 1 - c.at->0 >= SEEK_BOUND,
        !c.knows_none_from(t),
    ensures
        c.near_seek(t, allow_reseek).charge.over_seek_bound == 1,
        c.near_seek(t, allow_reseek).charge.seek == 1,
        c.near_seek(t, allow_reseek).charge.next == SEEK_BOUND,
        c.near_seek(t, allow_reseek).cursor == c.seek(t).cursor,
{
    bounds_part_entries(c.entries(), t);
    key_lt_total(c.current_key(), t);
}

/// A backward near seek that would pass too many entries on its way back falls back to a
/// backward seek, which still finds what it looks for.
pub proof fn far_near_seek_for_prev_falls_back(c: CursorView, t: Seq<u8>, allow_reseek: bool)
    requires
        c.wf(),
        !(c.mode is Forward),
        c.at is Some,
        c.at->0 - c.end_upto(t) >= SEEK_BOUND,
        !c.knows_none_upto(t),
    ensures
        c.near_seek_for_prev(t, allow_reseek).charge.over_seek_bound == 1,
        c.near_seek_for_prev(t, allow_reseek).charge.seek_for_prev == 1,
        c.near_seek_for_prev(t, allow_reseek).charge.prev == SEEK_BOUND,
        c.near_seek_for_prev(t, allow_reseek).cursor == c.seek_for_prev(t).cursor,
{
    bounds_part_entries(c.entries(), t);
    key_lt_total(c.current_key(), t);
}

/// A key is counted as read once at each place, and so is a value.
pub proof fn reading_is_charged_once(c: CursorView)
    ensures
        c.with_key_read().key_charge() == Charge::none(),
        c.with_value_read().value_charge() == Charge::none(),
{
}

/// A step back undoes a step forward, and the other way round, as long as the steps do
/// not lead off the entries.
pub proof fn steps_undo_each_other(c: CursorView, i: int)
    requires
        c.wf(),
        c.at == Some(i),
    ensures
        c.place_after(i) matches Some(j) ==> c.place_before(j) == c.at,
        c.place_before(i) matches Some(j) ==> c.place_after(j) == c.at,
{
}

/// Once a seek has found nothing, no seek for that key or a later one is put to the
/// iterator again: it is turned down at once, at no charge.
pub proof fn failed_seek_is_remembered(c: CursorView, t: Seq<u8>, later: Seq<u8>)
    requires
        c.wf(),
        !c.seek(t).found,
        key_le(t, later),
    ensures
        c.seek(t).cursor.seek(later) == c.seek(t).cursor.turn_down(),
{
    if c.knows_none_from(t) && t != later && c.max_key->0 != t {
        key_lt_transitive(c.max_key->0, t, later);
    }
}

/// Once a backward seek has found nothing, no backward seek for that key or an earlier
/// one is put to the iterator again.
pub proof fn failed_seek_for_prev_is_remembered(c: CursorView, t: Seq<u8>, earlier: Seq<u8>)
    requires
        c.wf(),
        !c.seek_for_prev(t).found,
        key_le(earlier, t),
    ensures
        c.seek_for_prev(t).cursor.seek_for_prev(earlier)
            == c.seek_for_prev(t).cursor.turn_down(),
{
    if c.knows_none_upto(t) && t != earlier && c.min_key->0 != t {
        key_lt_transitive(earlier, t, c.min_key->0);
    }
}

/// Once a near seek has found nothing, no seek and no near seek for that key or a later one
/// is put to the iterator again.
#[verifier::rlimit(40)]
pub proof fn failed_near_seek_is_remembered(
    c: CursorView,
    t: Seq<u8>,
    allow_reseek: bool,
    later: Seq<u8>,
    later_reseek: bool,
)
    requires
        c.wf(),
        !(c.mode is Backward),
        !c.near_seek(t, allow_reseek).found,
        key_le(t, later),
    ensures
        ({
            let missed = c.near_seek(t, allow_reseek).cursor;
            &&& missed.knows_none_from(later)
            &&& missed.seek(later) == missed.turn_down()
            &&& missed.near_seek(later, later_reseek).request == Some(Request::Validate)
            &&& !missed.near_seek(later, later_reseek).found
        }),
{
    let missed = c.near_seek(t, allow_reseek).cursor;
    bounds_part_entries(c.entries(), t);
    knows_truly(c, t);
    if c.at is Some {
        key_lt_total(c.current_key(), t);
    }
    if t != later && missed.max_key->0 != t {
        key_lt_transitive(missed.max_key->0, t, later);
    }
    known_miss_turns_down(missed, later, later_reseek);
}

/// Once a backward near seek has found nothing, no backward seek and no backward near seek
/// for that key or an earlier one is put to the iterator again.
#[verifier::rlimit(40)]
pub proof fn failed_near_seek_for_prev_is_remembered(
    c: CursorView,
    t: Seq<u8>,
    allow_reseek: bool,
    earlier: Seq<u8>,
    later_reseek: bool,
)
    requires
        c.wf(),
        !(c.mode is Forward),
        !c.near_seek_for_prev(t, allow_reseek).found,
        key_le(earlier, t),
    ensures
        ({
            let missed = c.near_seek_for_prev(t, allow_reseek).cursor;
            &&& missed.knows_none_upto(earlier)
            &&& missed.seek_for_prev(earlier) == missed.turn_down()
            &&& missed.near_seek_for_prev(earlier, later_reseek).request == Some(
                Request::Validate,
            )
            &&& !missed.near_seek_for_prev(earlier, later_reseek).found
        }),
{
    let missed = c.near_seek_for_prev(t, allow_reseek).cursor;
    bounds_part_entries(c.entries(), t);
    knows_truly(c, t);
    if c.at is Some {
        key_lt_total(c.current_key(), t);
    }
    if t != earlier && missed.min_key->0 != t {
        key_lt_transitive(earlier, t, missed.min_key->0);
    }
    known_miss_turns_down(missed, earlier, later_reseek);
}

/// A near seek for a key that is known not to be there, nor any after it, is turned down
/// wherever the cursor stands; and so is a backward near seek for a key that is known not
/// to be there, nor any before it.
pub proof fn known_miss_turns_down(c: CursorView, t: Seq<u8>, allow_reseek: bool)
    requires
        c.wf(),
    ensures
        c.knows_none_from(t) ==> {
            &&& c.near_seek(t, allow_reseek).request == Some(Request::Validate)
            &&& !c.near_seek(t, allow_reseek).found
            &&& c.near_seek(t, allow_reseek).cursor.at == c.at
        },
        c.knows_none_upto(t) ==> {
            &&& c.near_seek_for_prev(t, allow_reseek).request == Some(Request::Validate)
            &&& !c.near_seek_for_prev(t, allow_reseek).found
            &&& c.near_seek_for_prev(t, allow_reseek).cursor.at == c.at
        },
{
    if c.at is Some {
        let k = c.entries()[c.at->0].0;
        key_lt_total(k, t);
        if c.knows_none_from(t) && c.max_key->0 != t {
            key_lt_transitive(k, c.max_key->0, t);
        }
        if c.knows_none_upto(t) && c.min_key->0 != t {
            key_lt_transitive(t, c.min_key->0, k);
        }
    }
}

/// Whether a cursor knows all that another knows about which keys are not there.
pub open spec fn knows_all_of(c: CursorView, other: CursorView) -> bool {
    &&& forall|k: Seq<u8>| #[trigger] other.knows_none_from(k) ==> c.knows_none_from(k)
    &&& forall|k: Seq<u8>| #[trigger] other.knows_none_upto(k) ==> c.knows_none_upto(k)
}

/// Whether all that `c` has learnt on the way to `after` is that a key was missed that it
/// did not know to be missing.
spec fn learnt_at_most(c: CursorView, t: Seq<u8>, after: CursorView) -> bool {
    &&& after.max_key == c.max_key || !c.knows_none_from(t) && after.max_key == Some(t)
    &&& after.min_key == c.min_key || !c.knows_none_upto(t) && after.min_key == Some(t)
}

/// To learn of a miss forgets nothing that was known.
proof fn learning_keeps_knowledge(c: CursorView, t: Seq<u8>, after: CursorView)
    requires
        learnt_at_most(c, t, after),
    ensures
        knows_all_of(after, c),
{
    assert forall|k: Seq<u8>| #[trigger] c.knows_none_from(k) implies after.knows_none_from(k) by {
        let m = c.max_key->0;
        if after.max_key != c.max_key {
            key_lt_total(m, t);
            if m != k {
                key_lt_transitive(t, m, k);
            }
        }
    }
    assert forall|k: Seq<u8>| #[trigger] c.knows_none_upto(k) implies after.knows_none_upto(k) by {
        let m = c.min_key->0;
        if after.min_key != c.min_key {
            key_lt_total(m, t);
            if m != k {
                key_lt_transitive(k, m, t);
            }
        }
    }
}

/// A near seek learns of the miss of its key at most.
proof fn near_seek_learns_at_most(c: CursorView, t: Seq<u8>, allow_reseek: bool)
    ensures
        learnt_at_most(c, t, c.near_seek(t, allow_reseek).cursor),
{
}

/// A backward near seek learns of the miss of its key at most.
proof fn near_seek_for_prev_learns_at_most(c: CursorView, t: Seq<u8>, allow_reseek: bool)
    ensures
        learnt_at_most(c, t, c.near_seek_for_prev(t, allow_reseek).cursor),
{
}

/// No seek makes a cursor forget which keys are not there: what a miss has taught stays
/// known whatever is sought after it, from afar or from nearby, in either direction.
pub proof fn known_misses_are_kept(c: CursorView, t: Seq<u8>, allow_reseek: bool)
    ensures
        knows_all_of(c.seek(t).cursor, c),
        knows_all_of(c.seek_for_prev(t).cursor, c),
        knows_all_of(c.reverse_seek(t).cursor, c),
        knows_all_of(c.near_seek(t, allow_reseek).cursor, c),
        knows_all_of(c.near_seek_for_prev(t, allow_reseek).cursor, c),
        knows_all_of(c.near_reverse_seek(t, allow_reseek).cursor, c),
        knows_all_of(c.near_seek_get(t, allow_reseek).cursor, c),
{
    let near = c.near_seek(t, allow_reseek);
    let near_prev = c.near_seek_for_prev(t, allow_reseek);
    near_seek_learns_at_most(c, t, allow_reseek);
    near_seek_for_prev_learns_at_most(c, t, allow_reseek);
    learning_keeps_knowledge(c, t, c.seek(t).cursor);
    learning_keeps_knowledge(c, t, c.seek_for_prev(t).cursor);
    learning_keeps_knowledge(c, t, c.seek_for_prev(t).then_step_before(t).cursor);
    learning_keeps_knowledge(c, t, near.cursor);
    learning_keeps_knowledge(c, t, near_prev.cursor);
    learning_keeps_knowledge(c, t, near_prev.then_step_before(t).cursor);
    learning_keeps_knowledge(c, t, near.then_read_under(t).cursor);
    learning_keeps_knowledge(c, t, near_prev.then_read_under(t).cursor);
}

/// Seeking the same key again leads to the same place.
pub proof fn seek_is_repeatable(c: CursorView, t: Seq<u8>)
    requires
        c.wf(),
    ensures
        c.seek(t).found ==> c.seek(t).cursor.seek(t).cursor == c.seek(t).cursor,
        c.seek_for_prev(t).found ==> c.seek_for_prev(t).cursor.seek_for_prev(t).cursor
            == c.seek_for_prev(t).cursor,
{
}

/// Looking a key up gives the value that is stored under it, and nothing if the key is
/// not there. Left out are the cursors that stay where they are because they stand
/// beyond `t` already.
#[verifier::rlimit(40)]
pub proof fn near_seek_get_gives_stored_value(c: CursorView, t: Seq<u8>, allow_reseek: bool)
    requires
        c.wf(),
        !stays_after(c, t, allow_reseek),
        !stays_before(c, t, allow_reseek),
    ensures
        forall|v: Seq<u8>|
            c.near_seek_get(t, allow_reseek).value == Some(v) <==> c.entries().contains((t, v)),
{
    bounds_part_entries(c.entries(), t);
    near_seek_keeps_source(c, t, allow_reseek);
    if c.mode is Backward {
        near_seek_for_prev_agrees_with_seek_for_prev(c, t, allow_reseek);
        seek_for_prev_finds_last(c, t);
    } else {
        near_seek_agrees_with_seek(c, t, allow_reseek);
        seek_finds_first(c, t);
    }
    let n = c.first_from(t);
    assert forall|v: Seq<u8>|
        c.near_seek_get(t, allow_reseek).value == Some(v) <==> c.entries().contains((t, v)) by {
        if c.entries().contains((t, v)) {
            let i = choose|i: int| 0 <= i < c.len() && c.entries()[i] == (t, v);
            key_lt_total(t, t);
            assert(i == n && i + 1 == c.end_upto(t));
        }
    }
}

/// Whether a change leaves the value under a key of a column family alone.
pub open spec fn leaves_alone(modify: Modify, cf: Seq<char>, key: Seq<u8>) -> bool {
    forall|before: Option<Seq<u8>>| #[trigger] modify.effect(cf, key, before) == before
}

/// A batch that ends with the storing of a value under a key makes that value be read
/// back, whatever was there and whatever the batch changed before.
pub proof fn put_is_read_back(
    batch: Seq<Modify>,
    cf: CfName,
    key: Key,
    value: Value,
    before: Option<Seq<u8>>,
)
    ensures
        batch_effect(batch.push(Modify::Put(cf, key, value)), cf@, key@, before) == Some(value@),
{
    assert(batch.push(Modify::Put(cf, key, value)).drop_last() =~= batch);
}

/// A batch that ends with the removal of a key makes nothing be read back under it.
pub proof fn deleted_is_gone(batch: Seq<Modify>, cf: CfName, key: Key, before: Option<Seq<u8>>)
    ensures
        batch_effect(batch.push(Modify::Delete(cf, key)), cf@, key@, before) is None,
{
    assert(batch.push(Modify::Delete(cf, key)).drop_last() =~= batch);
}

/// A batch that ends with the removal of a range makes nothing be read back under any key
/// of the range.
pub proof fn deleted_range_is_gone(
    batch: Seq<Modify>,
    cf: CfName,
    start: Key,
    end: Key,
    key: Seq<u8>,
    before: Option<Seq<u8>>,
)
    requires
        key_le(start@, key),
        key_lt(key, end@),
    ensures
        batch_effect(batch.push(Modify::DeleteRange(cf, start, end)), cf@, key, before) is None,
{
    assert(batch.push(Modify::DeleteRange(cf, start, end)).drop_last() =~= batch);
}

/// A change to one column family leaves every other column family alone.
pub proof fn column_families_are_apart(
    cf: CfName,
    other: Seq<char>,
    key: Key,
    end: Key,
    value: Value,
    k: Seq<u8>,
)
    requires
        cf@ != other,
    ensures
        leaves_alone(Modify::Put(cf, key, value), other, k),
        leaves_alone(Modify::Delete(cf, key), other, k),
        leaves_alone(Modify::DeleteRange(cf, key, end), other, k),
{
}

/// What no change of a batch concerns is read back as it was.
pub proof fn untouched_is_kept(
    batch: Seq<Modify>,
    cf: Seq<char>,
    key: Seq<u8>,
    before: Option<Seq<u8>>,
)
    requires
        forall|i: int| 0 <= i < batch.len() ==> leaves_alone(#[trigger] batch[i], cf, key),
    ensures
        batch_effect(batch, cf, key, before) == before,
    decreases batch.len(),
{
    if batch.len() > 0 {
        let rest = batch.drop_last();
        assert forall|i: int| 0 <= i < rest.len() implies leaves_alone(
            #[trigger] rest[i],
            cf,
            key,
        ) by {
            assert(rest[i] == batch[i]);
        }
        untouched_is_kept(rest, cf, key, before);
        assert(leaves_alone(batch[batch.len() - 1], cf, key));
    }
}

/// Two batches written one after the other do what the changes of both do in one batch.
pub proof fn batches_follow_one_another(
    first: Seq<Modify>,
    second: Seq<Modify>,
    cf: Seq<char>,
    key: Seq<u8>,
    before: Option<Seq<u8>>,
)
    ensures
        batch_effect(first + second, cf, key, before) == batch_effect(
            second,
            cf,
            key,
            batch_effect(first, cf, key, before),
        ),
    decreases second.len(),
{
    if second.len() == 0 {
        assert(first + second =~= first);
    } else {
        assert((first + second).drop_last() =~= first + second.drop_last());
        batches_follow_one_another(first, second.drop_last(), cf, key, before);
    }
}

/// Whether two statistics of a column family agree in all counters but that of the
/// bytes read.
pub open spec fn same_but_bytes(a: CFStatistics, b: CFStatistics) -> bool {
    &&& a.processed == b.processed
    &&& a.get == b.get
    &&& a.next == b.next
    &&& a.prev == b.prev
    &&& a.seek == b.seek
    &&& a.seek_for_prev == b.seek_for_prev
    &&& a.over_seek_bound == b.over_seek_bound
    &&& a.flow_stats.read_keys == b.flow_stats.read_keys
}

/// Added to fresh counters, the counters of a request stay what they are.
pub proof fn adding_to_zero_gives_the_addend(a: Statistics)
    ensures
        Statistics::zero().merged(a) == a,
{
}

/// It does not matter in which order statistics are added up, nor how they are grouped,
/// for any counter but that of the bytes read.
pub proof fn adding_is_order_free(a: CFStatistics, b: CFStatistics, c: CFStatistics)
    ensures
        same_but_bytes(a.merged(b), b.merged(a)),
        same_but_bytes(a.merged(b).merged(c), a.merged(b.merged(c))),
        same_but_bytes(a.merged(CFStatistics::zero()), a),
{
}

/// As long as no counter comes to its largest value, the operations of both are
/// counted.
pub proof fn adding_adds_op_counts(a: CFStatistics, b: CFStatistics)
    requires
        a.op_count() + b.op_count() <= usize::MAX,
    ensures
        a.merged(b).op_count() == a.op_count() + b.op_count(),
{
}

/// Adding makes no counter of operations or of keys smaller.
pub proof fn adding_never_lowers(a: CFStatistics, b: CFStatistics)
    ensures
        a.merged(b).processed >= a.processed,
        a.merged(b).op_count() >= a.op_count(),
        a.merged(b).over_seek_bound >= a.over_seek_bound,
        a.merged(b).flow_stats.read_keys >= a.flow_stats.read_keys,
{
}

/// The total that is listed first is the sum of the counters listed for the kinds of
/// operations.
pub proof fn listed_total_is_sum(a: CFStatistics)
    requires
        a.op_count() <= usize::MAX,
    ensures
        a.listing()[0].1 == a.listing()[2].1 + a.listing()[3].1 + a.listing()[4].1
            + a.listing()[5].1 + a.listing()[6].1,
{
}

} // verus!
