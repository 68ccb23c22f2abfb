//! What holds of every seek, and of two seeks in turn.
use crate::cursor::Cursor;
use crate::error::{Error, Result};
use crate::iterator::{bounds_part_entries, Iterator};
use crate::key::{key_lt, key_lt_total, Key};
use crate::laws::reading::{counts_moves, counts_read};
use crate::laws::{finds_first_from, finds_last_before, finds_last_upto};
use crate::laws::{stays_after, stays_before};
use crate::laws::{near_reverse_seek_agrees_with_reverse_seek, near_seek_agrees_with_seek};
use crate::laws::{near_seek_for_prev_agrees_with_seek_for_prev, near_seek_keeps_source};
use crate::laws::{reverse_seek_finds_last_before, seek_finds_first, seek_for_prev_finds_last};
use crate::laws::near_seek_get_gives_stored_value;
use crate::statistics::CFStatistics;
use vstd::prelude::*;

verus! {

/// Every seek that is answered, over any iterator, from wherever the cursor stands, says if
/// there is an entry that it looks for and leads to it; only a cursor that stays where it is
/// is left out.
pub proof fn every_answer_to_a_seek_is_right<I: Iterator>()
    ensures
        forall|
            cursor: &mut Cursor<I>,
            key: &Key,
            statistics: &mut CFStatistics,
            found: Result<bool>,
        | #[trigger]
            call_ensures(Cursor::<I>::seek, (cursor, key, statistics), found)
                && cursor@.wf()
                && found is Ok ==> finds_first_from(cursor@, key@, found, final(cursor)@),
        forall|
            cursor: &mut Cursor<I>,
            key: &Key,
            allow_reseek: bool,
            statistics: &mut CFStatistics,
            found: Result<bool>,
        | #[trigger]
            call_ensures(Cursor::<I>::near_seek, (cursor, key, allow_reseek, statistics), found)
                && cursor@.wf()
                && found is Ok
                && !(cursor@.mode is Backward)
                && !stays_after(cursor@, key@, allow_reseek)
                    ==> finds_first_from(cursor@, key@, found, final(cursor)@),
        forall|
            cursor: &mut Cursor<I>,
            key: &Key,
            statistics: &mut CFStatistics,
            found: Result<bool>,
        | #[trigger]
            call_ensures(Cursor::<I>::seek_for_prev, (cursor, key, statistics), found)
                && cursor@.wf()
                && found is Ok ==> finds_last_upto(cursor@, key@, found, final(cursor)@),
        forall|
            cursor: &mut Cursor<I>,
            key: &Key,
            allow_reseek: bool,
            statistics: &mut CFStatistics,
            found: Result<bool>,
        | #[trigger]
            call_ensures(
                Cursor::<I>::near_seek_for_prev,
                (cursor, key, allow_reseek, statistics),
                found,
            )
                && cursor@.wf()
                && found is Ok
                && !(cursor@.mode is Forward)
                && !stays_before(cursor@, key@, allow_reseek)
                    ==> finds_last_upto(cursor@, key@, found, final(cursor)@),
        forall|
            cursor: &mut Cursor<I>,
            key: &Key,
            statistics: &mut CFStatistics,
            found: Result<bool>,
        | #[trigger]
            call_ensures(Cursor::<I>::reverse_seek, (cursor, key, statistics), found)
                && cursor@.wf()
                && found is Ok ==> finds_last_before(cursor@, key@, found, final(cursor)@),
        forall|
            cursor: &mut Cursor<I>,
            key: &Key,
            allow_reseek: bool,
            statistics: &mut CFStatistics,
            found: Result<bool>,
        | #[trigger]
            call_ensures(
                Cursor::<I>::near_reverse_seek,
                (cursor, key, allow_reseek, statistics),
                found,
            )
                && cursor@.wf()
                && found is Ok
                && !(cursor@.mode is Forward)
                && !stays_before(cursor@, key@, allow_reseek)
                    ==> finds_last_before(cursor@, key@, found, final(cursor)@),
{
    assert forall|
        cursor: &mut Cursor<I>,
        key: &Key,
        statistics: &mut CFStatistics,
        found: Result<bool>,
    | #[trigger]
        call_ensures(Cursor::<I>::seek, (cursor, key, statistics), found)
            && cursor@.wf()
            && found is Ok implies finds_first_from(cursor@, key@, found, final(cursor)@) by {
        seek_finds_first(cursor@, key@);
    }
    assert forall|
        cursor: &mut Cursor<I>,
        key: &Key,
        allow_reseek: bool,
        statistics: &mut CFStatistics,
        found: Result<bool>,
    | #[trigger]
        call_ensures(Cursor::<I>::near_seek, (cursor, key, allow_reseek, statistics), found)
            && cursor@.wf()
            && found is Ok
            && !(cursor@.mode is Backward)
            && !stays_after(cursor@, key@, allow_reseek)
                implies finds_first_from(cursor@, key@, found, final(cursor)@) by {
        seek_finds_first(cursor@, key@);
        near_seek_agrees_with_seek(cursor@, key@, allow_reseek);
        near_seek_keeps_source(cursor@, key@, allow_reseek);
    }
    assert forall|
        cursor: &mut Cursor<I>,
        key: &Key,
        statistics: &mut CFStatistics,
        found: Result<bool>,
    | #[trigger]
        call_ensures(Cursor::<I>::seek_for_prev, (cursor, key, statistics), found)
            && cursor@.wf()
            && found is Ok implies finds_last_upto(cursor@, key@, found, final(cursor)@) by {
        seek_for_prev_finds_last(cursor@, key@);
    }
    assert forall|
        cursor: &mut Cursor<I>,
        key: &Key,
        allow_reseek: bool,
        statistics: &mut CFStatistics,
        found: Result<bool>,
    | #[trigger]
        call_ensures(
            Cursor::<I>::near_seek_for_prev,
            (cursor, key, allow_reseek, statistics),
            found,
        )
            && cursor@.wf()
            && found is Ok
            && !(cursor@.mode is Forward)
            && !stays_before(cursor@, key@, allow_reseek)
                implies finds_last_upto(cursor@, key@, found, final(cursor)@) by {
        seek_for_prev_finds_last(cursor@, key@);
        near_seek_for_prev_agrees_with_seek_for_prev(cursor@, key@, allow_reseek);
        near_seek_keeps_source(cursor@, key@, allow_reseek);
    }
    assert forall|
        cursor: &mut Cursor<I>,
        key: &Key,
        statistics: &mut CFStatistics,
        found: Result<bool>,
    | #[trigger]
        call_ensures(Cursor::<I>::reverse_seek, (cursor, key, statistics), found)
            && cursor@.wf()
            && found is Ok implies finds_last_before(cursor@, key@, found, final(cursor)@) by {
        reverse_seek_finds_last_before(cursor@, key@);
    }
    assert forall|
        cursor: &mut Cursor<I>,
        key: &Key,
        allow_reseek: bool,
        statistics: &mut CFStatistics,
        found: Result<bool>,
    | #[trigger]
        call_ensures(Cursor::<I>::near_reverse_seek, (cursor, key, allow_reseek, statistics), found)
            && cursor@.wf()
            && found is Ok
            && !(cursor@.mode is Forward)
            && !stays_before(cursor@, key@, allow_reseek)
                implies finds_last_before(cursor@, key@, found, final(cursor)@) by {
        reverse_seek_finds_last_before(cursor@, key@);
        near_reverse_seek_agrees_with_reverse_seek(cursor@, key@, allow_reseek);
        near_seek_keeps_source(cursor@, key@, allow_reseek);
    }
}

/// Every seek that finds nothing, unless it was known before that nothing is there, leaves the
/// cursor at no entry.
pub proof fn every_miss_leads_off_the_entries<I: Iterator>()
    ensures
        forall|
            cursor: &mut Cursor<I>,
            key: &Key,
            statistics: &mut CFStatistics,
            found: Result<bool>,
        | #[trigger]
            call_ensures(Cursor::<I>::seek, (cursor, key, statistics), found)
                && cursor@.wf()
                && !cursor@.knows_none_from(key@)
                && found == Ok::<bool, Error>(false) ==> final(cursor)@.at is None,
        forall|
            cursor: &mut Cursor<I>,
            key: &Key,
            statistics: &mut CFStatistics,
            found: Result<bool>,
        | #[trigger]
            call_ensures(Cursor::<I>::seek_for_prev, (cursor, key, statistics), found)
                && cursor@.wf()
                && !cursor@.knows_none_upto(key@)
                && found == Ok::<bool, Error>(false) ==> final(cursor)@.at is None,
        forall|
            cursor: &mut Cursor<I>,
            key: &Key,
            allow_reseek: bool,
            statistics: &mut CFStatistics,
            found: Result<bool>,
        | #[trigger]
            call_ensures(Cursor::<I>::near_seek, (cursor, key, allow_reseek, statistics), found)
                && cursor@.wf()
                && !cursor@.knows_none_from(key@)
                && found == Ok::<bool, Error>(false)
                && !(cursor@.mode is Backward) ==> final(cursor)@.at is None,
        forall|
            cursor: &mut Cursor<I>,
            key: &Key,
            allow_reseek: bool,
            statistics: &mut CFStatistics,
            found: Result<bool>,
        | #[trigger]
            call_ensures(
                Cursor::<I>::near_seek_for_prev,
                (cursor, key, allow_reseek, statistics),
                found,
            )
                && cursor@.wf()
                && !cursor@.knows_none_upto(key@)
                && found == Ok::<bool, Error>(false)
                && !(cursor@.mode is Forward) ==> final(cursor)@.at is None,
{
    assert forall|
        cursor: &mut Cursor<I>,
        key: &Key,
        allow_reseek: bool,
        statistics: &mut CFStatistics,
        found: Result<bool>,
    | #[trigger]
        call_ensures(Cursor::<I>::near_seek, (cursor, key, allow_reseek, statistics), found)
            && cursor@.wf()
            && !cursor@.knows_none_from(key@)
            && found == Ok::<bool, Error>(false)
            && !(cursor@.mode is Backward) implies final(cursor)@.at is None by {
        bounds_part_entries(cursor@.entries(), key@);
        if cursor@.at is Some {
            key_lt_total(cursor@.current_key(), key@);
        }
    }
    assert forall|
        cursor: &mut Cursor<I>,
        key: &Key,
        allow_reseek: bool,
        statistics: &mut CFStatistics,
        found: Result<bool>,
    | #[trigger]
        call_ensures(
            Cursor::<I>::near_seek_for_prev,
            (cursor, key, allow_reseek, statistics),
            found,
        )
            && cursor@.wf()
            && !cursor@.knows_none_upto(key@)
            && found == Ok::<bool, Error>(false)
            && !(cursor@.mode is Forward) implies final(cursor)@.at is None by {
        bounds_part_entries(cursor@.entries(), key@);
        if cursor@.at is Some {
            key_lt_total(cursor@.current_key(), key@);
        }
    }
}

/// Every lookup that is answered gives the value that is stored under the key, and nothing if
/// the key is not there; only a cursor that stays where it is is left out.
pub proof fn every_lookup_gives_the_stored_value<I: Iterator>()
    ensures
        forall|
            cursor: &mut Cursor<I>,
            key: &Key,
            allow_reseek: bool,
            statistics: &mut CFStatistics,
            value: Result<Option<&[u8]>>,
        | #[trigger]
            call_ensures(Cursor::<I>::near_seek_get, (cursor, key, allow_reseek, statistics), value)
                && cursor@.wf()
                && !stays_after(cursor@, key@, allow_reseek)
                && !stays_before(cursor@, key@, allow_reseek) ==> {
                &&& value matches Ok(Some(v)) ==> cursor@.source.entries.contains((key@, v@))
                &&& value matches Ok(None) ==> forall|i: int|
                    #![trigger cursor@.source.entries[i]]
                    0 <= i < cursor@.source.entries.len() ==> cursor@.source.entries[i].0 != key@
                &&& final(cursor)@.source == cursor@.source
            },
{
    assert forall|
        cursor: &mut Cursor<I>,
        key: &Key,
        allow_reseek: bool,
        statistics: &mut CFStatistics,
        value: Result<Option<&[u8]>>,
    | #[trigger]
        call_ensures(Cursor::<I>::near_seek_get, (cursor, key, allow_reseek, statistics), value)
            && cursor@.wf()
            && !stays_after(cursor@, key@, allow_reseek)
            && !stays_before(cursor@, key@, allow_reseek) implies {
                &&& value matches Ok(Some(v)) ==> cursor@.source.entries.contains((key@, v@))
                &&& value matches Ok(None) ==> forall|i: int|
                    #![trigger cursor@.source.entries[i]]
                    0 <= i < cursor@.source.entries.len() ==> cursor@.source.entries[i].0 != key@
                &&& final(cursor)@.source == cursor@.source
            } by {
        near_seek_get_gives_stored_value(cursor@, key@, allow_reseek);
        near_seek_keeps_source(cursor@, key@, allow_reseek);
        match value {
            Ok(Some(v)) => {
                assert(cursor@.near_seek_get(key@, allow_reseek).value == Some(v@));
            },
            _ => {},
        }
        assert forall|i: int|
            #![trigger cursor@.source.entries[i]]
            value matches Ok(None) && 0 <= i < cursor@.source.entries.len() implies
            cursor@.source.entries[i].0 != key@ by {
            let v = cursor@.source.entries[i].1;
            if cursor@.source.entries[i].0 == key@ {
                assert(cursor@.entries().contains((key@, v)));
                assert(cursor@.near_seek_get(key@, allow_reseek).value == Some(v));
            }
        }
    }
}

/// Every seek of a cursor that does not know that nothing is there is put to the iterator once,
/// is counted once, and comes to what the iterator answers, a refusal too.
pub proof fn every_seek_asks_the_iterator_once<I: Iterator>()
    ensures
        forall|
            cursor: &mut Cursor<I>,
            key: &Key,
            statistics: &mut CFStatistics,
            found: Result<bool>,
        | #[trigger]
            call_ensures(Cursor::<I>::seek, (cursor, key, statistics), found)
                && !cursor@.knows_none_from(key@) ==> {
                &&& exists|iter: &mut I| #[trigger]
                    call_ensures(I::seek, (iter, key), found) && *iter == cursor.iterator()
                        && *final(iter) == final(cursor).iterator()
                &&& counts_moves(*statistics, *final(statistics), 0, 0, 1, 0, 0)
                &&& counts_read(*statistics, *final(statistics), 0, 0)
            },
        forall|
            cursor: &mut Cursor<I>,
            key: &Key,
            statistics: &mut CFStatistics,
            found: Result<bool>,
        | #[trigger]
            call_ensures(Cursor::<I>::seek_for_prev, (cursor, key, statistics), found)
                && !cursor@.knows_none_upto(key@) ==> {
                &&& exists|iter: &mut I| #[trigger]
                    call_ensures(I::seek_for_prev, (iter, key), found) && *iter == cursor.iterator()
                        && *final(iter) == final(cursor).iterator()
                &&& counts_moves(*statistics, *final(statistics), 0, 0, 0, 1, 0)
                &&& counts_read(*statistics, *final(statistics), 0, 0)
            },
{
}

/// Every seek that is refused was refused by the iterator, with that error, and teaches the
/// cursor nothing.
#[verifier::rlimit(40)]
pub proof fn every_refusal_is_the_iterators<I: Iterator>()
    ensures
        forall|
            cursor: &mut Cursor<I>,
            key: &Key,
            statistics: &mut CFStatistics,
            found: Result<bool>,
        | #[trigger]
            call_ensures(Cursor::<I>::seek, (cursor, key, statistics), found)
                && cursor@.wf()
                && found is Err ==> {
                &&& final(cursor)@.min_key == cursor@.min_key
                &&& final(cursor)@.max_key == cursor@.max_key
                &&& (exists|iter: &mut I| #[trigger]
                    call_ensures(
                        I::seek,
                        (iter, key),
                        Err(found->Err_0),
                    )) || (exists|iter: I| #[trigger]
                    call_ensures(I::validate_key, (&iter, key), Err(found->Err_0)))
            },
        forall|
            cursor: &mut Cursor<I>,
            key: &Key,
            statistics: &mut CFStatistics,
            found: Result<bool>,
        | #[trigger]
            call_ensures(Cursor::<I>::seek_for_prev, (cursor, key, statistics), found)
                && cursor@.wf()
                && found is Err ==> {
                &&& final(cursor)@.min_key == cursor@.min_key
                &&& final(cursor)@.max_key == cursor@.max_key
                &&& (exists|iter: &mut I| #[trigger]
                    call_ensures(
                        I::seek_for_prev,
                        (iter, key),
                        Err(found->Err_0),
                    )) || (exists|iter: I| #[trigger]
                    call_ensures(I::validate_key, (&iter, key), Err(found->Err_0)))
            },
        forall|
            cursor: &mut Cursor<I>,
            key: &Key,
            statistics: &mut CFStatistics,
            found: Result<bool>,
        | #[trigger]
            call_ensures(Cursor::<I>::reverse_seek, (cursor, key, statistics), found)
                && cursor@.wf()
                && found is Err ==> {
                &&& final(cursor)@.min_key == cursor@.min_key
                &&& final(cursor)@.max_key == cursor@.max_key
                &&& (exists|iter: &mut I| #[trigger]
                    call_ensures(
                        I::seek_for_prev,
                        (iter, key),
                        Err(found->Err_0),
                    )) || (exists|iter: I| #[trigger]
                    call_ensures(I::validate_key, (&iter, key), Err(found->Err_0)))
            },
        forall|
            cursor: &mut Cursor<I>,
            key: &Key,
            allow_reseek: bool,
            statistics: &mut CFStatistics,
            found: Result<bool>,
        | #[trigger]
            call_ensures(Cursor::<I>::near_seek, (cursor, key, allow_reseek, statistics), found)
                && cursor@.wf()
                && found is Err
                && !(cursor@.mode is Backward) ==> {
                &&& final(cursor)@.min_key == cursor@.min_key
                &&& final(cursor)@.max_key == cursor@.max_key
                &&& (exists|iter: &mut I| #[trigger]
                    call_ensures(
                        I::seek,
                        (iter, key),
                        Err(found->Err_0),
                    )) || (exists|iter: I| #[trigger]
                    call_ensures(I::validate_key, (&iter, key), Err(found->Err_0)))
            },
        forall|
            cursor: &mut Cursor<I>,
            key: &Key,
            allow_reseek: bool,
            statistics: &mut CFStatistics,
            found: Result<bool>,
        | #[trigger]
            call_ensures(
                Cursor::<I>::near_seek_for_prev,
                (cursor, key, allow_reseek, statistics),
                found,
            )
                && cursor@.wf()
                && found is Err
                && !(cursor@.mode is Forward) ==> {
                &&& final(cursor)@.min_key == cursor@.min_key
                &&& final(cursor)@.max_key == cursor@.max_key
                &&& (exists|iter: &mut I| #[trigger]
                    call_ensures(
                        I::seek_for_prev,
                        (iter, key),
                        Err(found->Err_0),
                    )) || (exists|iter: I| #[trigger]
                    call_ensures(I::validate_key, (&iter, key), Err(found->Err_0)))
            },
        forall|
            cursor: &mut Cursor<I>,
            key: &Key,
            allow_reseek: bool,
            statistics: &mut CFStatistics,
            found: Result<bool>,
        | #[trigger]
            call_ensures(
                Cursor::<I>::near_reverse_seek,
                (cursor, key, allow_reseek, statistics),
                found,
            )
                && cursor@.wf()
                && found is Err
                && !(cursor@.mode is Forward) ==> {
                &&& final(cursor)@.min_key == cursor@.min_key
                &&& final(cursor)@.max_key == cursor@.max_key
                &&& (exists|iter: &mut I| #[trigger]
                    call_ensures(
                        I::seek_for_prev,
                        (iter, key),
                        Err(found->Err_0),
                    )) || (exists|iter: I| #[trigger]
                    call_ensures(I::validate_key, (&iter, key), Err(found->Err_0)))
            },
{
}

/// Every seek that is put to the iterator at once finds what it looks for, whatever the cursor
/// has learnt.
pub proof fn every_plain_seek_is_right<I: Iterator>()
    ensures
        forall|
            cursor: &mut Cursor<I>,
            key: &Key,
            statistics: &mut CFStatistics,
            found: Result<bool>,
        | #[trigger]
            call_ensures(Cursor::<I>::internal_seek, (cursor, key, statistics), found)
                && cursor@.wf()
                && found is Ok ==> {
                &&& finds_first_from(cursor@, key@, found, final(cursor)@)
                &&& found == Ok::<bool, Error>(false) ==> final(cursor)@.at is None
            },
        forall|
            cursor: &mut Cursor<I>,
            key: &Key,
            statistics: &mut CFStatistics,
            found: Result<bool>,
        | #[trigger]
            call_ensures(Cursor::<I>::internal_seek_for_prev, (cursor, key, statistics), found)
                && cursor@.wf()
                && found is Ok ==> {
                &&& finds_last_upto(cursor@, key@, found, final(cursor)@)
                &&& found == Ok::<bool, Error>(false) ==> final(cursor)@.at is None
            },
{
    assert forall|
        cursor: &mut Cursor<I>,
        key: &Key,
        statistics: &mut CFStatistics,
        found: Result<bool>,
    | #[trigger]
        call_ensures(Cursor::<I>::internal_seek, (cursor, key, statistics), found)
            && cursor@.wf()
            && found is Ok implies {
        &&& finds_first_from(cursor@, key@, found, final(cursor)@)
        &&& found == Ok::<bool, Error>(false) ==> final(cursor)@.at is None
    } by {
        let entries = cursor@.source.entries;
        bounds_part_entries(entries, key@);
        assert forall|
            i: int,
        | #![trigger entries[i]] 0 <= i < entries.len() implies (entries[i].0 == key@
            || key_lt(entries[i].0, key@) || key_lt(key@, entries[i].0)) && !(key_lt(
            entries[i].0,
            key@,
        ) && key_lt(key@, entries[i].0)) by {
            key_lt_total(entries[i].0, key@);
        }
        let n: int = if final(cursor)@.at is Some {
            final(cursor)@.at->0
        } else {
            0
        };
        assert(found == Ok::<bool, Error>(true) ==> 0 <= n < entries.len() && entries[n].0
            == entries[n].0);
    }
    assert forall|
        cursor: &mut Cursor<I>,
        key: &Key,
        statistics: &mut CFStatistics,
        found: Result<bool>,
    | #[trigger]
        call_ensures(Cursor::<I>::internal_seek_for_prev, (cursor, key, statistics), found)
            && cursor@.wf()
            && found is Ok implies {
        &&& finds_last_upto(cursor@, key@, found, final(cursor)@)
        &&& found == Ok::<bool, Error>(false) ==> final(cursor)@.at is None
    } by {
        let entries = cursor@.source.entries;
        bounds_part_entries(entries, key@);
        assert forall|
            i: int,
        | #![trigger entries[i]] 0 <= i < entries.len() implies (entries[i].0 == key@
            || key_lt(entries[i].0, key@) || key_lt(key@, entries[i].0)) && !(key_lt(
            entries[i].0,
            key@,
        ) && key_lt(key@, entries[i].0)) by {
            key_lt_total(entries[i].0, key@);
        }
        let n: int = if final(cursor)@.at is Some {
            final(cursor)@.at->0
        } else {
            0
        };
        assert(found == Ok::<bool, Error>(true) ==> 0 <= n < entries.len() && entries[n].0
            == entries[n].0);
    }
}

/// Every lookup that is refused was refused by the iterator, with that error, and teaches the
/// cursor nothing.
#[verifier::rlimit(40)]
pub proof fn every_refused_lookup_is_the_iterators<I: Iterator>()
    ensures
        forall|
            cursor: &mut Cursor<I>,
            key: &Key,
            allow_reseek: bool,
            statistics: &mut CFStatistics,
            value: Result<Option<&[u8]>>,
        | #[trigger]
            call_ensures(Cursor::<I>::near_seek_get, (cursor, key, allow_reseek, statistics), value)
                && cursor@.wf()
                && value is Err ==> {
                &&& final(cursor)@.min_key == cursor@.min_key
                &&& final(cursor)@.max_key == cursor@.max_key
                &&& (exists|iter: &mut I| #[trigger]
                    call_ensures(I::seek, (iter, key), Err(value->Err_0)))
                    || (exists|iter: &mut I| #[trigger]
                    call_ensures(I::seek_for_prev, (iter, key), Err(value->Err_0)))
                    || (exists|iter: I| #[trigger]
                    call_ensures(I::validate_key, (&iter, key), Err(value->Err_0)))
            },
{
    every_refusal_is_the_iterators::<I>();
}

} // verus!
