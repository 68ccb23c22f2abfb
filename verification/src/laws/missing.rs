//! What holds of what a cursor learns when it finds nothing.
use crate::cursor::Cursor;
use crate::error::{Error, Result};
use crate::iterator::{bounds_part_entries, Iterator, Request};
use crate::key::{key_le, key_lt_total, key_lt_transitive, Key};
use crate::laws::reading::counts_moves;
use crate::laws::{stays_after, stays_before};
use crate::laws::near_seek_agrees_with_seek;
use crate::laws::near_seek_for_prev_agrees_with_seek_for_prev;
use crate::laws::{seek_finds_first, seek_for_prev_finds_last};
use crate::laws::{learning_keeps_knowledge, near_seek_for_prev_learns_at_most};
use crate::laws::near_seek_learns_at_most;
use crate::laws::{failed_near_seek_for_prev_is_remembered, failed_near_seek_is_remembered};
use crate::scan::CursorView;
use crate::statistics::CFStatistics;
use vstd::prelude::*;

verus! {

/// What a forward seek that found nothing has taught.
#[verifier::rlimit(40)]
proof fn missed_from(c: CursorView, t: Seq<u8>, allow_reseek: bool, later: Seq<u8>, reseek: bool)
    requires
        c.wf(),
        key_le(t, later),
    ensures
        !c.seek(t).found ==> {
            let missed = c.seek(t).cursor;
            &&& missed.wf()
            &&& missed.knows_none_from(later)
            &&& near_miss_costs_nothing(missed, later, reseek)
        },
        !(c.mode is Backward) && !c.near_seek(t, allow_reseek).found ==> {
            let missed = c.near_seek(t, allow_reseek).cursor;
            &&& missed.wf()
            &&& missed.knows_none_from(later)
            &&& near_miss_costs_nothing(missed, later, reseek)
        },
{
    bounds_part_entries(c.entries(), t);
    if c.at is Some {
        key_lt_total(c.current_key(), t);
    }
    seek_finds_first(c, t);
    if !c.seek(t).found {
        let missed = c.seek(t).cursor;
        if t != later && missed.max_key->0 != t {
            key_lt_transitive(missed.max_key->0, t, later);
        }
        costs_nothing(missed, later, reseek);
    }
    if !(c.mode is Backward) && !c.near_seek(t, allow_reseek).found {
        failed_near_seek_is_remembered(c, t, allow_reseek, later, reseek);
        let missed = c.near_seek(t, allow_reseek).cursor;
        if !stays_after(c, t, allow_reseek) {
            near_seek_agrees_with_seek(c, t, allow_reseek);
        }
        costs_nothing(missed, later, reseek);
    }
}

/// What a backward seek that found nothing has taught.
#[verifier::rlimit(40)]
proof fn missed_upto(c: CursorView, t: Seq<u8>, allow_reseek: bool, earlier: Seq<u8>, reseek: bool)
    requires
        c.wf(),
        key_le(earlier, t),
    ensures
        !c.seek_for_prev(t).found ==> {
            let missed = c.seek_for_prev(t).cursor;
            &&& missed.wf()
            &&& missed.knows_none_upto(earlier)
            &&& near_miss_costs_nothing(missed, earlier, reseek)
        },
        !(c.mode is Forward) && !c.near_seek_for_prev(t, allow_reseek).found ==> {
            let missed = c.near_seek_for_prev(t, allow_reseek).cursor;
            &&& missed.wf()
            &&& missed.knows_none_upto(earlier)
            &&& near_miss_costs_nothing(missed, earlier, reseek)
        },
{
    bounds_part_entries(c.entries(), t);
    if c.at is Some {
        key_lt_total(c.current_key(), t);
    }
    seek_for_prev_finds_last(c, t);
    if !c.seek_for_prev(t).found {
        let missed = c.seek_for_prev(t).cursor;
        if t != earlier && missed.min_key->0 != t {
            key_lt_transitive(earlier, t, missed.min_key->0);
        }
        costs_nothing(missed, earlier, reseek);
    }
    if !(c.mode is Forward) && !c.near_seek_for_prev(t, allow_reseek).found {
        failed_near_seek_for_prev_is_remembered(c, t, allow_reseek, earlier, reseek);
        let missed = c.near_seek_for_prev(t, allow_reseek).cursor;
        if !stays_before(c, t, allow_reseek) {
            near_seek_for_prev_agrees_with_seek_for_prev(c, t, allow_reseek);
        }
        costs_nothing(missed, earlier, reseek);
    }
}

/// Whether a near seek of a key that is known not to be there makes no move.
spec fn near_miss_costs_nothing(c: CursorView, t: Seq<u8>, allow_reseek: bool) -> bool {
    let on = c.near_seek(t, allow_reseek);
    let back = c.near_seek_for_prev(t, allow_reseek);
    &&& c.knows_none_from(t) ==> {
        &&& on.charge.next == 0 && on.charge.prev == 0 && on.charge.seek == 0
        &&& on.charge.seek_for_prev == 0 && on.charge.over_seek_bound == 0
        &&& on.cursor.at == c.at
        &&& on.request == Some(Request::Validate)
    }
    &&& c.knows_none_upto(t) ==> {
        &&& back.charge.next == 0 && back.charge.prev == 0 && back.charge.seek == 0
        &&& back.charge.seek_for_prev == 0 && back.charge.over_seek_bound == 0
        &&& back.cursor.at == c.at
        &&& back.request == Some(Request::Validate)
    }
}

proof fn costs_nothing(c: CursorView, t: Seq<u8>, allow_reseek: bool)
    requires
        c.wf(),
    ensures
        near_miss_costs_nothing(c, t, allow_reseek),
{
    if c.at is Some {
        let k = c.entries()[c.at->0].0;
        key_lt_total(k, t);
        if c.knows_none_from(t) && c.max_key->0 != t {
            key_lt_transitive(k, c.max_key->0, t);
        }
        if c.knows_none_upto(t) && c.min_key->0 != t {
            key_lt_transitive(t, c.min_key->0, k);
        }
    }
}

/// What is known of a key is known of every later one, and, backward, of every earlier one.
proof fn knowing_from(c: CursorView, t: Seq<u8>, later: Seq<u8>)
    ensures
        c.knows_none_from(t) && key_le(t, later) ==> c.knows_none_from(later),
{
    if c.knows_none_from(t) && key_le(t, later) && t != later && c.max_key->0 != t {
        key_lt_transitive(c.max_key->0, t, later);
    }
}

proof fn knowing_upto(c: CursorView, t: Seq<u8>, earlier: Seq<u8>)
    ensures
        c.knows_none_upto(t) && key_le(earlier, t) ==> c.knows_none_upto(earlier),
{
    if c.knows_none_upto(t) && key_le(earlier, t) && t != earlier && c.min_key->0 != t {
        key_lt_transitive(earlier, t, c.min_key->0);
    }
}

/// Every seek or near seek of a key that is known not to be there, nor any further on, makes no
/// move and is not put to the iterator: the iterator is asked only whether the key may be asked
/// about, and its refusal is the answer if it refuses.
#[verifier::rlimit(40)]
pub proof fn every_known_miss_is_turned_down<I: Iterator>()
    ensures
        forall|
            cursor: &mut Cursor<I>,
            key: &Key,
            statistics: &mut CFStatistics,
            found: Result<bool>,
        | #[trigger]
            call_ensures(Cursor::<I>::seek, (cursor, key, statistics), found)
                && cursor@.wf()
                && cursor@.knows_none_from(key@) ==> {
                &&& counts_moves(*statistics, *final(statistics), 0, 0, 0, 0, 0)
                &&& final(cursor).iterator() == cursor.iterator()
                &&& final(cursor)@.at == cursor@.at
                &&& exists|valid: Result<()>| #[trigger]
                    call_ensures(I::validate_key, (&cursor.iterator(), key), valid)
                        && (match valid {
                        Ok(()) => found == Ok::<bool, Error>(false),
                        Err(e) => found == Err::<bool, Error>(e),
                    })
            },
        forall|
            cursor: &mut Cursor<I>,
            key: &Key,
            allow_reseek: bool,
            statistics: &mut CFStatistics,
            found: Result<bool>,
        | #[trigger]
            call_ensures(Cursor::<I>::near_seek, (cursor, key, allow_reseek, statistics), found)
                && cursor@.wf()
                && cursor@.knows_none_from(key@) ==> {
                &&& counts_moves(*statistics, *final(statistics), 0, 0, 0, 0, 0)
                &&& final(cursor).iterator() == cursor.iterator()
                &&& final(cursor)@.at == cursor@.at
                &&& exists|valid: Result<()>| #[trigger]
                    call_ensures(I::validate_key, (&cursor.iterator(), key), valid)
                        && (match valid {
                        Ok(()) => found == Ok::<bool, Error>(false),
                        Err(e) => found == Err::<bool, Error>(e),
                    })
            },
        forall|
            cursor: &mut Cursor<I>,
            key: &Key,
            statistics: &mut CFStatistics,
            found: Result<bool>,
        | #[trigger]
            call_ensures(Cursor::<I>::seek_for_prev, (cursor, key, statistics), found)
                && cursor@.wf()
                && cursor@.knows_none_upto(key@) ==> {
                &&& counts_moves(*statistics, *final(statistics), 0, 0, 0, 0, 0)
                &&& final(cursor).iterator() == cursor.iterator()
                &&& final(cursor)@.at == cursor@.at
                &&& exists|valid: Result<()>| #[trigger]
                    call_ensures(I::validate_key, (&cursor.iterator(), key), valid)
                        && (match valid {
                        Ok(()) => found == Ok::<bool, Error>(false),
                        Err(e) => found == Err::<bool, Error>(e),
                    })
            },
        forall|
            cursor: &mut Cursor<I>,
            key: &Key,
            allow_reseek: bool,
            statistics: &mut CFStatistics,
            found: Result<bool>,
        | #[trigger]
            call_ensures(
                Cursor::<I>::near_seek_for_prev,
                (cursor, key, allow_reseek, statistics),
                found,
            )
                && cursor@.wf()
                && cursor@.knows_none_upto(key@) ==> {
                &&& counts_moves(*statistics, *final(statistics), 0, 0, 0, 0, 0)
                &&& final(cursor).iterator() == cursor.iterator()
                &&& final(cursor)@.at == cursor@.at
                &&& exists|valid: Result<()>| #[trigger]
                    call_ensures(I::validate_key, (&cursor.iterator(), key), valid)
                        && (match valid {
                        Ok(()) => found == Ok::<bool, Error>(false),
                        Err(e) => found == Err::<bool, Error>(e),
                    })
            },
{
    assert forall|
        cursor: &mut Cursor<I>,
        key: &Key,
        statistics: &mut CFStatistics,
        found: Result<bool>,
    | #[trigger]
        call_ensures(Cursor::<I>::seek, (cursor, key, statistics), found)
            && cursor@.wf()
            && cursor@.knows_none_from(key@) implies {
                &&& counts_moves(*statistics, *final(statistics), 0, 0, 0, 0, 0)
                &&& final(cursor).iterator() == cursor.iterator()
                &&& final(cursor)@.at == cursor@.at
                &&& exists|valid: Result<()>| #[trigger]
                    call_ensures(I::validate_key, (&cursor.iterator(), key), valid)
                        && (match valid {
                        Ok(()) => found == Ok::<bool, Error>(false),
                        Err(e) => found == Err::<bool, Error>(e),
                    })
            } by {
        costs_nothing(cursor@, key@, false);
    }
    assert forall|
        cursor: &mut Cursor<I>,
        key: &Key,
        allow_reseek: bool,
        statistics: &mut CFStatistics,
        found: Result<bool>,
    | #[trigger]
        call_ensures(Cursor::<I>::near_seek, (cursor, key, allow_reseek, statistics), found)
            && cursor@.wf()
            && cursor@.knows_none_from(key@) implies {
                &&& counts_moves(*statistics, *final(statistics), 0, 0, 0, 0, 0)
                &&& final(cursor).iterator() == cursor.iterator()
                &&& final(cursor)@.at == cursor@.at
                &&& exists|valid: Result<()>| #[trigger]
                    call_ensures(I::validate_key, (&cursor.iterator(), key), valid)
                        && (match valid {
                        Ok(()) => found == Ok::<bool, Error>(false),
                        Err(e) => found == Err::<bool, Error>(e),
                    })
            } by {
        costs_nothing(cursor@, key@, allow_reseek);
    }
    assert forall|
        cursor: &mut Cursor<I>,
        key: &Key,
        statistics: &mut CFStatistics,
        found: Result<bool>,
    | #[trigger]
        call_ensures(Cursor::<I>::seek_for_prev, (cursor, key, statistics), found)
            && cursor@.wf()
            && cursor@.knows_none_upto(key@) implies {
                &&& counts_moves(*statistics, *final(statistics), 0, 0, 0, 0, 0)
                &&& final(cursor).iterator() == cursor.iterator()
                &&& final(cursor)@.at == cursor@.at
                &&& exists|valid: Result<()>| #[trigger]
                    call_ensures(I::validate_key, (&cursor.iterator(), key), valid)
                        && (match valid {
                        Ok(()) => found == Ok::<bool, Error>(false),
                        Err(e) => found == Err::<bool, Error>(e),
                    })
            } by {
        costs_nothing(cursor@, key@, false);
    }
    assert forall|
        cursor: &mut Cursor<I>,
        key: &Key,
        allow_reseek: bool,
        statistics: &mut CFStatistics,
        found: Result<bool>,
    | #[trigger]
        call_ensures(
            Cursor::<I>::near_seek_for_prev,
            (cursor, key, allow_reseek, statistics),
            found,
        )
            && cursor@.wf()
            && cursor@.knows_none_upto(key@) implies {
                &&& counts_moves(*statistics, *final(statistics), 0, 0, 0, 0, 0)
                &&& final(cursor).iterator() == cursor.iterator()
                &&& final(cursor)@.at == cursor@.at
                &&& exists|valid: Result<()>| #[trigger]
                    call_ensures(I::validate_key, (&cursor.iterator(), key), valid)
                        && (match valid {
                        Ok(()) => found == Ok::<bool, Error>(false),
                        Err(e) => found == Err::<bool, Error>(e),
                    })
            } by {
        costs_nothing(cursor@, key@, allow_reseek);
    }
}

/// Every seek or near seek that finds nothing leaves the cursor knowing that.
#[verifier::rlimit(40)]
pub proof fn every_miss_is_learnt<I: Iterator>()
    ensures
        forall|
            cursor: &mut Cursor<I>,
            key: &Key,
            statistics: &mut CFStatistics,
            found: Result<bool>,
        | #[trigger]
            call_ensures(Cursor::<I>::seek, (cursor, key, statistics), found)
                && cursor@.wf()
                && found == Ok::<bool, Error>(false)
                    ==> final(cursor)@.wf() && final(cursor)@.knows_none_from(key@),
        forall|
            cursor: &mut Cursor<I>,
            key: &Key,
            allow_reseek: bool,
            statistics: &mut CFStatistics,
            found: Result<bool>,
        | #[trigger]
            call_ensures(Cursor::<I>::near_seek, (cursor, key, allow_reseek, statistics), found)
                && cursor@.wf()
                && found == Ok::<bool, Error>(false)
                && !(cursor@.mode is Backward)
                    ==> final(cursor)@.wf() && final(cursor)@.knows_none_from(key@),
        forall|
            cursor: &mut Cursor<I>,
            key: &Key,
            statistics: &mut CFStatistics,
            found: Result<bool>,
        | #[trigger]
            call_ensures(Cursor::<I>::seek_for_prev, (cursor, key, statistics), found)
                && cursor@.wf()
                && found == Ok::<bool, Error>(false)
                    ==> final(cursor)@.wf() && final(cursor)@.knows_none_upto(key@),
        forall|
            cursor: &mut Cursor<I>,
            key: &Key,
            allow_reseek: bool,
            statistics: &mut CFStatistics,
            found: Result<bool>,
        | #[trigger]
            call_ensures(
                Cursor::<I>::near_seek_for_prev,
                (cursor, key, allow_reseek, statistics),
                found,
            )
                && cursor@.wf()
                && found == Ok::<bool, Error>(false)
                && !(cursor@.mode is Forward)
                    ==> final(cursor)@.wf() && final(cursor)@.knows_none_upto(key@),
{
    assert forall|
        cursor: &mut Cursor<I>,
        key: &Key,
        statistics: &mut CFStatistics,
        found: Result<bool>,
    | #[trigger]
        call_ensures(Cursor::<I>::seek, (cursor, key, statistics), found)
            && cursor@.wf()
            && found == Ok::<bool, Error>(false)
                implies final(cursor)@.wf() && final(cursor)@.knows_none_from(key@) by {
        missed_from(cursor@, key@, false, key@, false);
    }
    assert forall|
        cursor: &mut Cursor<I>,
        key: &Key,
        allow_reseek: bool,
        statistics: &mut CFStatistics,
        found: Result<bool>,
    | #[trigger]
        call_ensures(Cursor::<I>::near_seek, (cursor, key, allow_reseek, statistics), found)
            && cursor@.wf()
            && found == Ok::<bool, Error>(false)
            && !(cursor@.mode is Backward)
                implies final(cursor)@.wf() && final(cursor)@.knows_none_from(key@) by {
        missed_from(cursor@, key@, allow_reseek, key@, false);
    }
    assert forall|
        cursor: &mut Cursor<I>,
        key: &Key,
        statistics: &mut CFStatistics,
        found: Result<bool>,
    | #[trigger]
        call_ensures(Cursor::<I>::seek_for_prev, (cursor, key, statistics), found)
            && cursor@.wf()
            && found == Ok::<bool, Error>(false)
                implies final(cursor)@.wf() && final(cursor)@.knows_none_upto(key@) by {
        missed_upto(cursor@, key@, false, key@, false);
    }
    assert forall|
        cursor: &mut Cursor<I>,
        key: &Key,
        allow_reseek: bool,
        statistics: &mut CFStatistics,
        found: Result<bool>,
    | #[trigger]
        call_ensures(
            Cursor::<I>::near_seek_for_prev,
            (cursor, key, allow_reseek, statistics),
            found,
        )
            && cursor@.wf()
            && found == Ok::<bool, Error>(false)
            && !(cursor@.mode is Forward)
                implies final(cursor)@.wf() && final(cursor)@.knows_none_upto(key@) by {
        missed_upto(cursor@, key@, allow_reseek, key@, false);
    }
}

/// After every seek that found nothing, a seek or near seek for that key or a later one makes
/// no move and is not put to the iterator: the iterator is asked only whether the key may be
/// asked about, and its refusal is the answer if it refuses.
#[verifier::rlimit(40)]
pub proof fn every_miss_is_remembered<I: Iterator>()
    ensures
        forall|
            cursor: &mut Cursor<I>,
            key: &Key,
            statistics: &mut CFStatistics,
            found: Result<bool>,
            then: &mut Cursor<I>,
            other: &Key,
            counting: &mut CFStatistics,
            again: Result<bool>,
        |
            #![trigger
                call_ensures(Cursor::<I>::seek, (cursor, key, statistics), found),
                call_ensures(Cursor::<I>::seek, (then, other, counting), again),
            ]
            call_ensures(Cursor::<I>::seek, (cursor, key, statistics), found)
                && call_ensures(Cursor::<I>::seek, (then, other, counting), again)
                && *then == *final(cursor)
                && cursor@.wf()
                && found == Ok::<bool, Error>(false)
                && key_le(key@, other@) ==> {
                &&& counts_moves(*counting, *final(counting), 0, 0, 0, 0, 0)
                &&& final(then).iterator() == then.iterator()
                &&& final(then)@.at == then@.at
                &&& exists|valid: Result<()>| #[trigger]
                    call_ensures(I::validate_key, (&then.iterator(), other), valid)
                        && (match valid {
                        Ok(()) => again == Ok::<bool, Error>(false),
                        Err(e) => again == Err::<bool, Error>(e),
                    })
            },
        forall|
            cursor: &mut Cursor<I>,
            key: &Key,
            statistics: &mut CFStatistics,
            found: Result<bool>,
            then: &mut Cursor<I>,
            other: &Key,
            reseek: bool,
            counting: &mut CFStatistics,
            again: Result<bool>,
        |
            #![trigger
                call_ensures(Cursor::<I>::seek, (cursor, key, statistics), found),
                call_ensures(Cursor::<I>::near_seek, (then, other, reseek, counting), again),
            ]
            call_ensures(Cursor::<I>::seek, (cursor, key, statistics), found)
                && call_ensures(Cursor::<I>::near_seek, (then, other, reseek, counting), again)
                && *then == *final(cursor)
                && cursor@.wf()
                && found == Ok::<bool, Error>(false)
                && key_le(key@, other@)
                && !(cursor@.mode is Backward) ==> {
                &&& counts_moves(*counting, *final(counting), 0, 0, 0, 0, 0)
                &&& final(then).iterator() == then.iterator()
                &&& final(then)@.at == then@.at
                &&& exists|valid: Result<()>| #[trigger]
                    call_ensures(I::validate_key, (&then.iterator(), other), valid)
                        && (match valid {
                        Ok(()) => again == Ok::<bool, Error>(false),
                        Err(e) => again == Err::<bool, Error>(e),
                    })
            },
{
    every_known_miss_is_turned_down::<I>();
    every_miss_is_learnt::<I>();
    assert forall|
        cursor: &mut Cursor<I>,
        key: &Key,
        statistics: &mut CFStatistics,
        found: Result<bool>,
        then: &mut Cursor<I>,
        other: &Key,
        counting: &mut CFStatistics,
        again: Result<bool>,
    |
        #![trigger
            call_ensures(Cursor::<I>::seek, (cursor, key, statistics), found),
            call_ensures(Cursor::<I>::seek, (then, other, counting), again),
        ]
        call_ensures(Cursor::<I>::seek, (cursor, key, statistics), found)
            && call_ensures(Cursor::<I>::seek, (then, other, counting), again)
            && *then == *final(cursor)
            && cursor@.wf()
            && found == Ok::<bool, Error>(false)
            && key_le(key@, other@) implies {
                &&& counts_moves(*counting, *final(counting), 0, 0, 0, 0, 0)
                &&& final(then).iterator() == then.iterator()
                &&& final(then)@.at == then@.at
                &&& exists|valid: Result<()>| #[trigger]
                    call_ensures(I::validate_key, (&then.iterator(), other), valid)
                        && (match valid {
                        Ok(()) => again == Ok::<bool, Error>(false),
                        Err(e) => again == Err::<bool, Error>(e),
                    })
            } by {
        knowing_from(then@, key@, other@);
    }
    assert forall|
        cursor: &mut Cursor<I>,
        key: &Key,
        statistics: &mut CFStatistics,
        found: Result<bool>,
        then: &mut Cursor<I>,
        other: &Key,
        reseek: bool,
        counting: &mut CFStatistics,
        again: Result<bool>,
    |
        #![trigger
            call_ensures(Cursor::<I>::seek, (cursor, key, statistics), found),
            call_ensures(Cursor::<I>::near_seek, (then, other, reseek, counting), again),
        ]
        call_ensures(Cursor::<I>::seek, (cursor, key, statistics), found)
            && call_ensures(Cursor::<I>::near_seek, (then, other, reseek, counting), again)
            && *then == *final(cursor)
            && cursor@.wf()
            && found == Ok::<bool, Error>(false)
            && key_le(key@, other@)
            && !(cursor@.mode is Backward) implies {
                &&& counts_moves(*counting, *final(counting), 0, 0, 0, 0, 0)
                &&& final(then).iterator() == then.iterator()
                &&& final(then)@.at == then@.at
                &&& exists|valid: Result<()>| #[trigger]
                    call_ensures(I::validate_key, (&then.iterator(), other), valid)
                        && (match valid {
                        Ok(()) => again == Ok::<bool, Error>(false),
                        Err(e) => again == Err::<bool, Error>(e),
                    })
            } by {
        knowing_from(then@, key@, other@);
    }
}

/// After every near seek that found nothing, a seek or near seek for that key or a later one
/// makes no move and is not put to the iterator.
#[verifier::rlimit(40)]
pub proof fn every_near_miss_is_remembered<I: Iterator>()
    ensures
        forall|
            cursor: &mut Cursor<I>,
            key: &Key,
            allow_reseek: bool,
            statistics: &mut CFStatistics,
            found: Result<bool>,
            then: &mut Cursor<I>,
            other: &Key,
            counting: &mut CFStatistics,
            again: Result<bool>,
        |
            #![trigger
                call_ensures(
                    Cursor::<I>::near_seek,
                    (cursor, key, allow_reseek, statistics),
                    found,
                ),
                call_ensures(Cursor::<I>::seek, (then, other, counting), again),
            ]
            call_ensures(Cursor::<I>::near_seek, (cursor, key, allow_reseek, statistics), found)
                && call_ensures(Cursor::<I>::seek, (then, other, counting), again)
                && *then == *final(cursor)
                && cursor@.wf()
                && found == Ok::<bool, Error>(false)
                && key_le(key@, other@)
                && !(cursor@.mode is Backward) ==> {
                &&& counts_moves(*counting, *final(counting), 0, 0, 0, 0, 0)
                &&& final(then).iterator() == then.iterator()
                &&& final(then)@.at == then@.at
                &&& exists|valid: Result<()>| #[trigger]
                    call_ensures(I::validate_key, (&then.iterator(), other), valid)
                        && (match valid {
                        Ok(()) => again == Ok::<bool, Error>(false),
                        Err(e) => again == Err::<bool, Error>(e),
                    })
            },
        forall|
            cursor: &mut Cursor<I>,
            key: &Key,
            allow_reseek: bool,
            statistics: &mut CFStatistics,
            found: Result<bool>,
            then: &mut Cursor<I>,
            other: &Key,
            reseek: bool,
            counting: &mut CFStatistics,
            again: Result<bool>,
        |
            #![trigger
                call_ensures(
                    Cursor::<I>::near_seek,
                    (cursor, key, allow_reseek, statistics),
                    found,
                ),
                call_ensures(Cursor::<I>::near_seek, (then, other, reseek, counting), again),
            ]
            call_ensures(Cursor::<I>::near_seek, (cursor, key, allow_reseek, statistics), found)
                && call_ensures(Cursor::<I>::near_seek, (then, other, reseek, counting), again)
                && *then == *final(cursor)
                && cursor@.wf()
                && found == Ok::<bool, Error>(false)
                && key_le(key@, other@)
                && !(cursor@.mode is Backward) ==> {
                &&& counts_moves(*counting, *final(counting), 0, 0, 0, 0, 0)
                &&& final(then).iterator() == then.iterator()
                &&& final(then)@.at == then@.at
                &&& exists|valid: Result<()>| #[trigger]
                    call_ensures(I::validate_key, (&then.iterator(), other), valid)
                        && (match valid {
                        Ok(()) => again == Ok::<bool, Error>(false),
                        Err(e) => again == Err::<bool, Error>(e),
                    })
            },
{
    every_known_miss_is_turned_down::<I>();
    every_miss_is_learnt::<I>();
    assert forall|
        cursor: &mut Cursor<I>,
        key: &Key,
        allow_reseek: bool,
        statistics: &mut CFStatistics,
        found: Result<bool>,
        then: &mut Cursor<I>,
        other: &Key,
        counting: &mut CFStatistics,
        again: Result<bool>,
    |
        #![trigger
            call_ensures(Cursor::<I>::near_seek, (cursor, key, allow_reseek, statistics), found),
            call_ensures(Cursor::<I>::seek, (then, other, counting), again),
        ]
        call_ensures(Cursor::<I>::near_seek, (cursor, key, allow_reseek, statistics), found)
            && call_ensures(Cursor::<I>::seek, (then, other, counting), again)
            && *then == *final(cursor)
            && cursor@.wf()
            && found == Ok::<bool, Error>(false)
            && key_le(key@, other@)
            && !(cursor@.mode is Backward) implies {
                &&& counts_moves(*counting, *final(counting), 0, 0, 0, 0, 0)
                &&& final(then).iterator() == then.iterator()
                &&& final(then)@.at == then@.at
                &&& exists|valid: Result<()>| #[trigger]
                    call_ensures(I::validate_key, (&then.iterator(), other), valid)
                        && (match valid {
                        Ok(()) => again == Ok::<bool, Error>(false),
                        Err(e) => again == Err::<bool, Error>(e),
                    })
            } by {
        knowing_from(then@, key@, other@);
    }
    assert forall|
        cursor: &mut Cursor<I>,
        key: &Key,
        allow_reseek: bool,
        statistics: &mut CFStatistics,
        found: Result<bool>,
        then: &mut Cursor<I>,
        other: &Key,
        reseek: bool,
        counting: &mut CFStatistics,
        again: Result<bool>,
    |
        #![trigger
            call_ensures(Cursor::<I>::near_seek, (cursor, key, allow_reseek, statistics), found),
            call_ensures(Cursor::<I>::near_seek, (then, other, reseek, counting), again),
        ]
        call_ensures(Cursor::<I>::near_seek, (cursor, key, allow_reseek, statistics), found)
            && call_ensures(Cursor::<I>::near_seek, (then, other, reseek, counting), again)
            && *then == *final(cursor)
            && cursor@.wf()
            && found == Ok::<bool, Error>(false)
            && key_le(key@, other@)
            && !(cursor@.mode is Backward) implies {
                &&& counts_moves(*counting, *final(counting), 0, 0, 0, 0, 0)
                &&& final(then).iterator() == then.iterator()
                &&& final(then)@.at == then@.at
                &&& exists|valid: Result<()>| #[trigger]
                    call_ensures(I::validate_key, (&then.iterator(), other), valid)
                        && (match valid {
                        Ok(()) => again == Ok::<bool, Error>(false),
                        Err(e) => again == Err::<bool, Error>(e),
                    })
            } by {
        knowing_from(then@, key@, other@);
    }
}

/// After every backward seek that found nothing, a backward seek or near seek for that key or
/// an earlier one makes no move and is not put to the iterator.
#[verifier::rlimit(40)]
pub proof fn every_backward_miss_is_remembered<I: Iterator>()
    ensures
        forall|
            cursor: &mut Cursor<I>,
            key: &Key,
            statistics: &mut CFStatistics,
            found: Result<bool>,
            then: &mut Cursor<I>,
            other: &Key,
            counting: &mut CFStatistics,
            again: Result<bool>,
        |
            #![trigger
                call_ensures(Cursor::<I>::seek_for_prev, (cursor, key, statistics), found),
                call_ensures(Cursor::<I>::seek_for_prev, (then, other, counting), again),
            ]
            call_ensures(Cursor::<I>::seek_for_prev, (cursor, key, statistics), found)
                && call_ensures(Cursor::<I>::seek_for_prev, (then, other, counting), again)
                && *then == *final(cursor)
                && cursor@.wf()
                && found == Ok::<bool, Error>(false)
                && key_le(other@, key@) ==> {
                &&& counts_moves(*counting, *final(counting), 0, 0, 0, 0, 0)
                &&& final(then).iterator() == then.iterator()
                &&& final(then)@.at == then@.at
                &&& exists|valid: Result<()>| #[trigger]
                    call_ensures(I::validate_key, (&then.iterator(), other), valid)
                        && (match valid {
                        Ok(()) => again == Ok::<bool, Error>(false),
                        Err(e) => again == Err::<bool, Error>(e),
                    })
            },
        forall|
            cursor: &mut Cursor<I>,
            key: &Key,
            statistics: &mut CFStatistics,
            found: Result<bool>,
            then: &mut Cursor<I>,
            other: &Key,
            reseek: bool,
            counting: &mut CFStatistics,
            again: Result<bool>,
        |
            #![trigger
                call_ensures(Cursor::<I>::seek_for_prev, (cursor, key, statistics), found),
                call_ensures(
                    Cursor::<I>::near_seek_for_prev,
                    (then, other, reseek, counting),
                    again,
                ),
            ]
            call_ensures(Cursor::<I>::seek_for_prev, (cursor, key, statistics), found)
                && call_ensures(
                    Cursor::<I>::near_seek_for_prev,
                    (then, other, reseek, counting),
                    again,
                )
                && *then == *final(cursor)
                && cursor@.wf()
                && found == Ok::<bool, Error>(false)
                && key_le(other@, key@)
                && !(cursor@.mode is Forward) ==> {
                &&& counts_moves(*counting, *final(counting), 0, 0, 0, 0, 0)
                &&& final(then).iterator() == then.iterator()
                &&& final(then)@.at == then@.at
                &&& exists|valid: Result<()>| #[trigger]
                    call_ensures(I::validate_key, (&then.iterator(), other), valid)
                        && (match valid {
                        Ok(()) => again == Ok::<bool, Error>(false),
                        Err(e) => again == Err::<bool, Error>(e),
                    })
            },
{
    every_known_miss_is_turned_down::<I>();
    every_miss_is_learnt::<I>();
    assert forall|
        cursor: &mut Cursor<I>,
        key: &Key,
        statistics: &mut CFStatistics,
        found: Result<bool>,
        then: &mut Cursor<I>,
        other: &Key,
        counting: &mut CFStatistics,
        again: Result<bool>,
    |
        #![trigger
            call_ensures(Cursor::<I>::seek_for_prev, (cursor, key, statistics), found),
            call_ensures(Cursor::<I>::seek_for_prev, (then, other, counting), again),
        ]
        call_ensures(Cursor::<I>::seek_for_prev, (cursor, key, statistics), found)
            && call_ensures(Cursor::<I>::seek_for_prev, (then, other, counting), again)
            && *then == *final(cursor)
            && cursor@.wf()
            && found == Ok::<bool, Error>(false)
            && key_le(other@, key@) implies {
                &&& counts_moves(*counting, *final(counting), 0, 0, 0, 0, 0)
                &&& final(then).iterator() == then.iterator()
                &&& final(then)@.at == then@.at
                &&& exists|valid: Result<()>| #[trigger]
                    call_ensures(I::validate_key, (&then.iterator(), other), valid)
                        && (match valid {
                        Ok(()) => again == Ok::<bool, Error>(false),
                        Err(e) => again == Err::<bool, Error>(e),
                    })
            } by {
        knowing_upto(then@, key@, other@);
    }
    assert forall|
        cursor: &mut Cursor<I>,
        key: &Key,
        statistics: &mut CFStatistics,
        found: Result<bool>,
        then: &mut Cursor<I>,
        other: &Key,
        reseek: bool,
        counting: &mut CFStatistics,
        again: Result<bool>,
    |
        #![trigger
            call_ensures(Cursor::<I>::seek_for_prev, (cursor, key, statistics), found),
            call_ensures(Cursor::<I>::near_seek_for_prev, (then, other, reseek, counting), again),
        ]
        call_ensures(Cursor::<I>::seek_for_prev, (cursor, key, statistics), found)
            && call_ensures(Cursor::<I>::near_seek_for_prev, (then, other, reseek, counting), again)
            && *then == *final(cursor)
            && cursor@.wf()
            && found == Ok::<bool, Error>(false)
            && key_le(other@, key@)
            && !(cursor@.mode is Forward) implies {
                &&& counts_moves(*counting, *final(counting), 0, 0, 0, 0, 0)
                &&& final(then).iterator() == then.iterator()
                &&& final(then)@.at == then@.at
                &&& exists|valid: Result<()>| #[trigger]
                    call_ensures(I::validate_key, (&then.iterator(), other), valid)
                        && (match valid {
                        Ok(()) => again == Ok::<bool, Error>(false),
                        Err(e) => again == Err::<bool, Error>(e),
                    })
            } by {
        knowing_upto(then@, key@, other@);
    }
}

/// After every backward near seek that found nothing, a backward seek or near seek for that key
/// or an earlier one makes no move and is not put to the iterator.
#[verifier::rlimit(40)]
pub proof fn every_backward_near_miss_is_remembered<I: Iterator>()
    ensures
        forall|
            cursor: &mut Cursor<I>,
            key: &Key,
            allow_reseek: bool,
            statistics: &mut CFStatistics,
            found: Result<bool>,
            then: &mut Cursor<I>,
            other: &Key,
            counting: &mut CFStatistics,
            again: Result<bool>,
        |
            #![trigger
                call_ensures(
                    Cursor::<I>::near_seek_for_prev,
                    (cursor, key, allow_reseek, statistics),
                    found,
                ),
                call_ensures(Cursor::<I>::seek_for_prev, (then, other, counting), again),
            ]
            call_ensures(
                Cursor::<I>::near_seek_for_prev,
                (cursor, key, allow_reseek, statistics),
                found,
            )
                && call_ensures(Cursor::<I>::seek_for_prev, (then, other, counting), again)
                && *then == *final(cursor)
                && cursor@.wf()
                && found == Ok::<bool, Error>(false)
                && key_le(other@, key@)
                && !(cursor@.mode is Forward) ==> {
                &&& counts_moves(*counting, *final(counting), 0, 0, 0, 0, 0)
                &&& final(then).iterator() == then.iterator()
                &&& final(then)@.at == then@.at
                &&& exists|valid: Result<()>| #[trigger]
                    call_ensures(I::validate_key, (&then.iterator(), other), valid)
                        && (match valid {
                        Ok(()) => again == Ok::<bool, Error>(false),
                        Err(e) => again == Err::<bool, Error>(e),
                    })
            },
        forall|
            cursor: &mut Cursor<I>,
            key: &Key,
            allow_reseek: bool,
            statistics: &mut CFStatistics,
            found: Result<bool>,
            then: &mut Cursor<I>,
            other: &Key,
            reseek: bool,
            counting: &mut CFStatistics,
            again: Result<bool>,
        |
            #![trigger
                call_ensures(
                    Cursor::<I>::near_seek_for_prev,
                    (cursor, key, allow_reseek, statistics),
                    found,
                ),
                call_ensures(
                    Cursor::<I>::near_seek_for_prev,
                    (then, other, reseek, counting),
                    again,
                ),
            ]
            call_ensures(
                Cursor::<I>::near_seek_for_prev,
                (cursor, key, allow_reseek, statistics),
                found,
            )
                && call_ensures(
                    Cursor::<I>::near_seek_for_prev,
                    (then, other, reseek, counting),
                    again,
                )
                && *then == *final(cursor)
                && cursor@.wf()
                && found == Ok::<bool, Error>(false)
                && key_le(other@, key@)
                && !(cursor@.mode is Forward) ==> {
                &&& counts_moves(*counting, *final(counting), 0, 0, 0, 0, 0)
                &&& final(then).iterator() == then.iterator()
                &&& final(then)@.at == then@.at
                &&& exists|valid: Result<()>| #[trigger]
                    call_ensures(I::validate_key, (&then.iterator(), other), valid)
                        && (match valid {
                        Ok(()) => again == Ok::<bool, Error>(false),
                        Err(e) => again == Err::<bool, Error>(e),
                    })
            },
{
    every_known_miss_is_turned_down::<I>();
    every_miss_is_learnt::<I>();
    assert forall|
        cursor: &mut Cursor<I>,
        key: &Key,
        allow_reseek: bool,
        statistics: &mut CFStatistics,
        found: Result<bool>,
        then: &mut Cursor<I>,
        other: &Key,
        counting: &mut CFStatistics,
        again: Result<bool>,
    |
        #![trigger
            call_ensures(
                Cursor::<I>::near_seek_for_prev,
                (cursor, key, allow_reseek, statistics),
                found,
            ),
            call_ensures(Cursor::<I>::seek_for_prev, (then, other, counting), again),
        ]
        call_ensures(
            Cursor::<I>::near_seek_for_prev,
            (cursor, key, allow_reseek, statistics),
            found,
        )
            && call_ensures(Cursor::<I>::seek_for_prev, (then, other, counting), again)
            && *then == *final(cursor)
            && cursor@.wf()
            && found == Ok::<bool, Error>(false)
            && key_le(other@, key@)
            && !(cursor@.mode is Forward) implies {
                &&& counts_moves(*counting, *final(counting), 0, 0, 0, 0, 0)
                &&& final(then).iterator() == then.iterator()
                &&& final(then)@.at == then@.at
                &&& exists|valid: Result<()>| #[trigger]
                    call_ensures(I::validate_key, (&then.iterator(), other), valid)
                        && (match valid {
                        Ok(()) => again == Ok::<bool, Error>(false),
                        Err(e) => again == Err::<bool, Error>(e),
                    })
            } by {
        knowing_upto(then@, key@, other@);
    }
    assert forall|
        cursor: &mut Cursor<I>,
        key: &Key,
        allow_reseek: bool,
        statistics: &mut CFStatistics,
        found: Result<bool>,
        then: &mut Cursor<I>,
        other: &Key,
        reseek: bool,
        counting: &mut CFStatistics,
        again: Result<bool>,
    |
        #![trigger
            call_ensures(
                Cursor::<I>::near_seek_for_prev,
                (cursor, key, allow_reseek, statistics),
                found,
            ),
            call_ensures(Cursor::<I>::near_seek_for_prev, (then, other, reseek, counting), again),
        ]
        call_ensures(
            Cursor::<I>::near_seek_for_prev,
            (cursor, key, allow_reseek, statistics),
            found,
        )
            && call_ensures(Cursor::<I>::near_seek_for_prev, (then, other, reseek, counting), again)
            && *then == *final(cursor)
            && cursor@.wf()
            && found == Ok::<bool, Error>(false)
            && key_le(other@, key@)
            && !(cursor@.mode is Forward) implies {
                &&& counts_moves(*counting, *final(counting), 0, 0, 0, 0, 0)
                &&& final(then).iterator() == then.iterator()
                &&& final(then)@.at == then@.at
                &&& exists|valid: Result<()>| #[trigger]
                    call_ensures(I::validate_key, (&then.iterator(), other), valid)
                        && (match valid {
                        Ok(()) => again == Ok::<bool, Error>(false),
                        Err(e) => again == Err::<bool, Error>(e),
                    })
            } by {
        knowing_upto(then@, key@, other@);
    }
}

/// No move, no reading and no seek makes a cursor forget which keys are not there.
#[verifier::rlimit(20)]
pub proof fn every_operation_keeps_what_is_known<I: Iterator>(k: Seq<u8>)
    ensures
        forall|
            cursor: &mut Cursor<I>,
            statistics: &mut CFStatistics,
            valid: bool,
        | #[trigger]
            call_ensures(Cursor::<I>::next, (cursor, statistics), valid) ==> {
                &&& cursor@.knows_none_from(k) ==> final(cursor)@.knows_none_from(k)
                &&& cursor@.knows_none_upto(k) ==> final(cursor)@.knows_none_upto(k)
            },
        forall|
            cursor: &mut Cursor<I>,
            statistics: &mut CFStatistics,
            valid: bool,
        | #[trigger]
            call_ensures(Cursor::<I>::prev, (cursor, statistics), valid) ==> {
                &&& cursor@.knows_none_from(k) ==> final(cursor)@.knows_none_from(k)
                &&& cursor@.knows_none_upto(k) ==> final(cursor)@.knows_none_upto(k)
            },
        forall|
            cursor: &mut Cursor<I>,
            statistics: &mut CFStatistics,
            valid: bool,
        | #[trigger]
            call_ensures(Cursor::<I>::seek_to_first, (cursor, statistics), valid) ==> {
                &&& cursor@.knows_none_from(k) ==> final(cursor)@.knows_none_from(k)
                &&& cursor@.knows_none_upto(k) ==> final(cursor)@.knows_none_upto(k)
            },
        forall|
            cursor: &mut Cursor<I>,
            statistics: &mut CFStatistics,
            valid: bool,
        | #[trigger]
            call_ensures(Cursor::<I>::seek_to_last, (cursor, statistics), valid) ==> {
                &&& cursor@.knows_none_from(k) ==> final(cursor)@.knows_none_from(k)
                &&& cursor@.knows_none_upto(k) ==> final(cursor)@.knows_none_upto(k)
            },
        forall|
            cursor: &mut Cursor<I>,
            statistics: &mut CFStatistics,
            bytes: &[u8],
        | #[trigger]
            call_ensures(Cursor::<I>::key, (cursor, statistics), bytes) ==> {
                &&& cursor@.knows_none_from(k) ==> final(cursor)@.knows_none_from(k)
                &&& cursor@.knows_none_upto(k) ==> final(cursor)@.knows_none_upto(k)
            },
        forall|
            cursor: &mut Cursor<I>,
            statistics: &mut CFStatistics,
            bytes: &[u8],
        | #[trigger]
            call_ensures(Cursor::<I>::value, (cursor, statistics), bytes) ==> {
                &&& cursor@.knows_none_from(k) ==> final(cursor)@.knows_none_from(k)
                &&& cursor@.knows_none_upto(k) ==> final(cursor)@.knows_none_upto(k)
            },
        forall|
            cursor: &mut Cursor<I>,
            key: &Key,
            statistics: &mut CFStatistics,
            found: Result<bool>,
        | #[trigger]
            call_ensures(Cursor::<I>::internal_seek, (cursor, key, statistics), found) ==> {
                &&& cursor@.knows_none_from(k) ==> final(cursor)@.knows_none_from(k)
                &&& cursor@.knows_none_upto(k) ==> final(cursor)@.knows_none_upto(k)
            },
        forall|
            cursor: &mut Cursor<I>,
            key: &Key,
            statistics: &mut CFStatistics,
            found: Result<bool>,
        | #[trigger]
            call_ensures(Cursor::<I>::internal_seek_for_prev, (cursor, key, statistics), found)
                ==> {
                &&& cursor@.knows_none_from(k) ==> final(cursor)@.knows_none_from(k)
                &&& cursor@.knows_none_upto(k) ==> final(cursor)@.knows_none_upto(k)
            },
        forall|
            cursor: &mut Cursor<I>,
            key: &Key,
            statistics: &mut CFStatistics,
            found: Result<bool>,
        | #[trigger]
            call_ensures(Cursor::<I>::seek, (cursor, key, statistics), found) ==> {
                &&& cursor@.knows_none_from(k) ==> final(cursor)@.knows_none_from(k)
                &&& cursor@.knows_none_upto(k) ==> final(cursor)@.knows_none_upto(k)
            },
        forall|
            cursor: &mut Cursor<I>,
            key: &Key,
            statistics: &mut CFStatistics,
            found: Result<bool>,
        | #[trigger]
            call_ensures(Cursor::<I>::seek_for_prev, (cursor, key, statistics), found) ==> {
                &&& cursor@.knows_none_from(k) ==> final(cursor)@.knows_none_from(k)
                &&& cursor@.knows_none_upto(k) ==> final(cursor)@.knows_none_upto(k)
            },
        forall|
            cursor: &mut Cursor<I>,
            key: &Key,
            statistics: &mut CFStatistics,
            found: Result<bool>,
        | #[trigger]
            call_ensures(Cursor::<I>::reverse_seek, (cursor, key, statistics), found) ==> {
                &&& cursor@.knows_none_from(k) ==> final(cursor)@.knows_none_from(k)
                &&& cursor@.knows_none_upto(k) ==> final(cursor)@.knows_none_upto(k)
            },
{
    assert forall|
        cursor: &mut Cursor<I>,
        key: &Key,
        statistics: &mut CFStatistics,
        found: Result<bool>,
    | #[trigger]
        call_ensures(Cursor::<I>::seek, (cursor, key, statistics), found) implies {
        &&& cursor@.knows_none_from(k) ==> final(cursor)@.knows_none_from(k)
        &&& cursor@.knows_none_upto(k) ==> final(cursor)@.knows_none_upto(k)
    } by {
        learning_keeps_knowledge(cursor@, key@, cursor@.seek(key@).cursor);
    }
    assert forall|
        cursor: &mut Cursor<I>,
        key: &Key,
        statistics: &mut CFStatistics,
        found: Result<bool>,
    | #[trigger]
        call_ensures(Cursor::<I>::seek_for_prev, (cursor, key, statistics), found) implies {
        &&& cursor@.knows_none_from(k) ==> final(cursor)@.knows_none_from(k)
        &&& cursor@.knows_none_upto(k) ==> final(cursor)@.knows_none_upto(k)
    } by {
        learning_keeps_knowledge(cursor@, key@, cursor@.seek_for_prev(key@).cursor);
    }
    assert forall|
        cursor: &mut Cursor<I>,
        key: &Key,
        statistics: &mut CFStatistics,
        found: Result<bool>,
    | #[trigger]
        call_ensures(Cursor::<I>::reverse_seek, (cursor, key, statistics), found) implies {
        &&& cursor@.knows_none_from(k) ==> final(cursor)@.knows_none_from(k)
        &&& cursor@.knows_none_upto(k) ==> final(cursor)@.knows_none_upto(k)
    } by {
        learning_keeps_knowledge(cursor@, key@, cursor@.reverse_seek(key@).cursor);
    }
}

/// No near seek and no lookup makes a cursor forget which keys are not there.
#[verifier::rlimit(60)]
pub proof fn every_near_operation_keeps_what_is_known<I: Iterator>(k: Seq<u8>)
    ensures
        forall|
            cursor: &mut Cursor<I>,
            key: &Key,
            allow_reseek: bool,
            statistics: &mut CFStatistics,
            found: Result<bool>,
        | #[trigger]
            call_ensures(Cursor::<I>::near_seek, (cursor, key, allow_reseek, statistics), found)
                ==> {
                &&& cursor@.knows_none_from(k) ==> final(cursor)@.knows_none_from(k)
                &&& cursor@.knows_none_upto(k) ==> final(cursor)@.knows_none_upto(k)
            },
        forall|
            cursor: &mut Cursor<I>,
            key: &Key,
            allow_reseek: bool,
            statistics: &mut CFStatistics,
            found: Result<bool>,
        | #[trigger]
            call_ensures(
                Cursor::<I>::near_seek_for_prev,
                (cursor, key, allow_reseek, statistics),
                found,
            )
                ==> {
                &&& cursor@.knows_none_from(k) ==> final(cursor)@.knows_none_from(k)
                &&& cursor@.knows_none_upto(k) ==> final(cursor)@.knows_none_upto(k)
            },
        forall|
            cursor: &mut Cursor<I>,
            key: &Key,
            allow_reseek: bool,
            statistics: &mut CFStatistics,
            found: Result<bool>,
        | #[trigger]
            call_ensures(
                Cursor::<I>::near_reverse_seek,
                (cursor, key, allow_reseek, statistics),
                found,
            )
                ==> {
                &&& cursor@.knows_none_from(k) ==> final(cursor)@.knows_none_from(k)
                &&& cursor@.knows_none_upto(k) ==> final(cursor)@.knows_none_upto(k)
            },
        forall|
            cursor: &mut Cursor<I>,
            key: &Key,
            allow_reseek: bool,
            statistics: &mut CFStatistics,
            value: Result<Option<&[u8]>>,
        | #[trigger]
            call_ensures(Cursor::<I>::near_seek_get, (cursor, key, allow_reseek, statistics), value)
                ==> {
                &&& cursor@.knows_none_from(k) ==> final(cursor)@.knows_none_from(k)
                &&& cursor@.knows_none_upto(k) ==> final(cursor)@.knows_none_upto(k)
            },
{
    assert forall|
        cursor: &mut Cursor<I>,
        key: &Key,
        allow_reseek: bool,
        statistics: &mut CFStatistics,
        found: Result<bool>,
    | #[trigger]
        call_ensures(Cursor::<I>::near_seek, (cursor, key, allow_reseek, statistics), found)
            implies {
        &&& cursor@.knows_none_from(k) ==> final(cursor)@.knows_none_from(k)
        &&& cursor@.knows_none_upto(k) ==> final(cursor)@.knows_none_upto(k)
    } by {
        near_seek_learns_at_most(cursor@, key@, allow_reseek);
        learning_keeps_knowledge(cursor@, key@, cursor@.near_seek(key@, allow_reseek).cursor);
    }
    assert forall|
        cursor: &mut Cursor<I>,
        key: &Key,
        allow_reseek: bool,
        statistics: &mut CFStatistics,
        found: Result<bool>,
    | #[trigger]
        call_ensures(
            Cursor::<I>::near_seek_for_prev,
            (cursor, key, allow_reseek, statistics),
            found,
        )
            implies {
        &&& cursor@.knows_none_from(k) ==> final(cursor)@.knows_none_from(k)
        &&& cursor@.knows_none_upto(k) ==> final(cursor)@.knows_none_upto(k)
    } by {
        near_seek_for_prev_learns_at_most(cursor@, key@, allow_reseek);
        learning_keeps_knowledge(
            cursor@,
            key@,
            cursor@.near_seek_for_prev(key@, allow_reseek).cursor,
        );
    }
    assert forall|
        cursor: &mut Cursor<I>,
        key: &Key,
        allow_reseek: bool,
        statistics: &mut CFStatistics,
        found: Result<bool>,
    | #[trigger]
        call_ensures(Cursor::<I>::near_reverse_seek, (cursor, key, allow_reseek, statistics), found)
            implies {
        &&& cursor@.knows_none_from(k) ==> final(cursor)@.knows_none_from(k)
        &&& cursor@.knows_none_upto(k) ==> final(cursor)@.knows_none_upto(k)
    } by {
        near_seek_for_prev_learns_at_most(cursor@, key@, allow_reseek);
        learning_keeps_knowledge(
            cursor@,
            key@,
            cursor@.near_reverse_seek(key@, allow_reseek).cursor,
        );
    }
    assert forall|
        cursor: &mut Cursor<I>,
        key: &Key,
        allow_reseek: bool,
        statistics: &mut CFStatistics,
        value: Result<Option<&[u8]>>,
    | #[trigger]
        call_ensures(Cursor::<I>::near_seek_get, (cursor, key, allow_reseek, statistics), value)
            implies {
        &&& cursor@.knows_none_from(k) ==> final(cursor)@.knows_none_from(k)
        &&& cursor@.knows_none_upto(k) ==> final(cursor)@.knows_none_upto(k)
    } by {
        near_seek_learns_at_most(cursor@, key@, allow_reseek);
        near_seek_for_prev_learns_at_most(cursor@, key@, allow_reseek);
        learning_keeps_knowledge(cursor@, key@, cursor@.near_seek_get(key@, allow_reseek).cursor);
    }
}

} // verus!
