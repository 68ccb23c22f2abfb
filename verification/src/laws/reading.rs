//! What holds of every call that moves a cursor or reads where it stands.
use crate::cursor::Cursor;
use crate::error::{Error, Result};
use crate::iterator::Iterator;
use crate::key::{key_lt, Key};
use crate::laws::near_seek_keeps_source;
use crate::scan::ScanMode;
use crate::statistics::CFStatistics;
use vstd::prelude::*;

verus! {

/// Whether the counters of operations went up by these numbers, and no other counter of
/// operations changed. What was read is left open.
pub open spec fn counts_moves(
    before: CFStatistics,
    after: CFStatistics,
    next: int,
    prev: int,
    seek: int,
    seek_for_prev: int,
    over_seek_bound: int,
) -> bool {
    &&& after.processed == before.processed
    &&& after.get == before.get
    &&& after.next == before.next + next
    &&& after.prev == before.prev + prev
    &&& after.seek == before.seek + seek
    &&& after.seek_for_prev == before.seek_for_prev + seek_for_prev
    &&& after.over_seek_bound == before.over_seek_bound + over_seek_bound
}

/// Whether the counters of what was read went up by these numbers.
pub open spec fn counts_read(
    before: CFStatistics,
    after: CFStatistics,
    keys: int,
    bytes: int,
) -> bool {
    &&& after.flow_stats.read_keys == before.flow_stats.read_keys + keys
    &&& after.flow_stats.read_bytes == before.flow_stats.read_bytes + bytes
}

/// Every valid cursor walks over entries in the order of their keys, with no key twice, and
/// stands at one of them or at none.
pub proof fn every_cursor_walks_in_order<I: Iterator>(cursor: Cursor<I>)
    requires
        cursor@.wf(),
    ensures
        forall|i: int, j: int|
            #![trigger cursor@.source.entries[i], cursor@.source.entries[j]]
            0 <= i < j < cursor@.source.entries.len() ==> key_lt(
                cursor@.source.entries[i].0,
                cursor@.source.entries[j].0,
            ),
        cursor@.at matches Some(i) ==> 0 <= i < cursor@.source.entries.len(),
{
}

/// Every move is counted once, under its own name, and nothing is read by it.
pub proof fn every_move_is_counted_once<I: Iterator>()
    ensures
        forall|cursor: &mut Cursor<I>, statistics: &mut CFStatistics, valid: bool| #[trigger]
            call_ensures(Cursor::<I>::next, (cursor, statistics), valid) ==> {
                &&& counts_moves(*statistics, *final(statistics), 1, 0, 0, 0, 0)
                &&& counts_read(*statistics, *final(statistics), 0, 0)
            },
        forall|cursor: &mut Cursor<I>, statistics: &mut CFStatistics, valid: bool| #[trigger]
            call_ensures(Cursor::<I>::prev, (cursor, statistics), valid) ==> {
                &&& counts_moves(*statistics, *final(statistics), 0, 1, 0, 0, 0)
                &&& counts_read(*statistics, *final(statistics), 0, 0)
            },
        forall|cursor: &mut Cursor<I>, statistics: &mut CFStatistics, valid: bool| #[trigger]
            call_ensures(Cursor::<I>::seek_to_first, (cursor, statistics), valid) ==> {
                &&& counts_moves(*statistics, *final(statistics), 0, 0, 1, 0, 0)
                &&& counts_read(*statistics, *final(statistics), 0, 0)
            },
        forall|cursor: &mut Cursor<I>, statistics: &mut CFStatistics, valid: bool| #[trigger]
            call_ensures(Cursor::<I>::seek_to_last, (cursor, statistics), valid) ==> {
                &&& counts_moves(*statistics, *final(statistics), 0, 0, 1, 0, 0)
                &&& counts_read(*statistics, *final(statistics), 0, 0)
            },
        forall|
            cursor: &mut Cursor<I>,
            key: &Key,
            statistics: &mut CFStatistics,
            found: Result<bool>,
        | #[trigger]
            call_ensures(Cursor::<I>::internal_seek, (cursor, key, statistics), found) ==> {
                &&& counts_moves(*statistics, *final(statistics), 0, 0, 1, 0, 0)
                &&& counts_read(*statistics, *final(statistics), 0, 0)
            },
        forall|
            cursor: &mut Cursor<I>,
            key: &Key,
            statistics: &mut CFStatistics,
            found: Result<bool>,
        | #[trigger]
            call_ensures(Cursor::<I>::internal_seek_for_prev, (cursor, key, statistics), found)
                ==> {
                &&& counts_moves(*statistics, *final(statistics), 0, 0, 0, 1, 0)
                &&& counts_read(*statistics, *final(statistics), 0, 0)
            },
{
}

/// Whether neither the key nor the value at which the cursor stands was counted as read.
pub open spec fn all_unread<I: Iterator>(cursor: Cursor<I>) -> bool {
    !cursor@.key_read && !cursor@.value_read
}

/// Every move that led to an entry leaves the key and the value there unread, whatever was
/// read before it.
pub proof fn every_move_leaves_all_unread<I: Iterator>()
    ensures
        forall|cursor: &mut Cursor<I>, statistics: &mut CFStatistics, valid: bool| #[trigger]
            call_ensures(Cursor::<I>::next, (cursor, statistics), valid)
                ==> all_unread(*final(cursor)),
        forall|cursor: &mut Cursor<I>, statistics: &mut CFStatistics, valid: bool| #[trigger]
            call_ensures(Cursor::<I>::prev, (cursor, statistics), valid)
                ==> all_unread(*final(cursor)),
        forall|cursor: &mut Cursor<I>, statistics: &mut CFStatistics, valid: bool| #[trigger]
            call_ensures(Cursor::<I>::seek_to_first, (cursor, statistics), valid)
                ==> all_unread(*final(cursor)),
        forall|cursor: &mut Cursor<I>, statistics: &mut CFStatistics, valid: bool| #[trigger]
            call_ensures(Cursor::<I>::seek_to_last, (cursor, statistics), valid)
                ==> all_unread(*final(cursor)),
        forall|
            cursor: &mut Cursor<I>,
            key: &Key,
            statistics: &mut CFStatistics,
            found: Result<bool>,
        | #[trigger]
            call_ensures(Cursor::<I>::internal_seek, (cursor, key, statistics), found)
                ==> all_unread(*final(cursor)),
        forall|
            cursor: &mut Cursor<I>,
            key: &Key,
            statistics: &mut CFStatistics,
            found: Result<bool>,
        | #[trigger]
            call_ensures(Cursor::<I>::internal_seek_for_prev, (cursor, key, statistics), found)
                ==> all_unread(*final(cursor)),
        forall|
            cursor: &mut Cursor<I>,
            key: &Key,
            statistics: &mut CFStatistics,
            found: Result<bool>,
        | #[trigger]
            call_ensures(Cursor::<I>::seek, (cursor, key, statistics), found)
                && found == Ok::<bool, Error>(true)
                ==> all_unread(*final(cursor)),
        forall|
            cursor: &mut Cursor<I>,
            key: &Key,
            statistics: &mut CFStatistics,
            found: Result<bool>,
        | #[trigger]
            call_ensures(Cursor::<I>::seek_for_prev, (cursor, key, statistics), found)
                && found == Ok::<bool, Error>(true)
                ==> all_unread(*final(cursor)),
{
}

/// Where nothing was read yet, reading the key and the value, in either order, counts one
/// key, and the bytes of that key and of that value. Reading either again counts nothing.
pub proof fn every_reading_is_counted_once<I: Iterator>()
    ensures
        forall|
            cursor: &mut Cursor<I>,
            statistics: &mut CFStatistics,
            x: &[u8],
            then: &mut Cursor<I>,
            counting: &mut CFStatistics,
            y: &[u8],
        |
            #![trigger
                call_ensures(Cursor::<I>::key, (cursor, statistics), x),
                call_ensures(Cursor::<I>::value, (then, counting), y),
            ]
            call_ensures(Cursor::<I>::key, (cursor, statistics), x)
                && call_ensures(Cursor::<I>::value, (then, counting), y)
                && *then == *final(cursor) && all_unread(*cursor) ==> {
                &&& counts_read(*statistics, *final(statistics), 1, x@.len() as int)
                &&& counts_moves(*statistics, *final(statistics), 0, 0, 0, 0, 0)
                &&& counts_read(*counting, *final(counting), 0, y@.len() as int)
                &&& counts_moves(*counting, *final(counting), 0, 0, 0, 0, 0)
            },
        forall|
            cursor: &mut Cursor<I>,
            statistics: &mut CFStatistics,
            x: &[u8],
            then: &mut Cursor<I>,
            counting: &mut CFStatistics,
            y: &[u8],
        |
            #![trigger
                call_ensures(Cursor::<I>::value, (cursor, statistics), x),
                call_ensures(Cursor::<I>::key, (then, counting), y),
            ]
            call_ensures(Cursor::<I>::value, (cursor, statistics), x)
                && call_ensures(Cursor::<I>::key, (then, counting), y)
                && *then == *final(cursor) && all_unread(*cursor) ==> {
                &&& counts_read(*statistics, *final(statistics), 0, x@.len() as int)
                &&& counts_moves(*statistics, *final(statistics), 0, 0, 0, 0, 0)
                &&& counts_read(*counting, *final(counting), 1, y@.len() as int)
                &&& counts_moves(*counting, *final(counting), 0, 0, 0, 0, 0)
            },
        forall|
            cursor: &mut Cursor<I>,
            statistics: &mut CFStatistics,
            x: &[u8],
            then: &mut Cursor<I>,
            counting: &mut CFStatistics,
            y: &[u8],
        |
            #![trigger
                call_ensures(Cursor::<I>::key, (cursor, statistics), x),
                call_ensures(Cursor::<I>::key, (then, counting), y),
            ]
            call_ensures(Cursor::<I>::key, (cursor, statistics), x)
                && call_ensures(Cursor::<I>::key, (then, counting), y)
                && *then == *final(cursor) ==> {
                &&& counts_read(*counting, *final(counting), 0, 0)
                &&& counts_moves(*counting, *final(counting), 0, 0, 0, 0, 0)
                &&& y@ == x@
            },
        forall|
            cursor: &mut Cursor<I>,
            statistics: &mut CFStatistics,
            x: &[u8],
            then: &mut Cursor<I>,
            counting: &mut CFStatistics,
            y: &[u8],
        |
            #![trigger
                call_ensures(Cursor::<I>::value, (cursor, statistics), x),
                call_ensures(Cursor::<I>::value, (then, counting), y),
            ]
            call_ensures(Cursor::<I>::value, (cursor, statistics), x)
                && call_ensures(Cursor::<I>::value, (then, counting), y)
                && *then == *final(cursor) ==> {
                &&& counts_read(*counting, *final(counting), 0, 0)
                &&& counts_moves(*counting, *final(counting), 0, 0, 0, 0, 0)
                &&& y@ == x@
            },
{
}

/// What is read is the key and the value of the entry at which the cursor stands; and reading
/// moves nothing.
pub proof fn every_reading_gives_the_entry<I: Iterator>()
    ensures
        forall|cursor: &mut Cursor<I>, statistics: &mut CFStatistics, bytes: &[u8]| #[trigger]
            call_ensures(Cursor::<I>::key, (cursor, statistics), bytes) && cursor@.at is Some ==> {
                &&& bytes@ == cursor@.source.entries[cursor@.at->0].0
                &&& final(cursor)@.source == cursor@.source
                &&& final(cursor)@.at == cursor@.at
                &&& final(cursor).iterator() == cursor.iterator()
            },
        forall|cursor: &mut Cursor<I>, statistics: &mut CFStatistics, bytes: &[u8]| #[trigger]
            call_ensures(Cursor::<I>::value, (cursor, statistics), bytes) && cursor@.at is Some
                ==> {
                &&& bytes@ == cursor@.source.entries[cursor@.at->0].1
                &&& final(cursor)@.source == cursor@.source
                &&& final(cursor)@.at == cursor@.at
                &&& final(cursor).iterator() == cursor.iterator()
            },
{
}

/// Every step leads to the neighbour of the entry at which the cursor stands, and off the
/// entries where there is none; and the ends are the first and the last entry.
pub proof fn every_step_leads_to_the_neighbour<I: Iterator>()
    ensures
        forall|cursor: &mut Cursor<I>, statistics: &mut CFStatistics, valid: bool| #[trigger]
            call_ensures(Cursor::<I>::next, (cursor, statistics), valid) && cursor@.wf() ==> {
                &&& cursor@.at matches Some(i) ==> {
                    &&& valid <==> i + 1 < cursor@.source.entries.len()
                    &&& valid ==> final(cursor)@.at == Some(i + 1)
                    &&& !valid ==> final(cursor)@.at is None
                }
                &&& final(cursor)@.wf()
                &&& final(cursor)@.source == cursor@.source
                &&& final(cursor)@.mode == cursor@.mode
            },
        forall|cursor: &mut Cursor<I>, statistics: &mut CFStatistics, valid: bool| #[trigger]
            call_ensures(Cursor::<I>::prev, (cursor, statistics), valid) && cursor@.wf() ==> {
                &&& cursor@.at matches Some(i) ==> {
                    &&& valid <==> i > 0
                    &&& valid ==> final(cursor)@.at == Some(i - 1)
                    &&& !valid ==> final(cursor)@.at is None
                }
                &&& final(cursor)@.wf()
                &&& final(cursor)@.source == cursor@.source
                &&& final(cursor)@.mode == cursor@.mode
            },
        forall|cursor: &mut Cursor<I>, statistics: &mut CFStatistics, valid: bool| #[trigger]
            call_ensures(Cursor::<I>::seek_to_first, (cursor, statistics), valid) && cursor@.wf()
                ==> {
                &&& valid <==> cursor@.source.entries.len() > 0
                &&& valid ==> final(cursor)@.at == Some(0int)
                &&& !valid ==> final(cursor)@.at is None
                &&& final(cursor)@.wf()
                &&& final(cursor)@.source == cursor@.source
                &&& final(cursor)@.mode == cursor@.mode
            },
        forall|cursor: &mut Cursor<I>, statistics: &mut CFStatistics, valid: bool| #[trigger]
            call_ensures(Cursor::<I>::seek_to_last, (cursor, statistics), valid) && cursor@.wf()
                ==> {
                &&& valid <==> cursor@.source.entries.len() > 0
                &&& valid ==> final(cursor)@.at == Some(cursor@.source.entries.len() - 1)
                &&& !valid ==> final(cursor)@.at is None
                &&& final(cursor)@.wf()
                &&& final(cursor)@.source == cursor@.source
                &&& final(cursor)@.mode == cursor@.mode
            },
        forall|cursor: &Cursor<I>, valid: bool| #[trigger]
            call_ensures(Cursor::<I>::valid, (cursor,), valid) ==> (valid <==> cursor@.at is Some),
{
}

/// Every new cursor walks with the iterator it was given, in the mode it was given, and has
/// read and learnt nothing.
pub proof fn every_new_cursor_knows_nothing<I: Iterator>()
    ensures
        forall|iter: I, mode: ScanMode, cursor: Cursor<I>| #[trigger]
            call_ensures(Cursor::<I>::new, (iter, mode), cursor) ==> {
                &&& cursor.iterator() == iter
                &&& cursor@.source == iter.source()
                &&& cursor@.at == iter.at()
                &&& cursor@.mode == mode
                &&& cursor@.min_key is None
                &&& cursor@.max_key is None
                &&& all_unread(cursor)
            },
{
}

/// Every operation leaves a valid cursor valid, over the same entries and in the same mode, and
/// what the keys and values are that it walks over does not change.
pub proof fn every_operation_keeps_the_entries<I: Iterator>()
    ensures
        forall|
            cursor: &mut Cursor<I>,
            statistics: &mut CFStatistics,
            valid: bool,
        | #[trigger]
            call_ensures(Cursor::<I>::next, (cursor, statistics), valid)
                && cursor@.wf() ==> {
                &&& final(cursor)@.wf()
                &&& final(cursor)@.source.entries == cursor@.source.entries
                &&& final(cursor)@.source.refusals == cursor@.source.refusals
                &&& final(cursor)@.mode == cursor@.mode
            },
        forall|
            cursor: &mut Cursor<I>,
            statistics: &mut CFStatistics,
            valid: bool,
        | #[trigger]
            call_ensures(Cursor::<I>::prev, (cursor, statistics), valid)
                && cursor@.wf() ==> {
                &&& final(cursor)@.wf()
                &&& final(cursor)@.source.entries == cursor@.source.entries
                &&& final(cursor)@.source.refusals == cursor@.source.refusals
                &&& final(cursor)@.mode == cursor@.mode
            },
        forall|
            cursor: &mut Cursor<I>,
            statistics: &mut CFStatistics,
            valid: bool,
        | #[trigger]
            call_ensures(Cursor::<I>::seek_to_first, (cursor, statistics), valid)
                && cursor@.wf() ==> {
                &&& final(cursor)@.wf()
                &&& final(cursor)@.source.entries == cursor@.source.entries
                &&& final(cursor)@.source.refusals == cursor@.source.refusals
                &&& final(cursor)@.mode == cursor@.mode
            },
        forall|
            cursor: &mut Cursor<I>,
            statistics: &mut CFStatistics,
            valid: bool,
        | #[trigger]
            call_ensures(Cursor::<I>::seek_to_last, (cursor, statistics), valid)
                && cursor@.wf() ==> {
                &&& final(cursor)@.wf()
                &&& final(cursor)@.source.entries == cursor@.source.entries
                &&& final(cursor)@.source.refusals == cursor@.source.refusals
                &&& final(cursor)@.mode == cursor@.mode
            },
        forall|
            cursor: &mut Cursor<I>,
            statistics: &mut CFStatistics,
            bytes: &[u8],
        | #[trigger]
            call_ensures(Cursor::<I>::key, (cursor, statistics), bytes)
                && cursor@.wf() ==> {
                &&& final(cursor)@.wf()
                &&& final(cursor)@.source.entries == cursor@.source.entries
                &&& final(cursor)@.source.refusals == cursor@.source.refusals
                &&& final(cursor)@.mode == cursor@.mode
            },
        forall|
            cursor: &mut Cursor<I>,
            statistics: &mut CFStatistics,
            bytes: &[u8],
        | #[trigger]
            call_ensures(Cursor::<I>::value, (cursor, statistics), bytes)
                && cursor@.wf() ==> {
                &&& final(cursor)@.wf()
                &&& final(cursor)@.source.entries == cursor@.source.entries
                &&& final(cursor)@.source.refusals == cursor@.source.refusals
                &&& final(cursor)@.mode == cursor@.mode
            },
        forall|
            cursor: &mut Cursor<I>,
            key: &Key,
            statistics: &mut CFStatistics,
            found: Result<bool>,
        | #[trigger]
            call_ensures(Cursor::<I>::internal_seek, (cursor, key, statistics), found)
                && cursor@.wf() ==> {
                &&& final(cursor)@.wf()
                &&& final(cursor)@.source.entries == cursor@.source.entries
                &&& final(cursor)@.source.refusals == cursor@.source.refusals
                &&& final(cursor)@.mode == cursor@.mode
            },
        forall|
            cursor: &mut Cursor<I>,
            key: &Key,
            statistics: &mut CFStatistics,
            found: Result<bool>,
        | #[trigger]
            call_ensures(Cursor::<I>::internal_seek_for_prev, (cursor, key, statistics), found)
                && cursor@.wf() ==> {
                &&& final(cursor)@.wf()
                &&& final(cursor)@.source.entries == cursor@.source.entries
                &&& final(cursor)@.source.refusals == cursor@.source.refusals
                &&& final(cursor)@.mode == cursor@.mode
            },
        forall|
            cursor: &mut Cursor<I>,
            key: &Key,
            statistics: &mut CFStatistics,
            found: Result<bool>,
        | #[trigger]
            call_ensures(Cursor::<I>::seek, (cursor, key, statistics), found)
                && cursor@.wf() ==> {
                &&& final(cursor)@.wf()
                &&& final(cursor)@.source.entries == cursor@.source.entries
                &&& final(cursor)@.source.refusals == cursor@.source.refusals
                &&& final(cursor)@.mode == cursor@.mode
            },
        forall|
            cursor: &mut Cursor<I>,
            key: &Key,
            statistics: &mut CFStatistics,
            found: Result<bool>,
        | #[trigger]
            call_ensures(Cursor::<I>::seek_for_prev, (cursor, key, statistics), found)
                && cursor@.wf() ==> {
                &&& final(cursor)@.wf()
                &&& final(cursor)@.source.entries == cursor@.source.entries
                &&& final(cursor)@.source.refusals == cursor@.source.refusals
                &&& final(cursor)@.mode == cursor@.mode
            },
        forall|
            cursor: &mut Cursor<I>,
            key: &Key,
            statistics: &mut CFStatistics,
            found: Result<bool>,
        | #[trigger]
            call_ensures(Cursor::<I>::reverse_seek, (cursor, key, statistics), found)
                && cursor@.wf() ==> {
                &&& final(cursor)@.wf()
                &&& final(cursor)@.source.entries == cursor@.source.entries
                &&& final(cursor)@.source.refusals == cursor@.source.refusals
                &&& final(cursor)@.mode == cursor@.mode
            },
{
}

/// Every near seek and lookup does so too.
#[verifier::rlimit(60)]
pub proof fn every_near_operation_keeps_the_entries<I: Iterator>()
    ensures
        forall|
            cursor: &mut Cursor<I>,
            key: &Key,
            allow_reseek: bool,
            statistics: &mut CFStatistics,
            found: Result<bool>,
        | #[trigger]
            call_ensures(Cursor::<I>::near_seek, (cursor, key, allow_reseek, statistics), found)
                && cursor@.wf() ==> {
                &&& final(cursor)@.wf()
                &&& final(cursor)@.source.entries == cursor@.source.entries
                &&& final(cursor)@.source.refusals == cursor@.source.refusals
                &&& final(cursor)@.mode == cursor@.mode
            },
        forall|
            cursor: &mut Cursor<I>,
            key: &Key,
            allow_reseek: bool,
            statistics: &mut CFStatistics,
            found: Result<bool>,
        | #[trigger]
            call_ensures(
                Cursor::<I>::near_seek_for_prev,
                (cursor, key, allow_reseek, statistics),
                found,
            )
                && cursor@.wf() ==> {
                &&& final(cursor)@.wf()
                &&& final(cursor)@.source.entries == cursor@.source.entries
                &&& final(cursor)@.source.refusals == cursor@.source.refusals
                &&& final(cursor)@.mode == cursor@.mode
            },
        forall|
            cursor: &mut Cursor<I>,
            key: &Key,
            allow_reseek: bool,
            statistics: &mut CFStatistics,
            found: Result<bool>,
        | #[trigger]
            call_ensures(
                Cursor::<I>::near_reverse_seek,
                (cursor, key, allow_reseek, statistics),
                found,
            )
                && cursor@.wf() ==> {
                &&& final(cursor)@.wf()
                &&& final(cursor)@.source.entries == cursor@.source.entries
                &&& final(cursor)@.source.refusals == cursor@.source.refusals
                &&& final(cursor)@.mode == cursor@.mode
            },
        forall|
            cursor: &mut Cursor<I>,
            key: &Key,
            allow_reseek: bool,
            statistics: &mut CFStatistics,
            value: Result<Option<&[u8]>>,
        | #[trigger]
            call_ensures(Cursor::<I>::near_seek_get, (cursor, key, allow_reseek, statistics), value)
                && cursor@.wf() ==> {
                &&& final(cursor)@.wf()
                &&& final(cursor)@.source.entries == cursor@.source.entries
                &&& final(cursor)@.source.refusals == cursor@.source.refusals
                &&& final(cursor)@.mode == cursor@.mode
            },
{
    assert forall|
        cursor: &mut Cursor<I>,
        key: &Key,
        allow_reseek: bool,
        statistics: &mut CFStatistics,
        found: Result<bool>,
    | #[trigger]
        call_ensures(Cursor::<I>::near_seek, (cursor, key, allow_reseek, statistics), found)
            && cursor@.wf() implies {
            &&& final(cursor)@.wf()
            &&& final(cursor)@.source.entries == cursor@.source.entries
            &&& final(cursor)@.source.refusals == cursor@.source.refusals
            &&& final(cursor)@.mode == cursor@.mode
        } by {
        near_seek_keeps_source(cursor@, key@, allow_reseek);
    }
    assert forall|
        cursor: &mut Cursor<I>,
        key: &Key,
        allow_reseek: bool,
        statistics: &mut CFStatistics,
        found: Result<bool>,
    | #[trigger]
        call_ensures(
            Cursor::<I>::near_seek_for_prev,
            (cursor, key, allow_reseek, statistics),
            found,
        )
            && cursor@.wf() implies {
            &&& final(cursor)@.wf()
            &&& final(cursor)@.source.entries == cursor@.source.entries
            &&& final(cursor)@.source.refusals == cursor@.source.refusals
            &&& final(cursor)@.mode == cursor@.mode
        } by {
        near_seek_keeps_source(cursor@, key@, allow_reseek);
    }
    assert forall|
        cursor: &mut Cursor<I>,
        key: &Key,
        allow_reseek: bool,
        statistics: &mut CFStatistics,
        found: Result<bool>,
    | #[trigger]
        call_ensures(Cursor::<I>::near_reverse_seek, (cursor, key, allow_reseek, statistics), found)
            && cursor@.wf() implies {
            &&& final(cursor)@.wf()
            &&& final(cursor)@.source.entries == cursor@.source.entries
            &&& final(cursor)@.source.refusals == cursor@.source.refusals
            &&& final(cursor)@.mode == cursor@.mode
        } by {
        near_seek_keeps_source(cursor@, key@, allow_reseek);
    }
    assert forall|
        cursor: &mut Cursor<I>,
        key: &Key,
        allow_reseek: bool,
        statistics: &mut CFStatistics,
        value: Result<Option<&[u8]>>,
    | #[trigger]
        call_ensures(Cursor::<I>::near_seek_get, (cursor, key, allow_reseek, statistics), value)
            && cursor@.wf() implies {
            &&& final(cursor)@.wf()
            &&& final(cursor)@.source.entries == cursor@.source.entries
            &&& final(cursor)@.source.refusals == cursor@.source.refusals
            &&& final(cursor)@.mode == cursor@.mode
        } by {
        near_seek_keeps_source(cursor@, key@, allow_reseek);
    }
}

} // verus!
