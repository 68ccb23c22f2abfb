//! What holds of every change to a store, and of every reading of what it holds.
use crate::cursor::Cursor;
use crate::engine::{batch_effect, Modify, Snapshot};
use crate::error::{Error, Result};
use crate::iterator::{Iterator, Refusal};
use crate::key::{key_le, key_lt, key_lt_total, Key, Value};
use crate::laws::batches_follow_one_another;
use crate::laws::seeking::every_lookup_gives_the_stored_value;
use crate::memory::{MemoryIterator, MemorySnapshot, MemoryStore};
use crate::scan::ScanMode;
use crate::statistics::{CFStatistics, CfName};
use vstd::prelude::*;

verus! {

/// A key that is stored has its value after that, and every other key of every column family
/// has what it had.
pub proof fn put_changes_one_key(
    cf: CfName,
    key: Key,
    value: Value,
    other_cf: Seq<char>,
    other: Seq<u8>,
    before: Option<Seq<u8>>,
)
    ensures
        Modify::Put(cf, key, value).effect(cf@, key@, before) == Some(value@),
        other_cf != cf@ || other != key@ ==> Modify::Put(cf, key, value).effect(
            other_cf,
            other,
            before,
        ) == before,
{
}

/// A key that is removed is gone after that, and every other key of every column family has
/// what it had, be it longer, shorter or next to it.
pub proof fn delete_changes_one_key(
    cf: CfName,
    key: Key,
    other_cf: Seq<char>,
    other: Seq<u8>,
    before: Option<Seq<u8>>,
)
    ensures
        Modify::Delete(cf, key).effect(cf@, key@, before) is None,
        other_cf != cf@ || other != key@ ==> Modify::Delete(cf, key).effect(
            other_cf,
            other,
            before,
        ) == before,
{
}

/// A range that is removed takes its first key with it and all up to its second key, which
/// stays; every key before the first and from the second on, and every key of another column
/// family, has what it had.
pub proof fn delete_range_changes_the_range(
    cf: CfName,
    start: Key,
    end: Key,
    other_cf: Seq<char>,
    other: Seq<u8>,
    before: Option<Seq<u8>>,
)
    ensures
        other_cf == cf@ && (other == start@ || key_lt(start@, other)) && key_lt(other, end@)
            ==> Modify::DeleteRange(cf, start, end).effect(other_cf, other, before) is None,
        other_cf != cf@ || key_lt(other, start@) || other == end@ || key_lt(end@, other)
            ==> Modify::DeleteRange(cf, start, end).effect(other_cf, other, before) == before,
{
    key_lt_total(start@, other);
    key_lt_total(other, end@);
}

/// Whether a reading found just this value.
pub open spec fn found_value(read: Result<Option<Value>>, value: Seq<u8>) -> bool {
    read matches Ok(Some(v)) && v@ == value
}

/// Whether a reading found nothing.
pub open spec fn found_none(read: Result<Option<Value>>) -> bool {
    read matches Ok(None)
}

/// Whether two readings found the same.
pub open spec fn found_same(a: Result<Option<Value>>, b: Result<Option<Value>>) -> bool {
    match (a, b) {
        (Ok(Some(x)), Ok(Some(y))) => x@ == y@,
        (Ok(None), Ok(None)) => true,
        _ => false,
    }
}

/// Every write of one change to a store changes what is read under the keys that the change
/// names and under no other: what was read of the store before it and what is read after it
/// are the same under every other key and in every other column family.
pub proof fn every_write_of_one_change_is_read()
    ensures
        forall|
            store: &mut MemoryStore,
            batch: &Vec<Modify>,
            result: Result<()>,
            before: MemorySnapshot,
            after: MemorySnapshot,
            cf: CfName,
            key: &Key,
            was: Result<Option<Value>>,
            now: Result<Option<Value>>,
        |
            #![trigger
                call_ensures(MemoryStore::write, (store, batch), result),
                call_ensures(MemoryStore::snapshot, (&*store,), before),
                call_ensures(MemoryStore::snapshot, (&*final(store),), after),
                call_ensures(MemorySnapshot::get_cf, (&before, cf, key), was),
                call_ensures(MemorySnapshot::get_cf, (&after, cf, key), now),
            ]
            call_ensures(MemoryStore::write, (store, batch), result)
                && call_ensures(MemoryStore::snapshot, (&*store,), before)
                && call_ensures(MemoryStore::snapshot, (&*final(store),), after)
                && call_ensures(MemorySnapshot::get_cf, (&before, cf, key), was)
                && call_ensures(MemorySnapshot::get_cf, (&after, cf, key), now)
                && batch@.len() == 1 ==> match batch@[0] {
                Modify::Put(c, k, v) => {
                    &&& result is Ok
                    &&& c@ == cf@ && k@ == key@ ==> found_value(now, v@)
                    &&& c@ != cf@ || k@ != key@ ==> found_same(was, now)
                },
                Modify::Delete(c, k) => {
                    &&& result is Ok
                    &&& c@ == cf@ && k@ == key@ ==> found_none(now)
                    &&& c@ != cf@ || k@ != key@ ==> found_same(was, now)
                },
                Modify::DeleteRange(c, start, end) => {
                    &&& result is Ok
                    &&& c@ == cf@ && (start@ == key@ || key_lt(start@, key@)) && key_lt(
                        key@,
                        end@,
                    ) ==> found_none(now)
                    &&& c@ != cf@ || key_lt(key@, start@) || key@ == end@ || key_lt(end@, key@)
                        ==> found_same(was, now)
                },
            },
{
    assert forall|
        store: &mut MemoryStore,
        batch: &Vec<Modify>,
        result: Result<()>,
        before: MemorySnapshot,
        after: MemorySnapshot,
        cf: CfName,
        key: &Key,
        was: Result<Option<Value>>,
        now: Result<Option<Value>>,
    |
        #![trigger
            call_ensures(MemoryStore::write, (store, batch), result),
            call_ensures(MemoryStore::snapshot, (&*store,), before),
            call_ensures(MemoryStore::snapshot, (&*final(store),), after),
            call_ensures(MemorySnapshot::get_cf, (&before, cf, key), was),
            call_ensures(MemorySnapshot::get_cf, (&after, cf, key), now),
        ]
        call_ensures(MemoryStore::write, (store, batch), result)
            && call_ensures(MemoryStore::snapshot, (&*store,), before)
            && call_ensures(MemoryStore::snapshot, (&*final(store),), after)
            && call_ensures(MemorySnapshot::get_cf, (&before, cf, key), was)
            && call_ensures(MemorySnapshot::get_cf, (&after, cf, key), now)
            && batch@.len() == 1
            implies result is Ok && match batch@[0] {
        Modify::Put(c, k, v) => {
            &&& c@ == cf@ && k@ == key@ ==> found_value(now, v@)
            &&& c@ != cf@ || k@ != key@ ==> found_same(was, now)
        },
        Modify::Delete(c, k) => {
            &&& c@ == cf@ && k@ == key@ ==> found_none(now)
            &&& c@ != cf@ || k@ != key@ ==> found_same(was, now)
        },
        Modify::DeleteRange(c, start, end) => {
            &&& c@ == cf@ && (start@ == key@ || key_lt(start@, key@)) && key_lt(key@, end@)
                ==> found_none(now)
            &&& c@ != cf@ || key_lt(key@, start@) || key@ == end@ || key_lt(end@, key@)
                ==> found_same(was, now)
        },
    } by {
        reveal_with_fuel(batch_effect, 2);
        let held = store.lookup(cf@, key@);
        assert(final(store).lookup(cf@, key@) == batch@[0].effect(cf@, key@, held));
        match batch@[0] {
            Modify::DeleteRange(c, start, end) => {
                key_lt_total(start@, key@);
                key_lt_total(key@, end@);
            },
            _ => {},
        }
    }
}

/// Every write of no change is refused, and changes nothing; and every other write is made.
pub proof fn every_empty_write_is_refused()
    ensures
        forall|store: &mut MemoryStore, batch: &Vec<Modify>, result: Result<()>| #[trigger]
            call_ensures(MemoryStore::write, (store, batch), result) ==> (if batch@.len() == 0 {
                result == Err::<(), Error>(Error::EmptyRequest)
            } else {
                result is Ok
            }),
        forall|
            store: &mut MemoryStore,
            batch: &Vec<Modify>,
            result: Result<()>,
            before: MemorySnapshot,
            after: MemorySnapshot,
            cf: CfName,
            key: &Key,
            was: Result<Option<Value>>,
            now: Result<Option<Value>>,
        |
            #![trigger
                call_ensures(MemoryStore::write, (store, batch), result),
                call_ensures(MemoryStore::snapshot, (&*store,), before),
                call_ensures(MemoryStore::snapshot, (&*final(store),), after),
                call_ensures(MemorySnapshot::get_cf, (&before, cf, key), was),
                call_ensures(MemorySnapshot::get_cf, (&after, cf, key), now),
            ]
            call_ensures(MemoryStore::write, (store, batch), result)
                && call_ensures(MemoryStore::snapshot, (&*store,), before)
                && call_ensures(MemoryStore::snapshot, (&*final(store),), after)
                && call_ensures(MemorySnapshot::get_cf, (&before, cf, key), was)
                && call_ensures(MemorySnapshot::get_cf, (&after, cf, key), now)
                && batch@.len() == 0 ==> found_same(was, now),
{
}

/// The changes of a batch are made one after the other: to write two batches in turn leaves
/// what to write the changes of both in one batch leaves.
pub proof fn every_batch_is_made_in_turn()
    ensures
        forall|
            store: &mut MemoryStore,
            batch: &Vec<Modify>,
            result: Result<()>,
            again: &mut MemoryStore,
            rest: &Vec<Modify>,
            answer: Result<()>,
            apart: MemorySnapshot,
            whole: &mut MemoryStore,
            all: &Vec<Modify>,
            done: Result<()>,
            together: MemorySnapshot,
            cf: CfName,
            key: &Key,
            a: Result<Option<Value>>,
            b: Result<Option<Value>>,
        |
            #![trigger
                call_ensures(MemoryStore::write, (store, batch), result),
                call_ensures(MemoryStore::write, (again, rest), answer),
                call_ensures(MemoryStore::snapshot, (&*final(again),), apart),
                call_ensures(MemoryStore::write, (whole, all), done),
                call_ensures(MemoryStore::snapshot, (&*final(whole),), together),
                call_ensures(MemorySnapshot::get_cf, (&apart, cf, key), a),
                call_ensures(MemorySnapshot::get_cf, (&together, cf, key), b),
            ]
            call_ensures(MemoryStore::write, (store, batch), result)
                && call_ensures(MemoryStore::write, (again, rest), answer)
                && call_ensures(MemoryStore::snapshot, (&*final(again),), apart)
                && call_ensures(MemoryStore::write, (whole, all), done)
                && call_ensures(MemoryStore::snapshot, (&*final(whole),), together)
                && call_ensures(MemorySnapshot::get_cf, (&apart, cf, key), a)
                && call_ensures(MemorySnapshot::get_cf, (&together, cf, key), b)
                && *again == *final(store)
                && *whole == *store
                && all@ == batch@ + rest@ ==> found_same(a, b),
{
    assert forall|
        store: &mut MemoryStore,
        batch: &Vec<Modify>,
        result: Result<()>,
        again: &mut MemoryStore,
        rest: &Vec<Modify>,
        answer: Result<()>,
        apart: MemorySnapshot,
        whole: &mut MemoryStore,
        all: &Vec<Modify>,
        done: Result<()>,
        together: MemorySnapshot,
        cf: CfName,
        key: &Key,
        a: Result<Option<Value>>,
        b: Result<Option<Value>>,
    |
        #![trigger
            call_ensures(MemoryStore::write, (store, batch), result),
            call_ensures(MemoryStore::write, (again, rest), answer),
            call_ensures(MemoryStore::snapshot, (&*final(again),), apart),
            call_ensures(MemoryStore::write, (whole, all), done),
            call_ensures(MemoryStore::snapshot, (&*final(whole),), together),
            call_ensures(MemorySnapshot::get_cf, (&apart, cf, key), a),
            call_ensures(MemorySnapshot::get_cf, (&together, cf, key), b),
        ]
        call_ensures(MemoryStore::write, (store, batch), result)
            && call_ensures(MemoryStore::write, (again, rest), answer)
            && call_ensures(MemoryStore::snapshot, (&*final(again),), apart)
            && call_ensures(MemoryStore::write, (whole, all), done)
            && call_ensures(MemoryStore::snapshot, (&*final(whole),), together)
            && call_ensures(MemorySnapshot::get_cf, (&apart, cf, key), a)
            && call_ensures(MemorySnapshot::get_cf, (&together, cf, key), b)
            && *again == *final(store)
            && *whole == *store
            && all@ == batch@ + rest@
            implies found_same(a, b) by {
        batches_follow_one_another(batch@, rest@, cf@, key@, store.lookup(cf@, key@));
        assert(final(again).lookup(cf@, key@) == final(whole).lookup(cf@, key@));
    }
}

/// A new store holds nothing.
pub proof fn every_new_store_is_empty()
    ensures
        forall|
            store: MemoryStore,
            held: MemorySnapshot,
            cf: CfName,
            key: &Key,
            read: Result<Option<Value>>,
        |
            #![trigger
                call_ensures(MemoryStore::new, (), store),
                call_ensures(MemoryStore::snapshot, (&store,), held),
                call_ensures(MemorySnapshot::get_cf, (&held, cf, key), read),
            ]
            call_ensures(MemoryStore::new, (), store)
                && call_ensures(MemoryStore::snapshot, (&store,), held)
                && call_ensures(MemorySnapshot::get_cf, (&held, cf, key), read)
                    ==> found_none(read),
{
}

/// To read a key without the name of a column family is to read it from the default one; and
/// a copy of a snapshot reads as the snapshot does.
pub proof fn every_snapshot_reads_alike()
    ensures
        forall|
            held: &MemorySnapshot,
            cf: CfName,
            key: &Key,
            a: Result<Option<Value>>,
            b: Result<Option<Value>>,
        |
            #![trigger
                call_ensures(MemorySnapshot::get, (held, key), a),
                call_ensures(MemorySnapshot::get_cf, (held, cf, key), b),
            ]
            call_ensures(MemorySnapshot::get, (held, key), a)
                && call_ensures(MemorySnapshot::get_cf, (held, cf, key), b)
                && cf@ == "default"@ ==> found_same(a, b),
        forall|
            held: &MemorySnapshot,
            copy: MemorySnapshot,
            cf: CfName,
            key: &Key,
            a: Result<Option<Value>>,
            b: Result<Option<Value>>,
        |
            #![trigger
                call_ensures(MemorySnapshot::clone, (held,), copy),
                call_ensures(MemorySnapshot::get_cf, (held, cf, key), a),
                call_ensures(MemorySnapshot::get_cf, (&copy, cf, key), b),
            ]
            call_ensures(MemorySnapshot::clone, (held,), copy)
                && call_ensures(MemorySnapshot::get_cf, (held, cf, key), a)
                && call_ensures(MemorySnapshot::get_cf, (&copy, cf, key), b) ==> found_same(a, b),
{
}

/// Every cursor of a snapshot walks over just the keys that are read from the snapshot, each
/// with the value that is read under it, in the order of the keys. It begins at no entry, in
/// the mode it was asked for, with nothing learnt, and refuses nothing.
pub proof fn every_cursor_walks_over_what_is_read()
    ensures
        forall|
            held: &MemorySnapshot,
            cf: CfName,
            mode: ScanMode,
            made: Result<Cursor<MemoryIterator>>,
            key: &Key,
            read: Result<Option<Value>>,
        |
            #![trigger
                call_ensures(MemorySnapshot::iter_cf, (held, cf, (), mode), made),
                call_ensures(MemorySnapshot::get_cf, (held, cf, key), read),
            ]
            call_ensures(MemorySnapshot::iter_cf, (held, cf, (), mode), made)
                && call_ensures(MemorySnapshot::get_cf, (held, cf, key), read) ==> {
                &&& made matches Ok(cursor)
                &&& cursor@.wf()
                &&& cursor@.at is None
                &&& cursor@.mode == mode
                &&& cursor@.min_key is None && cursor@.max_key is None
                &&& cursor@.source.refusals == Set::<Refusal>::empty()
                &&& read matches Ok(Some(v)) ==> cursor@.source.entries.contains((key@, v@))
                &&& forall|i: int|
                    #![trigger cursor@.source.entries[i]]
                    0 <= i < cursor@.source.entries.len() && cursor@.source.entries[i].0 == key@
                        ==> found_value(read, cursor@.source.entries[i].1)
            },
        forall|
            held: &MemorySnapshot,
            cf: CfName,
            mode: ScanMode,
            made: Result<Cursor<MemoryIterator>>,
            key: &Key,
            read: Result<Option<Value>>,
        |
            #![trigger
                call_ensures(MemorySnapshot::iter, (held, (), mode), made),
                call_ensures(MemorySnapshot::get_cf, (held, cf, key), read),
            ]
            call_ensures(MemorySnapshot::iter, (held, (), mode), made)
                && call_ensures(MemorySnapshot::get_cf, (held, cf, key), read)
                && cf@ == "default"@ ==> {
                &&& made matches Ok(cursor)
                &&& cursor@.wf()
                &&& cursor@.at is None
                &&& cursor@.mode == mode
                &&& cursor@.min_key is None && cursor@.max_key is None
                &&& cursor@.source.refusals == Set::<Refusal>::empty()
                &&& read matches Ok(Some(v)) ==> cursor@.source.entries.contains((key@, v@))
                &&& forall|i: int|
                    #![trigger cursor@.source.entries[i]]
                    0 <= i < cursor@.source.entries.len() && cursor@.source.entries[i].0 == key@
                        ==> found_value(read, cursor@.source.entries[i].1)
            },
{
    assert forall|
        held: &MemorySnapshot,
        cf: CfName,
        mode: ScanMode,
        made: Result<Cursor<MemoryIterator>>,
        key: &Key,
        read: Result<Option<Value>>,
        i: int,
    |
        #![trigger
            call_ensures(MemorySnapshot::iter_cf, (held, cf, (), mode), made),
            call_ensures(MemorySnapshot::get_cf, (held, cf, key), read),
            made->Ok_0@.source.entries[i],
        ]
        call_ensures(MemorySnapshot::iter_cf, (held, cf, (), mode), made)
            && call_ensures(MemorySnapshot::get_cf, (held, cf, key), read)
            && 0 <= i < made->Ok_0@.source.entries.len()
            && made->Ok_0@.source.entries[i].0 == key@ implies found_value(
        read,
        made->Ok_0@.source.entries[i].1,
    ) by {
        let (k, v) = made->Ok_0@.source.entries[i];
        assert(made->Ok_0@.entries().contains((k, v)));
    }
    assert forall|
        held: &MemorySnapshot,
        cf: CfName,
        mode: ScanMode,
        made: Result<Cursor<MemoryIterator>>,
        key: &Key,
        read: Result<Option<Value>>,
        i: int,
    |
        #![trigger
            call_ensures(MemorySnapshot::iter, (held, (), mode), made),
            call_ensures(MemorySnapshot::get_cf, (held, cf, key), read),
            made->Ok_0@.source.entries[i],
        ]
        call_ensures(MemorySnapshot::iter, (held, (), mode), made)
            && call_ensures(MemorySnapshot::get_cf, (held, cf, key), read)
            && cf@ == "default"@
            && 0 <= i < made->Ok_0@.source.entries.len()
            && made->Ok_0@.source.entries[i].0 == key@ implies found_value(
        read,
        made->Ok_0@.source.entries[i].1,
    ) by {
        let (k, v) = made->Ok_0@.source.entries[i];
        assert(made->Ok_0@.entries().contains((k, v)));
    }
}

/// What was written last under a key is what a cursor finds there: the value that was stored,
/// or nothing if the key, or a range around it, was removed.
#[verifier::rlimit(40)]
pub proof fn every_cursor_finds_what_was_written()
    ensures
        forall|
            store: &mut MemoryStore,
            batch: &Vec<Modify>,
            result: Result<()>,
            held: MemorySnapshot,
            cf: CfName,
            mode: ScanMode,
            made: Result<Cursor<MemoryIterator>>,
            cursor: &mut Cursor<MemoryIterator>,
            key: &Key,
            allow_reseek: bool,
            statistics: &mut CFStatistics,
            value: Result<Option<&[u8]>>,
        |
            #![trigger
                call_ensures(MemoryStore::write, (store, batch), result),
                call_ensures(MemoryStore::snapshot, (&*final(store),), held),
                call_ensures(MemorySnapshot::iter_cf, (&held, cf, (), mode), made),
                call_ensures(
                    Cursor::<MemoryIterator>::near_seek_get,
                    (cursor, key, allow_reseek, statistics),
                    value,
                ),
            ]
            call_ensures(MemoryStore::write, (store, batch), result)
                && call_ensures(MemoryStore::snapshot, (&*final(store),), held)
                && call_ensures(MemorySnapshot::iter_cf, (&held, cf, (), mode), made)
                && call_ensures(
                    Cursor::<MemoryIterator>::near_seek_get,
                    (cursor, key, allow_reseek, statistics),
                    value,
                )
                && made == Ok::<Cursor<MemoryIterator>, Error>(*cursor)
                && batch@.len() > 0 ==> match batch@.last() {
                Modify::Put(c, k, v) => c@ == cf@ && k@ == key@ ==> (value matches Ok(Some(x))
                    && x@ == v@),
                Modify::Delete(c, k) => c@ == cf@ && k@ == key@ ==> value matches Ok(None),
                Modify::DeleteRange(c, start, end) => c@ == cf@ && key_le(start@, key@) && key_lt(
                    key@,
                    end@,
                ) ==> value matches Ok(None),
            },
{
    assert forall|
        store: &mut MemoryStore,
        batch: &Vec<Modify>,
        result: Result<()>,
        held: MemorySnapshot,
        cf: CfName,
        mode: ScanMode,
        made: Result<Cursor<MemoryIterator>>,
        cursor: &mut Cursor<MemoryIterator>,
        key: &Key,
        allow_reseek: bool,
        statistics: &mut CFStatistics,
        value: Result<Option<&[u8]>>,
    |
        #![trigger
            call_ensures(MemoryStore::write, (store, batch), result),
            call_ensures(MemoryStore::snapshot, (&*final(store),), held),
            call_ensures(MemorySnapshot::iter_cf, (&held, cf, (), mode), made),
            call_ensures(
                Cursor::<MemoryIterator>::near_seek_get,
                (cursor, key, allow_reseek, statistics),
                value,
            ),
        ]
        call_ensures(MemoryStore::write, (store, batch), result)
            && call_ensures(MemoryStore::snapshot, (&*final(store),), held)
            && call_ensures(MemorySnapshot::iter_cf, (&held, cf, (), mode), made)
            && call_ensures(
                Cursor::<MemoryIterator>::near_seek_get,
                (cursor, key, allow_reseek, statistics),
                value,
            )
            && made == Ok::<Cursor<MemoryIterator>, Error>(*cursor)
            && batch@.len() > 0 implies match batch@.last() {
        Modify::Put(c, k, v) => c@ == cf@ && k@ == key@ ==> (value matches Ok(Some(x))
            && x@ == v@),
        Modify::Delete(c, k) => c@ == cf@ && k@ == key@ ==> value matches Ok(None),
        Modify::DeleteRange(c, start, end) => c@ == cf@ && key_le(start@, key@) && key_lt(
            key@,
            end@,
        ) ==> value matches Ok(None),
    } by {
        every_lookup_gives_the_stored_value::<MemoryIterator>();
        let now = final(store).lookup(cf@, key@);
        let before = batch_effect(batch@.drop_last(), cf@, key@, store.lookup(cf@, key@));
        assert(now == batch@.last().effect(cf@, key@, before));
        assert(held.lookup(cf@, key@) == now);
        assert(value is Ok);
        match now {
            Some(v) => {
                assert(cursor@.entries().contains((key@, v)));
            },
            None => {},
        }
        match value->Ok_0 {
            Some(x) => {
                assert(cursor@.entries().contains((key@, x@)));
            },
            None => {},
        }
    }
}

/// An iterator in memory takes every key.
pub proof fn every_memory_iterator_takes_every_key()
    ensures
        forall|iter: &MemoryIterator, key: &Key, answer: Result<()>| #[trigger]
            call_ensures(MemoryIterator::validate_key, (iter, key), answer) ==> answer is Ok,
        forall|iter: &mut MemoryIterator, key: &Key, found: Result<bool>| #[trigger]
            call_ensures(MemoryIterator::seek, (iter, key), found) ==> found is Ok,
        forall|iter: &mut MemoryIterator, key: &Key, found: Result<bool>| #[trigger]
            call_ensures(MemoryIterator::seek_for_prev, (iter, key), found) ==> found is Ok,
{
}

} // verus!
