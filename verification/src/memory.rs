//! A store that keeps its entries in memory.
use crate::cursor::Cursor;
use crate::engine::{batch_effect, Modify, Snapshot};
use crate::error::{Error, Result};
use crate::iterator::{bounds_part_entries, lower_bound, lower_bound_is, ordered, upper_bound};
use crate::iterator::{stands_in_order, Entry, Iterator, Refusal, Source};
use crate::key::{compare, key_le, key_lt, key_lt_total, key_lt_transitive, same_name};
use crate::key::{Key, KeyOrder, Value};
use crate::scan::ScanMode;
use crate::statistics::{CfName, CF_DEFAULT};
use vstd::prelude::*;

verus! {

/// The entries that the rows of an iterator hold.
spec fn entries_of(rows: Seq<(Vec<u8>, Vec<u8>)>) -> Seq<Entry> {
    rows.map_values(|row: (Vec<u8>, Vec<u8>)| (row.0@, row.1@))
}

/// An iterator over entries in memory.
#[derive(Debug)]
pub struct MemoryIterator {
    rows: Vec<(Vec<u8>, Vec<u8>)>,
    at: Option<usize>,
}

impl MemoryIterator {
    /// Stands at no entry at first.
    fn new(rows: Vec<(Vec<u8>, Vec<u8>)>) -> (iter: MemoryIterator)
        requires
            ordered(entries_of(rows@)),
        ensures
            stands_in_order(iter.source(), iter.at()),
            iter.source().entries == entries_of(rows@),
            iter.source().refusals == Set::<Refusal>::empty(),
            iter.at() is None,
    {
        MemoryIterator { rows, at: None }
    }

    /// The position of the first row whose key is not before `key`.
    fn first_from(&self, key: &Key) -> (n: usize)
        requires
            ordered(self.source().entries),
        ensures
            n == lower_bound(self.source().entries, key@),
            n <= self.rows@.len(),
    {
        let ghost entries = entries_of(self.rows@);
        let mut lo: usize = 0;
        let mut hi: usize = self.rows.len();
        while lo < hi
            invariant
                entries == entries_of(self.rows@),
                ordered(entries),
                lo <= hi <= self.rows@.len(),
                forall|i: int| #![trigger entries[i]] 0 <= i < lo ==> key_lt(entries[i].0, key@),
                hi < self.rows@.len() ==> !key_lt(entries[hi as int].0, key@),
            decreases hi - lo,
        {
            let mid = lo + (hi - lo) / 2;
            let ghost middle = entries[mid as int];
            match compare(self.rows[mid].0.as_slice(), key.encoded().as_slice()) {
                KeyOrder::Less => {
                    assert forall|i: int| #![trigger entries[i]] 0 <= i < mid + 1 implies key_lt(
                        entries[i].0,
                        key@,
                    ) by {
                        if i < mid {
                            key_lt_transitive(entries[i].0, middle.0, key@);
                        }
                    }
                    lo = mid + 1;
                },
                _ => {
                    hi = mid;
                },
            }
        }
        proof {
            lower_bound_is(entries, key@, lo as int);
        }
        lo
    }

    /// The position after the last row whose key is not after `key`.
    fn end_upto(&self, key: &Key) -> (n: usize)
        requires
            ordered(self.source().entries),
        ensures
            n == upper_bound(self.source().entries, key@),
            n <= self.rows@.len(),
    {
        let ghost entries = entries_of(self.rows@);
        let n = self.first_from(key);
        proof {
            bounds_part_entries(entries, key@);
        }
        if n < self.rows.len() {
            proof {
                key_lt_total(entries[n as int].0, key@);
            }
            match compare(self.rows[n].0.as_slice(), key.encoded().as_slice()) {
                KeyOrder::Equal => {
                    proof {
                        if upper_bound(entries, key@) == n {
                            assert(key_lt(key@, entries[n as int].0));
                        }
                    }
                    n + 1
                },
                _ => {
                    proof {
                        if upper_bound(entries, key@) > n {
                            assert(entries[n as int].0 == key@);
                        }
                    }
                    n
                },
            }
        } else {
            n
        }
    }
}

impl Iterator for MemoryIterator {
    closed spec fn source(&self) -> Source {
        Source { entries: entries_of(self.rows@), refusals: Set::empty() }
    }

    closed spec fn at(&self) -> Option<int> {
        match self.at {
            Some(i) => Some(i as int),
            None => None,
        }
    }

    fn next(&mut self) -> (valid: bool) {
        self.at = match self.at {
            Some(i) if self.rows.len() - i > 1 => Some(i + 1),
            _ => None,
        };
        self.at.is_some()
    }

    fn prev(&mut self) -> (valid: bool) {
        self.at = match self.at {
            Some(i) if i > 0 => Some(i - 1),
            _ => None,
        };
        self.at.is_some()
    }

    fn seek(&mut self, key: &Key) -> (found: Result<bool>)
        ensures
            found is Ok,
    {
        let n = self.first_from(key);
        if n < self.rows.len() {
            self.at = Some(n);
            Ok(true)
        } else {
            self.at = None;
            Ok(false)
        }
    }

    fn seek_for_prev(&mut self, key: &Key) -> (found: Result<bool>)
        ensures
            found is Ok,
    {
        let n = self.end_upto(key);
        if n > 0 {
            self.at = Some(n - 1);
            Ok(true)
        } else {
            self.at = None;
            Ok(false)
        }
    }

    fn seek_to_first(&mut self) -> (valid: bool) {
        self.at = if self.rows.len() > 0 {
            Some(0)
        } else {
            None
        };
        self.at.is_some()
    }

    fn seek_to_last(&mut self) -> (valid: bool) {
        self.at = if self.rows.len() > 0 {
            Some(self.rows.len() - 1)
        } else {
            None
        };
        self.at.is_some()
    }

    fn valid(&self) -> (valid: bool) {
        self.at.is_some()
    }

    fn key(&self) -> (key: &[u8]) {
        self.rows[self.at.unwrap()].0.as_slice()
    }

    fn value(&self) -> (value: &[u8]) {
        self.rows[self.at.unwrap()].1.as_slice()
    }
}

/// A key of a column family and the value under it.
#[derive(Debug)]
struct Row {
    cf: CfName,
    key: Vec<u8>,
    value: Vec<u8>,
}

/// Whether row `i` holds the value under a key of a column family.
spec fn is_at(rows: Seq<Row>, i: int, cf: Seq<char>, key: Seq<u8>) -> bool {
    0 <= i < rows.len() && rows[i].cf@ == cf && rows[i].key@ == key
}

/// The value that the rows hold under a key of a column family.
spec fn find(rows: Seq<Row>, cf: Seq<char>, key: Seq<u8>) -> Option<Seq<u8>> {
    if exists|i: int| is_at(rows, i, cf, key) {
        Some(rows[choose|i: int| is_at(rows, i, cf, key)].value@)
    } else {
        None
    }
}

/// Whether the rows are in the order of their keys, with no key of a column family twice.
spec fn sorted(rows: Seq<Row>) -> bool {
    forall|i: int, j: int|
        #![trigger rows[i], rows[j]]
        0 <= i < j < rows.len() ==> {
            &&& key_le(rows[i].key@, rows[j].key@)
            &&& rows[i].cf@ == rows[j].cf@ ==> rows[i].key@ != rows[j].key@
        }
}

/// A row that holds the value under a key is the one that is found.
proof fn found_at(rows: Seq<Row>, i: int, cf: Seq<char>, key: Seq<u8>)
    requires
        sorted(rows),
        is_at(rows, i, cf, key),
    ensures
        find(rows, cf, key) == Some(rows[i].value@),
{
    let j = choose|j: int| is_at(rows, j, cf, key);
    assert(rows[i].cf@ == rows[j].cf@);
}

/// The row that holds the value under a key of a column family, if there is one.
fn position(rows: &Vec<Row>, cf: &str, key: &[u8]) -> (at: Option<usize>)
    ensures
        match at {
            Some(i) => is_at(rows@, i as int, cf@, key@),
            None => forall|i: int| !is_at(rows@, i, cf@, key@),
        },
{
    let mut i: usize = 0;
    while i < rows.len()
        invariant
            i <= rows@.len(),
            forall|j: int| 0 <= j < i ==> !is_at(rows@, j, cf@, key@),
        decreases rows@.len() - i,
    {
        if same_name(rows[i].cf, cf) {
            match compare(rows[i].key.as_slice(), key) {
                KeyOrder::Equal => {
                    return Some(i);
                },
                _ => {},
            }
        }
        i += 1;
    }
    None
}

/// Stores a value under a key of a column family.
fn put_row(rows: &mut Vec<Row>, cf: CfName, key: &Key, value: &Value)
    requires
        sorted(old(rows)@),
    ensures
        sorted(final(rows)@),
        forall|c: Seq<char>, k: Seq<u8>|
            #![trigger find(final(rows)@, c, k)]
            find(final(rows)@, c, k) == Modify::Put(cf, *key, *value).effect(
                c,
                k,
                find(old(rows)@, c, k),
            ),
{
    let ghost before = rows@;
    let row = Row { cf, key: key.encoded().clone(), value: value.clone() };
    match position(rows, cf, key.encoded().as_slice()) {
        Some(i) => {
            rows.set(i, row);
            proof {
                assert forall|c: Seq<char>, k: Seq<u8>| #![trigger find(rows@, c, k)]
                    find(rows@, c, k) == Modify::Put(cf, *key, *value).effect(
                        c,
                        k,
                        find(before, c, k),
                    ) by {
                    if exists|j: int| is_at(before, j, c, k) {
                        let j = choose|j: int| is_at(before, j, c, k);
                        assert(is_at(rows@, j, c, k));
                        found_at(before, j, c, k);
                        found_at(rows@, j, c, k);
                    } else if exists|j: int| is_at(rows@, j, c, k) {
                        let j = choose|j: int| is_at(rows@, j, c, k);
                        assert(is_at(before, j, c, k));
                    }
                    if c == cf@ && k == key@ {
                        assert(is_at(rows@, i as int, c, k));
                        found_at(rows@, i as int, c, k);
                    }
                }
            }
        },
        None => {
            let mut n: usize = 0;
            while n < rows.len() && compare(rows[n].key.as_slice(), key.encoded().as_slice())
                != KeyOrder::Greater
                invariant
                    n <= rows@.len(),
                    rows@ == before,
                    forall|j: int| 0 <= j < n ==> key_le(#[trigger] rows@[j].key@, key@),
                decreases rows@.len() - n,
            {
                n += 1;
            }
            rows.insert(n, row);
            proof {
                assert(rows@ == before.insert(n as int, row));
                assert forall|i: int, j: int| #![trigger rows@[i], rows@[j]]
                    0 <= i < j < rows@.len() implies {
                    &&& key_le(rows@[i].key@, rows@[j].key@)
                    &&& rows@[i].cf@ == rows@[j].cf@ ==> rows@[i].key@ != rows@[j].key@
                } by {
                    let a = if i < n { i } else { i - 1 };
                    let b = if j < n { j } else { j - 1 };
                    assert(i != n ==> rows@[i] == before[a]);
                    assert(j != n ==> rows@[j] == before[b]);
                    assert(!is_at(before, a, cf@, key@));
                    assert(!is_at(before, b, cf@, key@));
                    if i == n && b > n {
                        let next = before[n as int];
                        if next.key@ != before[b].key@ {
                            key_lt_transitive(key@, next.key@, before[b].key@);
                        }
                    }
                }
                assert forall|c: Seq<char>, k: Seq<u8>| #![trigger find(rows@, c, k)]
                    find(rows@, c, k) == Modify::Put(cf, *key, *value).effect(
                        c,
                        k,
                        find(before, c, k),
                    ) by {
                    if c == cf@ && k == key@ {
                        assert(is_at(rows@, n as int, c, k));
                        found_at(rows@, n as int, c, k);
                    } else if exists|j: int| is_at(before, j, c, k) {
                        let j = choose|j: int| is_at(before, j, c, k);
                        let at = if j < n { j } else { j + 1 };
                        assert(is_at(rows@, at, c, k));
                        found_at(before, j, c, k);
                        found_at(rows@, at, c, k);
                    } else if exists|j: int| is_at(rows@, j, c, k) {
                        let j = choose|j: int| is_at(rows@, j, c, k);
                        assert(is_at(before, if j < n { j } else { j - 1 }, c, k));
                    }
                }
            }
        },
    }
}

/// Whether the change removes a key of a column family.
spec fn removes(modify: Modify, cf: Seq<char>, key: Seq<u8>) -> bool {
    match modify {
        Modify::Delete(c, k) => c@ == cf && k@ == key,
        Modify::Put(_, _, _) => false,
        Modify::DeleteRange(c, start, end) => c@ == cf && key_le(start@, key) && key_lt(key, end@),
    }
}

/// Whether the change removes a row.
fn is_removed(modify: &Modify, row: &Row) -> (removed: bool)
    ensures
        removed == removes(*modify, row.cf@, row.key@),
{
    match modify {
        Modify::Delete(cf, key) => same_name(cf, row.cf) && compare(
            key.encoded().as_slice(),
            row.key.as_slice(),
        ) == KeyOrder::Equal,
        Modify::Put(_, _, _) => false,
        Modify::DeleteRange(cf, start, end) => {
            proof {
                key_lt_total(start@, row.key@);
                key_lt_total(row.key@, end@);
            }
            same_name(cf, row.cf) && compare(start.encoded().as_slice(), row.key.as_slice())
                != KeyOrder::Greater && compare(row.key.as_slice(), end.encoded().as_slice())
                == KeyOrder::Less
        },
    }
}

/// Without one row, the rows hold what they held but for the key of that row.
proof fn row_removed(rows: Seq<Row>, i: int)
    requires
        sorted(rows),
        0 <= i < rows.len(),
    ensures
        sorted(rows.remove(i)),
        forall|c: Seq<char>, k: Seq<u8>|
            #![trigger find(rows.remove(i), c, k)]
            !is_at(rows, i, c, k) ==> find(rows.remove(i), c, k) == find(rows, c, k),
{
    let after = rows.remove(i);
    assert forall|a: int, b: int| #![trigger after[a], after[b]] 0 <= a < b < after.len() implies {
        &&& key_le(after[a].key@, after[b].key@)
        &&& after[a].cf@ == after[b].cf@ ==> after[a].key@ != after[b].key@
    } by {
        assert(after[a] == rows[if a < i { a } else { a + 1 }]);
        assert(after[b] == rows[if b < i { b } else { b + 1 }]);
    }
    assert forall|c: Seq<char>, k: Seq<u8>|
        #![trigger find(after, c, k)]
        !is_at(rows, i, c, k) implies find(after, c, k) == find(rows, c, k) by {
        if exists|j: int| is_at(rows, j, c, k) {
            let j = choose|j: int| is_at(rows, j, c, k);
            let at = if j < i { j } else { j - 1 };
            assert(is_at(after, at, c, k));
            found_at(rows, j, c, k);
            found_at(after, at, c, k);
        } else if exists|j: int| is_at(after, j, c, k) {
            let j = choose|j: int| is_at(after, j, c, k);
            assert(is_at(rows, if j < i { j } else { j + 1 }, c, k));
        }
    }
}

/// Takes the rows out that a change removes.
fn remove_rows(rows: &mut Vec<Row>, modify: &Modify)
    requires
        sorted(old(rows)@),
        !(modify is Put),
    ensures
        sorted(final(rows)@),
        forall|c: Seq<char>, k: Seq<u8>|
            #![trigger find(final(rows)@, c, k)]
            find(final(rows)@, c, k) == modify.effect(c, k, find(old(rows)@, c, k)),
{
    let ghost before = rows@;
    let mut i: usize = 0;
    while i < rows.len()
        invariant
            i <= rows@.len(),
            sorted(rows@),
            forall|j: int|
                #![trigger rows@[j]]
                0 <= j < i ==> !removes(*modify, rows@[j].cf@, rows@[j].key@),
            forall|c: Seq<char>, k: Seq<u8>|
                #![trigger find(rows@, c, k)]
                !removes(*modify, c, k) ==> find(rows@, c, k) == find(before, c, k),
        decreases rows@.len() - i,
    {
        if is_removed(modify, &rows[i]) {
            proof {
                row_removed(rows@, i as int);
            }
            rows.remove(i);
        } else {
            i += 1;
        }
    }
}

/// A copy of the rows.
fn copy_rows(held: &Vec<Row>) -> (rows: Vec<Row>)
    requires
        sorted(held@),
    ensures
        sorted(rows@),
        forall|cf: Seq<char>, key: Seq<u8>| #[trigger]
            find(rows@, cf, key) == find(held@, cf, key),
{
    let mut rows: Vec<Row> = Vec::new();
    let mut i: usize = 0;
    while i < held.len()
        invariant
            i <= held@.len(),
            rows@.len() == i,
            forall|j: int|
                #![trigger rows@[j]]
                0 <= j < i ==> rows@[j].cf == held@[j].cf && rows@[j].key@
                    == held@[j].key@ && rows@[j].value@ == held@[j].value@,
        decreases held@.len() - i,
    {
        let row = &held[i];
        rows.push(Row { cf: row.cf, key: row.key.clone(), value: row.value.clone() });
        i += 1;
    }
    proof {
        assert forall|a: int, b: int| #![trigger rows@[a], rows@[b]] 0 <= a < b < rows@.len()
            implies {
            &&& key_le(rows@[a].key@, rows@[b].key@)
            &&& rows@[a].cf@ == rows@[b].cf@ ==> rows@[a].key@ != rows@[b].key@
        } by {
            assert(key_le(held@[a].key@, held@[b].key@));
        }
        assert forall|cf: Seq<char>, key: Seq<u8>| #[trigger]
            find(rows@, cf, key) == find(held@, cf, key) by {
            if exists|j: int| is_at(held@, j, cf, key) {
                let j = choose|j: int| is_at(held@, j, cf, key);
                assert(is_at(rows@, j, cf, key));
                found_at(held@, j, cf, key);
                found_at(rows@, j, cf, key);
            } else if exists|j: int| is_at(rows@, j, cf, key) {
                let j = choose|j: int| is_at(rows@, j, cf, key);
                assert(is_at(held@, j, cf, key));
            }
        }
    }
    rows
}

/// A store that keeps its entries in memory.
#[derive(Debug)]
pub struct MemoryStore {
    rows: Vec<Row>,
}

impl MemoryStore {
    #[verifier::type_invariant]
    spec fn inv(self) -> bool {
        sorted(self.rows@)
    }

    /// The value under a key of a column family, if there is one.
    pub closed spec fn lookup(&self, cf: Seq<char>, key: Seq<u8>) -> Option<Seq<u8>> {
        find(self.rows@, cf, key)
    }

    /// Whether the store holds what `before` held with the changes of the batch made.
    pub open spec fn is_made_from(self, before: MemoryStore, batch: Seq<Modify>) -> bool {
        forall|cf: Seq<char>, key: Seq<u8>| #[trigger]
            self.lookup(cf, key) == batch_effect(batch, cf, key, before.lookup(cf, key))
    }

    /// A store with nothing in it.
    pub fn new() -> (store: MemoryStore)
        ensures
            forall|cf: Seq<char>, key: Seq<u8>| #[trigger] store.lookup(cf, key) is None,
    {
        MemoryStore { rows: Vec::new() }
    }

    /// Makes the changes of a batch, one after the other. A batch with no change in it is
    /// refused.
    pub fn write(&mut self, batch: &Vec<Modify>) -> (result: Result<()>)
        ensures
            batch@.len() == 0 ==> result == Err::<(), Error>(Error::EmptyRequest),
            batch@.len() == 0 ==> *final(self) == *old(self),
            batch@.len() > 0 ==> result is Ok,
            final(self).is_made_from(*old(self), batch@),
            forall|cf: Seq<char>, key: Seq<u8>| #[trigger]
                final(self).lookup(cf, key) == batch_effect(
                    batch@,
                    cf,
                    key,
                    old(self).lookup(cf, key),
                ),
    {
        proof {
            use_type_invariant(&*self);
        }
        if batch.len() == 0 {
            return Err(Error::EmptyRequest);
        }
        let ghost before = self.rows@;
        let mut rows: Vec<Row> = Vec::new();
        std::mem::swap(&mut rows, &mut self.rows);
        let mut i: usize = 0;
        while i < batch.len()
            invariant
                i <= batch@.len(),
                sorted(rows@),
                forall|cf: Seq<char>, key: Seq<u8>| #[trigger]
                    find(rows@, cf, key) == batch_effect(
                        batch@.take(i as int),
                        cf,
                        key,
                        find(before, cf, key),
                    ),
            decreases batch@.len() - i,
        {
            let ghost held = rows@;
            match &batch[i] {
                Modify::Put(cf, key, value) => {
                    put_row(&mut rows, *cf, key, value);
                },
                modify => {
                    remove_rows(&mut rows, modify);
                },
            }
            proof {
                let done = batch@.take(i + 1);
                assert(done.drop_last() =~= batch@.take(i as int));
                assert forall|cf: Seq<char>, key: Seq<u8>| #[trigger]
                    find(rows@, cf, key) == batch_effect(done, cf, key, find(before, cf, key)) by {
                    assert(find(held, cf, key) == batch_effect(
                        batch@.take(i as int),
                        cf,
                        key,
                        find(before, cf, key),
                    ));
                }
            }
            i += 1;
        }
        assert(batch@.take(i as int) =~= batch@);
        self.rows = rows;
        Ok(())
    }

    /// What the store holds now.
    pub fn snapshot(&self) -> (snapshot: MemorySnapshot)
        ensures
            forall|cf: Seq<char>, key: Seq<u8>| #[trigger]
                snapshot.lookup(cf, key) == self.lookup(cf, key),
    {
        proof {
            use_type_invariant(self);
        }
        MemorySnapshot { rows: copy_rows(&self.rows) }
    }
}

/// What a store in memory held at one time.
#[derive(Debug)]
pub struct MemorySnapshot {
    rows: Vec<Row>,
}

impl Clone for MemorySnapshot {
    fn clone(&self) -> (copy: MemorySnapshot)
        ensures
            forall|cf: Seq<char>, key: Seq<u8>| #[trigger]
                copy.lookup(cf, key) == self.lookup(cf, key),
    {
        proof {
            use_type_invariant(self);
        }
        MemorySnapshot { rows: copy_rows(&self.rows) }
    }
}

impl MemorySnapshot {
    #[verifier::type_invariant]
    spec fn inv(self) -> bool {
        sorted(self.rows@)
    }
}

impl Snapshot for MemorySnapshot {
    type Iter = MemoryIterator;

    /// Every iterator walks over all entries of its column family.
    type IterOption = ();

    type Properties = ();

    closed spec fn lookup(&self, cf: Seq<char>, key: Seq<u8>) -> Option<Seq<u8>> {
        find(self.rows@, cf, key)
    }

    open spec fn spans(iter_opt: (), key: Seq<u8>) -> bool {
        true
    }

    fn get(&self, key: &Key) -> (value: Result<Option<Value>>)
        ensures
            value is Ok,
    {
        self.get_cf(CF_DEFAULT, key)
    }

    fn get_cf(&self, cf: CfName, key: &Key) -> (value: Result<Option<Value>>)
        ensures
            value is Ok,
    {
        proof {
            use_type_invariant(self);
        }
        match position(&self.rows, cf, key.encoded().as_slice()) {
            Some(i) => {
                proof {
                    found_at(self.rows@, i as int, cf@, key@);
                }
                Ok(Some(self.rows[i].value.clone()))
            },
            None => Ok(None),
        }
    }

    fn iter(&self, iter_opt: (), mode: ScanMode) -> (cursor: Result<Cursor<MemoryIterator>>)
        ensures
            cursor matches Ok(c) && c@.at is None && c@.source.refusals == Set::<Refusal>::empty(),
    {
        self.iter_cf(CF_DEFAULT, iter_opt, mode)
    }

    fn iter_cf(&self, cf: CfName, iter_opt: (), mode: ScanMode) -> (cursor: Result<
        Cursor<MemoryIterator>,
    >)
        ensures
            cursor matches Ok(c) && c@.at is None && c@.source.refusals == Set::<Refusal>::empty(),
    {
        proof {
            use_type_invariant(self);
        }
        let mut rows: Vec<(Vec<u8>, Vec<u8>)> = Vec::new();
        // the row that each entry was taken from
        let ghost mut from: Seq<int> = Seq::empty();
        let mut i: usize = 0;
        while i < self.rows.len()
            invariant
                i <= self.rows@.len(),
                from.len() == rows@.len(),
                forall|a: int|
                    #![trigger from[a]]
                    #![trigger rows@[a]]
                    0 <= a < from.len() ==> {
                        &&& 0 <= from[a] < i
                        &&& self.rows@[from[a]].cf@ == cf@
                        &&& rows@[a].0@ == self.rows@[from[a]].key@
                        &&& rows@[a].1@ == self.rows@[from[a]].value@
                    },
                forall|a: int, b: int|
                    #![trigger from[a], from[b]]
                    0 <= a < b < from.len() ==> from[a] < from[b],
                forall|j: int|
                    #![trigger self.rows@[j]]
                    0 <= j < i && self.rows@[j].cf@ == cf@ ==> from.contains(j),
            decreases self.rows@.len() - i,
        {
            let row = &self.rows[i];
            if same_name(row.cf, cf) {
                let ghost taken = from;
                rows.push((row.key.clone(), row.value.clone()));
                proof {
                    from = from.push(i as int);
                    assert(from[taken.len() as int] == i);
                    assert forall|j: int| #![trigger self.rows@[j]]
                        0 <= j < i + 1 && self.rows@[j].cf@ == cf@ implies from.contains(j) by {
                        if j < i {
                            let a = choose|a: int| 0 <= a < taken.len() && taken[a] == j;
                            assert(from[a] == j);
                        }
                    }
                }
            }
            i += 1;
        }
        let ghost entries = entries_of(rows@);
        proof {
            assert forall|a: int, b: int| #![trigger entries[a], entries[b]]
                0 <= a < b < entries.len() implies key_lt(entries[a].0, entries[b].0) by {
                let (x, y) = (from[a], from[b]);
                assert(key_le(self.rows@[x].key@, self.rows@[y].key@));
            }
            assert forall|k: Seq<u8>, v: Seq<u8>| #[trigger]
                entries.contains((k, v)) <==> find(self.rows@, cf@, k) == Some(v) by {
                if entries.contains((k, v)) {
                    let a = choose|a: int| 0 <= a < entries.len() && entries[a] == (k, v);
                    let x = from[a];
                    assert(is_at(self.rows@, x, cf@, k));
                    found_at(self.rows@, x, cf@, k);
                }
                if find(self.rows@, cf@, k) == Some(v) {
                    let j = choose|j: int| is_at(self.rows@, j, cf@, k);
                    let row = self.rows@[j];
                    let a = choose|a: int| 0 <= a < from.len() && from[a] == j;
                    assert(entries[a] == (k, v));
                }
            }
        }
        Ok(Cursor::new(MemoryIterator::new(rows), mode))
    }
}

} // verus!
