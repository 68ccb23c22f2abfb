//! What a cursor walks over: the entries of a snapshot in the order of their keys.
use crate::error::{Error, Result};
use crate::key::{key_le, key_lt, key_lt_total, key_lt_transitive, Key};
use vstd::prelude::*;

verus! {

/// A key and the value stored under it.
pub type Entry = (Seq<u8>, Seq<u8>);

/// A request about a key that an iterator may refuse.
pub enum Request {
    /// Move to the first entry whose key is not before the key.
    Seek,
    /// Move to the last entry whose key is not after the key.
    SeekForPrev,
    /// Say whether the key may be asked about.
    Validate,
}

/// A request, the key it is about, and the error that it may be refused with.
pub struct Refusal {
    pub request: Request,
    pub key: Seq<u8>,
    pub error: Error,
}

/// What stays the same of an iterator while it moves: the entries it walks over, and
/// the refusals that it may answer with.
pub struct Source {
    pub entries: Seq<Entry>,
    pub refusals: Set<Refusal>,
}

impl Source {
    /// Whether the iterator may refuse the request about the key with this error.
    pub open spec fn may_refuse(self, request: Request, key: Seq<u8>, error: Error) -> bool {
        self.refusals.contains(Refusal { request, key, error })
    }

    /// Whether the iterator refuses no request.
    pub open spec fn refuses_nothing(self) -> bool {
        forall|refusal: Refusal| !self.refusals.contains(refusal)
    }
}

/// Whether the entries stand in the order of their keys, with no key twice.
pub open spec fn ordered(entries: Seq<Entry>) -> bool {
    forall|i: int, j: int|
        #![trigger entries[i], entries[j]]
        0 <= i < j < entries.len() ==> key_lt(entries[i].0, entries[j].0)
}

/// How many entries have a key before `t`; this is where the first entry stands whose
/// key is not before `t`.
pub open spec fn lower_bound(entries: Seq<Entry>, t: Seq<u8>) -> int
    decreases entries.len(),
{
    if entries.len() == 0 {
        0
    } else if key_lt(entries.last().0, t) {
        entries.len() as int
    } else {
        lower_bound(entries.drop_last(), t)
    }
}

/// How many entries have a key that is not after `t`; the last of them stands just
/// before this position.
pub open spec fn upper_bound(entries: Seq<Entry>, t: Seq<u8>) -> int
    decreases entries.len(),
{
    if entries.len() == 0 {
        0
    } else if key_le(entries.last().0, t) {
        entries.len() as int
    } else {
        upper_bound(entries.drop_last(), t)
    }
}

/// The two bounds part the entries: before the lower bound stand the keys before `t`,
/// from the upper bound on stand the keys after `t`, and between them stands `t`
/// itself, or nothing.
pub proof fn bounds_part_entries(entries: Seq<Entry>, t: Seq<u8>)
    requires
        ordered(entries),
    ensures
        0 <= lower_bound(entries, t) <= upper_bound(entries, t) <= entries.len(),
        upper_bound(entries, t) <= lower_bound(entries, t) + 1,
        forall|i: int|
            #![trigger entries[i]]
            0 <= i < lower_bound(entries, t) ==> key_lt(entries[i].0, t),
        forall|i: int|
            #![trigger entries[i]]
            lower_bound(entries, t) <= i < upper_bound(entries, t) ==> entries[i].0 == t,
        forall|i: int|
            #![trigger entries[i]]
            upper_bound(entries, t) <= i < entries.len() ==> key_lt(t, entries[i].0),
    decreases entries.len(),
{
    if entries.len() > 0 {
        let rest = entries.drop_last();
        let last = entries.last();
        assert(ordered(rest)) by {
            assert forall|i: int, j: int|
                #![trigger rest[i], rest[j]]
                0 <= i < j < rest.len() implies key_lt(rest[i].0, rest[j].0) by {
                assert(rest[i] == entries[i] && rest[j] == entries[j]);
            }
        }
        bounds_part_entries(rest, t);
        assert forall|i: int| #![trigger entries[i]] 0 <= i < rest.len() implies key_lt(
            entries[i].0,
            last.0,
        ) by {
            assert(last == entries[entries.len() - 1]);
        }
        assert(forall|i: int|
            #![trigger entries[i]]
            0 <= i < rest.len() ==> entries[i] == rest[i]);
        key_lt_total(last.0, t);
        if key_lt(last.0, t) {
            assert forall|i: int| #![trigger entries[i]] 0 <= i < entries.len() implies key_lt(
                entries[i].0,
                t,
            ) by {
                if i < rest.len() {
                    key_lt_transitive(entries[i].0, last.0, t);
                }
            }
        } else if last.0 == t {
            assert(lower_bound(entries, t) == rest.len()) by {
                if lower_bound(rest, t) < rest.len() {
                    let i = lower_bound(rest, t);
                    assert(rest[i] == entries[i]);
                    key_lt_total(entries[i].0, t);
                }
            }
        }
    }
}

/// The lower bound is the one position before which all keys are before `t`, and at which
/// no key before `t` stands.
pub proof fn lower_bound_is(entries: Seq<Entry>, t: Seq<u8>, n: int)
    requires
        ordered(entries),
        0 <= n <= entries.len(),
        forall|i: int| #![trigger entries[i]] 0 <= i < n ==> key_lt(entries[i].0, t),
        n < entries.len() ==> !key_lt(entries[n].0, t),
    ensures
        lower_bound(entries, t) == n,
{
    bounds_part_entries(entries, t);
    let b = lower_bound(entries, t);
    if b < n {
        key_lt_total(entries[b].0, t);
    }
}

/// How many bytes the keys of the entries from `from` on, up to but without `to`, hold.
pub open spec fn key_bytes(entries: Seq<Entry>, from: int, to: int) -> nat
    decreases to - from,
{
    if from >= to {
        0
    } else {
        key_bytes(entries, from, to - 1) + entries[to - 1].0.len()
    }
}

/// A stretch of entries holds the bytes of its two parts.
pub proof fn key_bytes_split(entries: Seq<Entry>, from: int, mid: int, to: int)
    requires
        from <= mid <= to,
    ensures
        key_bytes(entries, from, to) == key_bytes(entries, from, mid) + key_bytes(
            entries,
            mid,
            to,
        ),
    decreases to - mid,
{
    if mid < to {
        key_bytes_split(entries, from, mid, to - 1);
    }
}

/// Whether the entries are in order and `at` is the place of one of them or of none.
pub open spec fn stands_in_order(source: Source, at: Option<int>) -> bool {
    &&& ordered(source.entries)
    &&& at matches Some(i) ==> 0 <= i < source.entries.len()
}

/// An iterator over the entries of a snapshot.
///
/// It stands at an entry, and is then valid, or at none. It walks over the entries in
/// the order of their keys; what it walks over stays the same while it moves.
///
/// An implementation in ordinary Rust leaves the spec functions as they are, and answers
/// for the contracts of the methods itself.
pub trait Iterator: Send + Sized {
    /// The entries it walks over, and the refusals it may answer with.
    closed spec fn source(&self) -> Source {
        arbitrary()
    }

    /// The entry at which it stands, if it stands at one.
    closed spec fn at(&self) -> Option<int> {
        arbitrary()
    }

    /// Moves to the next entry, and says whether there is one. Where it goes from no
    /// entry at all is left open.
    fn next(&mut self) -> (valid: bool)
        requires
            stands_in_order(old(self).source(), old(self).at()),
        ensures
            stands_in_order(final(self).source(), final(self).at()),
            final(self).source() == old(self).source(),
            valid == (final(self).at() is Some),
            old(self).at() matches Some(i) ==> final(self).at() == (if i + 1 < old(
                self,
            ).source().entries.len() {
                Some(i + 1)
            } else {
                None
            }),
    ;

    /// Moves to the entry before, and says whether there is one. Where it goes from no
    /// entry at all is left open.
    fn prev(&mut self) -> (valid: bool)
        requires
            stands_in_order(old(self).source(), old(self).at()),
        ensures
            stands_in_order(final(self).source(), final(self).at()),
            final(self).source() == old(self).source(),
            valid == (final(self).at() is Some),
            old(self).at() matches Some(i) ==> final(self).at() == (if i > 0 {
                Some(i - 1)
            } else {
                None
            }),
    ;

    /// Moves to the first entry whose key is not before `key`, and says whether there
    /// is one. Where it stands after a refusal is left open.
    fn seek(&mut self, key: &Key) -> (found: Result<bool>)
        requires
            stands_in_order(old(self).source(), old(self).at()),
        ensures
            stands_in_order(final(self).source(), final(self).at()),
            final(self).source() == old(self).source(),
            match found {
                Ok(found) => {
                    let n = lower_bound(old(self).source().entries, key@);
                    &&& found == (n < old(self).source().entries.len())
                    &&& final(self).at() == (if found {
                        Some(n)
                    } else {
                        None
                    })
                },
                Err(e) => old(self).source().may_refuse(Request::Seek, key@, e),
            },
    ;

    /// Moves to the last entry whose key is not after `key`, and says whether there is
    /// one. Where it stands after a refusal is left open.
    fn seek_for_prev(&mut self, key: &Key) -> (found: Result<bool>)
        requires
            stands_in_order(old(self).source(), old(self).at()),
        ensures
            stands_in_order(final(self).source(), final(self).at()),
            final(self).source() == old(self).source(),
            match found {
                Ok(found) => {
                    let n = upper_bound(old(self).source().entries, key@);
                    &&& found == (n > 0)
                    &&& final(self).at() == (if found {
                        Some(n - 1)
                    } else {
                        None
                    })
                },
                Err(e) => old(self).source().may_refuse(Request::SeekForPrev, key@, e),
            },
    ;

    /// Moves to the first entry, and says whether there is one.
    fn seek_to_first(&mut self) -> (valid: bool)
        requires
            stands_in_order(old(self).source(), old(self).at()),
        ensures
            stands_in_order(final(self).source(), final(self).at()),
            final(self).source() == old(self).source(),
            valid == (old(self).source().entries.len() > 0),
            final(self).at() == (if valid {
                Some(0int)
            } else {
                None
            }),
    ;

    /// Moves to the last entry, and says whether there is one.
    fn seek_to_last(&mut self) -> (valid: bool)
        requires
            stands_in_order(old(self).source(), old(self).at()),
        ensures
            stands_in_order(final(self).source(), final(self).at()),
            final(self).source() == old(self).source(),
            valid == (old(self).source().entries.len() > 0),
            final(self).at() == (if valid {
                Some(old(self).source().entries.len() - 1)
            } else {
                None
            }),
    ;

    /// Whether it stands at an entry.
    fn valid(&self) -> (valid: bool)
        ensures
            valid == (self.at() is Some),
    ;

    /// Refuses a key that may not be asked about. Unless an iterator says otherwise,
    /// every key may be.
    fn validate_key(&self, key: &Key) -> (answer: Result<()>)
        ensures
            answer matches Err(e) ==> self.source().may_refuse(Request::Validate, key@, e),
        default_ensures
            answer is Ok,
    {
        Ok(())
    }

    /// The key of the entry at which it stands.
    fn key(&self) -> (key: &[u8])
        requires
            stands_in_order(self.source(), self.at()),
            self.at() is Some,
        ensures
            key@ == self.source().entries[self.at()->0].0,
    ;

    /// The value of the entry at which it stands.
    fn value(&self) -> (value: &[u8])
        requires
            stands_in_order(self.source(), self.at()),
            self.at() is Some,
        ensures
            value@ == self.source().entries[self.at()->0].1,
    ;
}

} // verus!
