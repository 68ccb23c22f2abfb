//! A cursor: an iterator that seeks by steps where that is cheaper, remembers what it
//! has learnt about the ends of the entries, and counts what it does.
use crate::error::{Error, Result};
use crate::iterator::{bounds_part_entries, key_bytes, key_bytes_split, stands_in_order};
use crate::iterator::{Iterator, Request};
use crate::key::{compare, key_lt, key_lt_total, key_lt_transitive, Key, KeyOrder};
use crate::scan::{Charge, CursorView, ScanMode, SEEK_BOUND};
use crate::statistics::CFStatistics;
use vstd::prelude::*;

verus! {

/// A cursor over the entries of a snapshot.
pub struct Cursor<I: Iterator> {
    iter: I,
    scan_mode: ScanMode,
    // all entries come after `min_key` and before `max_key`
    min_key: Option<Vec<u8>>,
    max_key: Option<Vec<u8>>,
    is_key_read: bool,
    is_value_read: bool,
}

/// The bytes of a key that may be there.
spec fn bytes_of(key: Option<Vec<u8>>) -> Option<Seq<u8>> {
    match key {
        Some(k) => Some(k@),
        None => None,
    }
}

/// Whether the path goes on from its place `k`.
pub open spec fn goes_on<T>(path: Seq<T>, k: int) -> bool {
    0 <= k < path.len() - 1
}

impl<I: Iterator> View for Cursor<I> {
    type V = CursorView;

    closed spec fn view(&self) -> CursorView {
        CursorView {
            source: self.iter.source(),
            at: self.iter.at(),
            mode: self.scan_mode,
            min_key: bytes_of(self.min_key),
            max_key: bytes_of(self.max_key),
            key_read: self.is_key_read,
            value_read: self.is_value_read,
        }
    }
}

impl<I: Iterator> Cursor<I> {
    /// The iterator with which it walks.
    pub closed spec fn iterator(self) -> I {
        self.iter
    }

    /// Whether the iterator's answer to whether the key may be asked about decides the
    /// answer: its refusal is handed on, and else no entry was found.
    pub open spec fn turned_down(self, key: &Key, found: Result<bool>) -> bool {
        exists|answer: Result<()>| #[trigger]
            call_ensures(I::validate_key, (&self.iterator(), key), answer) && found == (
            match answer {
                Ok(()) => Ok(false),
                Err(e) => Err(e),
            })
    }

    /// A cursor over the iterator, which has learnt and counted nothing yet.
    pub fn new(iter: I, mode: ScanMode) -> (cursor: Self)
        requires
            stands_in_order(iter.source(), iter.at()),
        ensures
            cursor@.wf(),
            cursor@.is_new(mode),
            cursor@.source == iter.source(),
            cursor@.at == iter.at(),
            cursor.iterator() == iter,
    {
        Self {
            iter,
            scan_mode: mode,
            min_key: None,
            max_key: None,
            is_key_read: false,
            is_value_read: false,
        }
    }

    /// The key at which the cursor stands.
    #[inline]
    pub fn key(&mut self, statistics: &mut CFStatistics) -> (key: &[u8])
        requires
            old(self)@.wf(),
            old(self)@.at is Some,
            old(self)@.key_charge().fits(*old(statistics)),
        ensures
            final(self)@.wf(),
            key@ == old(self)@.current_key(),
            final(self)@ == old(self)@.with_key_read(),
            final(self).iterator() == old(self).iterator(),
            old(self)@.key_charge().leads(*old(statistics), *final(statistics)),
    {
        let key = self.iter.key();
        if !self.is_key_read {
            self.is_key_read = true;
            statistics.flow_stats.read_bytes += key.len();
            statistics.flow_stats.read_keys += 1;
        }
        key
    }

    /// The value at which the cursor stands.
    #[inline]
    pub fn value(&mut self, statistics: &mut CFStatistics) -> (value: &[u8])
        requires
            old(self)@.wf(),
            old(self)@.at is Some,
            old(self)@.value_charge().fits(*old(statistics)),
        ensures
            final(self)@.wf(),
            value@ == old(self)@.entries()[old(self)@.at->0].1,
            final(self)@ == old(self)@.with_value_read(),
            final(self).iterator() == old(self).iterator(),
            old(self)@.value_charge().leads(*old(statistics), *final(statistics)),
    {
        let value = self.iter.value();
        if !self.is_value_read {
            self.is_value_read = true;
            statistics.flow_stats.read_bytes += value.len();
        }
        value
    }

    /// Moves to the first entry, and says whether there is one.
    #[inline]
    pub fn seek_to_first(&mut self, statistics: &mut CFStatistics) -> (valid: bool)
        requires
            old(self)@.wf(),
            Charge::one_seek().fits(*old(statistics)),
        ensures
            final(self)@.wf(),
            valid == (old(self)@.len() > 0),
            final(self)@ == old(self)@.moved(
                if valid {
                    Some(0)
                } else {
                    None
                },
            ),
            exists|iter: &mut I| #[trigger]
                call_ensures(I::seek_to_first, (iter,), valid) && *iter == old(self).iterator()
                    && *final(iter) == final(self).iterator(),
            Charge::one_seek().leads(*old(statistics), *final(statistics)),
    {
        statistics.seek += 1;
        self.is_key_read = false;
        self.is_value_read = false;
        self.iter.seek_to_first()
    }

    /// Moves to the last entry, and says whether there is one.
    #[inline]
    pub fn seek_to_last(&mut self, statistics: &mut CFStatistics) -> (valid: bool)
        requires
            old(self)@.wf(),
            Charge::one_seek().fits(*old(statistics)),
        ensures
            final(self)@.wf(),
            valid == (old(self)@.len() > 0),
            final(self)@ == old(self)@.moved(
                if valid {
                    Some(old(self)@.len() - 1)
                } else {
                    None
                },
            ),
            exists|iter: &mut I| #[trigger]
                call_ensures(I::seek_to_last, (iter,), valid) && *iter == old(self).iterator()
                    && *final(iter) == final(self).iterator(),
            Charge::one_seek().leads(*old(statistics), *final(statistics)),
    {
        statistics.seek += 1;
        self.is_key_read = false;
        self.is_value_read = false;
        self.iter.seek_to_last()
    }

    /// Moves to the next entry, and says whether there is one.
    #[inline]
    pub fn next(&mut self, statistics: &mut CFStatistics) -> (valid: bool)
        requires
            old(self)@.wf(),
            Charge::one_next().fits(*old(statistics)),
        ensures
            final(self)@.wf(),
            valid == (final(self)@.at is Some),
            final(self)@ == old(self)@.moved(final(self)@.at),
            old(self)@.at matches Some(i) ==> final(self)@.at == old(self)@.place_after(i),
            exists|iter: &mut I| #[trigger]
                call_ensures(I::next, (iter,), valid) && *iter == old(self).iterator()
                    && *final(iter) == final(self).iterator(),
            Charge::one_next().leads(*old(statistics), *final(statistics)),
    {
        statistics.next += 1;
        self.is_key_read = false;
        self.is_value_read = false;
        self.iter.next()
    }

    /// Moves to the entry before, and says whether there is one.
    #[inline]
    pub fn prev(&mut self, statistics: &mut CFStatistics) -> (valid: bool)
        requires
            old(self)@.wf(),
            Charge::one_prev().fits(*old(statistics)),
        ensures
            final(self)@.wf(),
            valid == (final(self)@.at is Some),
            final(self)@ == old(self)@.moved(final(self)@.at),
            old(self)@.at matches Some(i) ==> final(self)@.at == old(self)@.place_before(i),
            exists|iter: &mut I| #[trigger]
                call_ensures(I::prev, (iter,), valid) && *iter == old(self).iterator()
                    && *final(iter) == final(self).iterator(),
            Charge::one_prev().leads(*old(statistics), *final(statistics)),
    {
        statistics.prev += 1;
        self.is_key_read = false;
        self.is_value_read = false;
        self.iter.prev()
    }

    /// Whether the cursor stands at an entry.
    #[inline]
    pub fn valid(&self) -> (valid: bool)
        ensures
            valid == (self@.at is Some),
    {
        self.iter.valid()
    }

    /// Has the iterator seek the first entry whose key is not before `key`.
    #[inline]
    pub fn internal_seek(&mut self, key: &Key, statistics: &mut CFStatistics) -> (found: Result<
        bool,
    >)
        requires
            old(self)@.wf(),
            Charge::one_seek().fits(*old(statistics)),
        ensures
            final(self)@.wf(),
            final(self)@ == old(self)@.moved(final(self)@.at),
            match found {
                Ok(found) => {
                    let n = old(self)@.first_from(key@);
                    &&& found == (n < old(self)@.len())
                    &&& final(self)@.at == (if found {
                        Some(n)
                    } else {
                        None
                    })
                },
                Err(e) => old(self)@.source.may_refuse(Request::Seek, key@, e),
            },
            exists|iter: &mut I| #[trigger]
                call_ensures(I::seek, (iter, key), found) && *iter == old(self).iterator()
                    && *final(iter) == final(self).iterator(),
            Charge::one_seek().leads(*old(statistics), *final(statistics)),
    {
        statistics.seek += 1;
        self.is_key_read = false;
        self.is_value_read = false;
        self.iter.seek(key)
    }

    /// Has the iterator seek the last entry whose key is not after `key`.
    #[inline]
    pub fn internal_seek_for_prev(
        &mut self,
        key: &Key,
        statistics: &mut CFStatistics,
    ) -> (found: Result<bool>)
        requires
            old(self)@.wf(),
            Charge::one_seek_for_prev().fits(*old(statistics)),
        ensures
            final(self)@.wf(),
            final(self)@ == old(self)@.moved(final(self)@.at),
            match found {
                Ok(found) => {
                    let n = old(self)@.end_upto(key@);
                    &&& found == (n > 0)
                    &&& final(self)@.at == (if found {
                        Some(n - 1)
                    } else {
                        None
                    })
                },
                Err(e) => old(self)@.source.may_refuse(Request::SeekForPrev, key@, e),
            },
            exists|iter: &mut I| #[trigger]
                call_ensures(I::seek_for_prev, (iter, key), found) && *iter == old(self).iterator()
                    && *final(iter) == final(self).iterator(),
            Charge::one_seek_for_prev().leads(*old(statistics), *final(statistics)),
    {
        statistics.seek_for_prev += 1;
        self.is_key_read = false;
        self.is_value_read = false;
        self.iter.seek_for_prev(key)
    }

    /// Whether the cursor knows that no key from `key` on is there.
    fn is_past_end(&self, key: &Key) -> (known: bool)
        ensures
            known == self@.knows_none_from(key@),
    {
        match &self.max_key {
            Some(k) => {
                proof {
                    key_lt_total(k@, key@);
                }
                match compare(k.as_slice(), key.encoded().as_slice()) {
                    KeyOrder::Greater => false,
                    _ => true,
                }
            },
            None => false,
        }
    }

    /// Whether the cursor knows that no key up to `key` is there.
    fn is_before_start(&self, key: &Key) -> (known: bool)
        ensures
            known == self@.knows_none_upto(key@),
    {
        match &self.min_key {
            Some(k) => {
                proof {
                    key_lt_total(k@, key@);
                }
                match compare(k.as_slice(), key.encoded().as_slice()) {
                    KeyOrder::Less => false,
                    _ => true,
                }
            },
            None => false,
        }
    }

    /// Has the iterator refuse the key if it may not be asked about; else answers that
    /// no entry was found.
    fn turn_down(&self, key: &Key) -> (found: Result<bool>)
        ensures
            self.turned_down(key, found),
            match found {
                Ok(found) => !found,
                Err(e) => self@.source.may_refuse(Request::Validate, key@, e),
            },
    {
        match self.iter.validate_key(key) {
            Ok(()) => Ok(false),
            Err(e) => Err(e),
        }
    }

    /// Remembers that no key from `key` on is there.
    fn remember_end(&mut self, key: &Key)
        requires
            old(self)@.wf(),
            old(self)@.first_from(key@) == old(self)@.len(),
        ensures
            final(self)@.wf(),
            final(self)@ == (CursorView { max_key: Some(key@), ..old(self)@ }),
            final(self).iterator() == old(self).iterator(),
    {
        proof {
            bounds_part_entries(self@.entries(), key@);
        }
        self.max_key = Some(key.encoded().clone());
    }

    /// Remembers that no key up to `key` is there.
    fn remember_start(&mut self, key: &Key)
        requires
            old(self)@.wf(),
            old(self)@.end_upto(key@) == 0,
        ensures
            final(self)@.wf(),
            final(self)@ == (CursorView { min_key: Some(key@), ..old(self)@ }),
            final(self).iterator() == old(self).iterator(),
    {
        proof {
            bounds_part_entries(self@.entries(), key@);
        }
        self.min_key = Some(key.encoded().clone());
    }

    /// Seeks the first entry whose key is not before `key`, and says whether there is
    /// one.
    pub fn seek(&mut self, key: &Key, statistics: &mut CFStatistics) -> (found: Result<bool>)
        requires
            old(self)@.wf(),
            !(old(self)@.mode is Backward),
            old(self)@.seek(key@).charge.fits(*old(statistics)),
        ensures
            final(self)@.wf(),
            old(self)@.seek(key@).allows(old(self)@, key@, found, final(self)@),
            old(self)@.seek(key@).charge.leads(*old(statistics), *final(statistics)),
            old(self)@.knows_none_from(key@) ==> {
                &&& old(self).turned_down(key, found)
                &&& final(self).iterator() == old(self).iterator()
            },
            !old(self)@.knows_none_from(key@) ==> exists|iter: &mut I| #[trigger]
                call_ensures(I::seek, (iter, key), found) && *iter == old(self).iterator()
                    && *final(iter) == final(self).iterator(),
    {
        if self.is_past_end(key) {
            return self.turn_down(key);
        }
        match self.internal_seek(key, statistics) {
            Ok(true) => Ok(true),
            Ok(false) => {
                proof {
                    bounds_part_entries(self@.entries(), key@);
                }
                self.remember_end(key);
                Ok(false)
            },
            Err(e) => Err(e),
        }
    }

    /// Seeks the last entry whose key is not after `key`, and says whether there is
    /// one.
    pub fn seek_for_prev(&mut self, key: &Key, statistics: &mut CFStatistics) -> (found: Result<
        bool,
    >)
        requires
            old(self)@.wf(),
            !(old(self)@.mode is Forward),
            old(self)@.seek_for_prev(key@).charge.fits(*old(statistics)),
        ensures
            final(self)@.wf(),
            old(self)@.seek_for_prev(key@).allows(old(self)@, key@, found, final(self)@),
            old(self)@.seek_for_prev(key@).charge.leads(*old(statistics), *final(statistics)),
            old(self)@.knows_none_upto(key@) ==> {
                &&& old(self).turned_down(key, found)
                &&& final(self).iterator() == old(self).iterator()
            },
            !old(self)@.knows_none_upto(key@) ==> exists|iter: &mut I| #[trigger]
                call_ensures(I::seek_for_prev, (iter, key), found) && *iter == old(
                    self,
                ).iterator() && *final(iter) == final(self).iterator(),
    {
        if self.is_before_start(key) {
            return self.turn_down(key);
        }
        match self.internal_seek_for_prev(key, statistics) {
            Ok(true) => Ok(true),
            Ok(false) => {
                proof {
                    bounds_part_entries(self@.entries(), key@);
                }
                self.remember_start(key);
                Ok(false)
            },
            Err(e) => Err(e),
        }
    }

    /// Walks on, from an entry before `key`, to the first entry whose key is not before
    /// `key`, or off the end. Says whether it gave up because it passed too many, and gives
    /// the iterator as it was at each place that it came to.
    fn walk_forward(&mut self, key: &Key, statistics: &mut CFStatistics) -> (walked: (
        bool,
        Ghost<Seq<I>>,
    ))
        requires
            old(self)@.wf(),
            old(self)@.at is Some,
            key_lt(old(self)@.current_key(), key@),
            old(self)@.walk_forward(key@).charge.fits(*old(statistics)),
        ensures
            final(self)@.wf(),
            walked.0 == old(self)@.walk_forward(key@).over,
            final(self)@ == old(self)@.walk_forward(key@).cursor,
            old(self)@.walk_forward(key@).charge.leads(*old(statistics), *final(statistics)),
            walked.1@.len() == old(self)@.walk_forward(key@).charge.next + 1,
            walked.1@[0] == old(self).iterator(),
            walked.1@.last() == final(self).iterator(),
            forall|k: int|
                #[trigger] goes_on(walked.1@, k) ==> exists|iter: &mut I, valid: bool| #[trigger]
                    call_ensures(I::next, (iter,), valid) && *iter == walked.1@[k] && *final(iter)
                        == walked.1@[k + 1],
    {
        let ghost mut path = seq![self.iterator()];
        let ghost start = self@;
        let ghost i = self@.at->0;
        let ghost n = self@.first_from(key@);
        let ghost total = self@.walk_forward(key@).charge;
        let ghost before = *statistics;
        proof {
            bounds_part_entries(start.entries(), key@);
            key_lt_total(start.current_key(), key@);
        }
        let mut cnt: usize = 0;
        loop
            invariant
                start == old(self)@,
                before == *old(statistics),
                start.wf(),
                start.at == Some(i),
                0 <= i,
                n == start.first_from(key@),
                total == start.walk_forward(key@).charge,
                total.fits(before),
                cnt < SEEK_BOUND,
                i + cnt < n,
                self@.wf(),
                path.len() == cnt + 1,
                path[0] == old(self).iterator(),
                path.last() == self.iterator(),
                forall|k: int|
                    #[trigger] goes_on(path, k) ==> exists|iter: &mut I, valid: bool| #[trigger]
                        call_ensures(I::next, (iter,), valid) && *iter == path[k]
                            && *final(iter) == path[k + 1],
                cnt == 0 ==> self@ == start,
                cnt > 0 ==> self@ == start.moved(Some(i + cnt)).with_key_read(),
                (Charge {
                    next: cnt as nat,
                    read_keys: cnt as nat,
                    read_bytes: key_bytes(start.entries(), i + 1, i + 1 + cnt),
                    ..Charge::none()
                }).leads(before, *statistics),
            decreases SEEK_BOUND - cnt,
        {
            let ghost j = i + cnt + 1;
            proof {
                bounds_part_entries(start.entries(), key@);
                if n - 1 - i >= SEEK_BOUND {
                    key_bytes_split(start.entries(), i + 1, j + 1, i + 1 + SEEK_BOUND);
                } else if n < start.len() {
                    key_bytes_split(start.entries(), i + 1, j + 1, n + 1);
                } else if j < n {
                    key_bytes_split(start.entries(), i + 1, j + 1, n);
                }
            }
            let moved = self.next(statistics);
            proof {
                let walked = path;
                path = path.push(self.iterator());
                assert forall|k: int|
                    #[trigger] goes_on(path, k) implies exists|iter: &mut I, valid: bool| #[trigger]
                    call_ensures(I::next, (iter,), valid) && *iter == path[k] && *final(iter)
                        == path[k + 1] by {
                    if k < walked.len() - 1 {
                        assert(goes_on(walked, k));
                    }
                }
            }
            if !moved {
                return (false, Ghost(path));
            }
            match compare(self.key(statistics), key.encoded().as_slice()) {
                KeyOrder::Less => {},
                _ => {
                    return (false, Ghost(path));
                },
            }
            cnt += 1;
            if cnt >= SEEK_BOUND {
                statistics.over_seek_bound += 1;
                return (true, Ghost(path));
            }
        }
    }

    /// Walks back, from an entry after `key`, to the last entry whose key is not after
    /// `key`, or off the start. Says whether it gave up because it passed too many, and gives
    /// the iterator as it was at each place that it came to.
    fn walk_backward(&mut self, key: &Key, statistics: &mut CFStatistics) -> (walked: (
        bool,
        Ghost<Seq<I>>,
    ))
        requires
            old(self)@.wf(),
            old(self)@.at is Some,
            key_lt(key@, old(self)@.current_key()),
            old(self)@.walk_backward(key@).charge.fits(*old(statistics)),
        ensures
            final(self)@.wf(),
            walked.0 == old(self)@.walk_backward(key@).over,
            final(self)@ == old(self)@.walk_backward(key@).cursor,
            old(self)@.walk_backward(key@).charge.leads(*old(statistics), *final(statistics)),
            walked.1@.len() == old(self)@.walk_backward(key@).charge.prev + 1,
            walked.1@[0] == old(self).iterator(),
            walked.1@.last() == final(self).iterator(),
            forall|k: int|
                #[trigger] goes_on(walked.1@, k) ==> exists|iter: &mut I, valid: bool| #[trigger]
                    call_ensures(I::prev, (iter,), valid) && *iter == walked.1@[k] && *final(iter)
                        == walked.1@[k + 1],
    {
        let ghost mut path = seq![self.iterator()];
        let ghost start = self@;
        let ghost i = self@.at->0;
        let ghost n = self@.end_upto(key@);
        let ghost total = self@.walk_backward(key@).charge;
        let ghost before = *statistics;
        proof {
            bounds_part_entries(start.entries(), key@);
            key_lt_total(start.current_key(), key@);
        }
        let mut cnt: usize = 0;
        loop
            invariant
                start == old(self)@,
                before == *old(statistics),
                start.wf(),
                start.at == Some(i),
                i < start.len(),
                n == start.end_upto(key@),
                total == start.walk_backward(key@).charge,
                total.fits(before),
                cnt < SEEK_BOUND,
                n <= i - cnt,
                self@.wf(),
                path.len() == cnt + 1,
                path[0] == old(self).iterator(),
                path.last() == self.iterator(),
                forall|k: int|
                    #[trigger] goes_on(path, k) ==> exists|iter: &mut I, valid: bool| #[trigger]
                        call_ensures(I::prev, (iter,), valid) && *iter == path[k]
                            && *final(iter) == path[k + 1],
                cnt == 0 ==> self@ == start,
                cnt > 0 ==> self@ == start.moved(Some(i - cnt)).with_key_read(),
                (Charge {
                    prev: cnt as nat,
                    read_keys: cnt as nat,
                    read_bytes: key_bytes(start.entries(), i - cnt, i),
                    ..Charge::none()
                }).leads(before, *statistics),
            decreases SEEK_BOUND - cnt,
        {
            let ghost j = i - cnt - 1;
            proof {
                bounds_part_entries(start.entries(), key@);
                if j >= 0 {
                    key_lt_total(start.key(j), key@);
                    key_bytes_split(start.entries(), j, j + 1, i);
                    assert(key_bytes(start.entries(), j, j + 1) == start.key(j).len()) by {
                        reveal_with_fuel(key_bytes, 2);
                    }
                }
                if i - n >= SEEK_BOUND {
                    key_bytes_split(start.entries(), i - SEEK_BOUND, j, i);
                } else if n > 0 {
                    key_bytes_split(start.entries(), n - 1, j, i);
                } else if j >= 0 {
                    key_bytes_split(start.entries(), 0, j, i);
                }
            }
            let moved = self.prev(statistics);
            proof {
                let walked = path;
                path = path.push(self.iterator());
                assert forall|k: int|
                    #[trigger] goes_on(path, k) implies exists|iter: &mut I, valid: bool| #[trigger]
                    call_ensures(I::prev, (iter,), valid) && *iter == path[k] && *final(iter)
                        == path[k + 1] by {
                    if k < walked.len() - 1 {
                        assert(goes_on(walked, k));
                    }
                }
            }
            if !moved {
                return (false, Ghost(path));
            }
            match compare(self.key(statistics), key.encoded().as_slice()) {
                KeyOrder::Greater => {},
                _ => {
                    return (false, Ghost(path));
                },
            }
            cnt += 1;
            if cnt >= SEEK_BOUND {
                statistics.over_seek_bound += 1;
                return (true, Ghost(path));
            }
        }
    }

    /// Seek the specified key.
    ///
    /// When specified key < current key:
    ///     In forward mode:
    ///         `allow_reseek == true`: There will be a `seek()`.
    ///         `allow_reseek == false`: No operation will be performed.
    ///     In mixed mode:
    ///         There will be some `prev()` first, then a `seek()`.
    ///
    /// This method assumes that the current position of the cursor is around `key`,
    /// otherwise you should use `seek` instead.
    #[verifier::spinoff_prover]
    #[verifier::rlimit(40)]
    pub fn near_seek(
        &mut self,
        key: &Key,
        allow_reseek: bool,
        statistics: &mut CFStatistics,
    ) -> (found: Result<bool>)
        requires
            old(self)@.wf(),
            !(old(self)@.mode is Backward),
            old(self)@.near_seek(key@, allow_reseek).charge.fits(*old(statistics)),
        ensures
            final(self)@.wf(),
            found == Ok::<bool, Error>(true) ==> final(self)@.at is Some,
            old(self)@.near_seek(key@, allow_reseek).allows(
                old(self)@,
                key@,
                found,
                final(self)@,
            ),
            old(self)@.near_seek(key@, allow_reseek).charge.leads(
                *old(statistics),
                *final(statistics),
            ),
            old(self)@.knows_none_from(key@) ==> {
                &&& old(self).turned_down(key, found)
                &&& final(self).iterator() == old(self).iterator()
            },
            old(self)@.near_seek(key@, allow_reseek).cursor == old(self)@.with_key_read()
                ==> final(self).iterator() == old(self).iterator(),
            // the iterator goes through just the calls that are counted: steps back, then
            // steps on, then one seek
            exists|path: Seq<I>|
                {
                    let sought = old(self)@.near_seek(key@, allow_reseek);
                    let back: nat = sought.charge.prev;
                    let on: nat = sought.charge.next;
                    let walked: nat = back + on;
                    &&& path.len() == walked + sought.charge.seek + sought.charge.seek_for_prev + 1
                    &&& path[0] == old(self).iterator()
                    &&& #[trigger] path.last() == final(self).iterator()
                    &&& forall|k: int| #[trigger]
                        goes_on(path, k) && k < back ==> exists|
                            iter: &mut I,
                            valid: bool,
                        | #[trigger]
                            call_ensures(I::prev, (iter,), valid) && *iter == path[k]
                                && *final(iter) == path[k + 1]
                    &&& forall|k: int| #[trigger]
                        goes_on(path, k) && back <= k < walked ==> exists|
                            iter: &mut I,
                            valid: bool,
                        | #[trigger]
                            call_ensures(I::next, (iter,), valid) && *iter == path[k]
                                && *final(iter) == path[k + 1]
                    &&& sought.request == Some(Request::Seek) ==> exists|iter: &mut I| #[trigger]
                        call_ensures(I::seek, (iter, key), found) && *iter == path[walked as int]
                            && *final(iter) == path.last()
                    &&& sought.request is None && sought.charge.seek == 1 ==> exists|
                        iter: &mut I,
                        valid: bool,
                    | #[trigger]
                        call_ensures(I::seek_to_first, (iter,), valid)
                            && *iter == path[walked as int] && *final(iter) == path.last()
                },
    {
        let ghost start = self@;
        let ghost mut path = seq![self.iterator()];
        if !self.iter.valid() {
            let found = self.seek(key, statistics);
            proof {
                if !start.knows_none_from(key@) {
                    path = path.push(self.iterator());
                }
                assert(path.last() == self.iterator());
            }
            return found;
        }
        proof {
            key_lt_total(self@.current_key(), key@);
            bounds_part_entries(self@.entries(), key@);
            if self@.knows_none_from(key@) && self@.max_key != Some(key@) {
                key_lt_transitive(self@.current_key(), self@.max_key->0, key@);
            }
        }
        let ord = compare(self.key(statistics), key.encoded().as_slice());
        if ord == KeyOrder::Equal {
            assert(path.last() == self.iterator());
            return Ok(true);
        }
        if ord == KeyOrder::Greater && self.scan_mode == ScanMode::Forward {
            // current key > specified key
            if allow_reseek {
                let found = self.seek(key, statistics);
                proof {
                    path = path.push(self.iterator());
                    assert(path.last() == self.iterator());
                }
                return found;
            } else {
                assert(path.last() == self.iterator());
                return Ok(true);
            }
        }
        if self.is_past_end(key) {
            assert(path.last() == self.iterator());
            return self.turn_down(key);
        }
        if ord == KeyOrder::Greater {
            let (over, walked) = self.walk_backward(key, statistics);
            proof {
                path = walked@;
            }
            if over {
                let found = self.seek(key, statistics);
                proof {
                    path = path.push(self.iterator());
                    assert(forall|k: int| #[trigger]
                        goes_on(path, k) && k < walked@.len() - 1 ==> goes_on(walked@, k));
                    assert(path.last() == self.iterator());
                }
                return found;
            }
            if self.iter.valid() {
                proof {
                    key_lt_total(self@.current_key(), key@);
                }
                match compare(self.key(statistics), key.encoded().as_slice()) {
                    KeyOrder::Less => {
                        self.next(statistics);
                        proof {
                            path = path.push(self.iterator());
                            assert(forall|k: int| #[trigger]
                                goes_on(path, k) && k < walked@.len() - 1 ==> goes_on(walked@, k));
                        }
                    },
                    _ => {},
                }
            } else {
                let first = self.seek_to_first(statistics);
                assert(first);
                proof {
                    path = path.push(self.iterator());
                    assert(forall|k: int| #[trigger]
                        goes_on(path, k) && k < walked@.len() - 1 ==> goes_on(walked@, k));
                    assert(path.last() == self.iterator());
                }
                return Ok(true);
            }
        } else {
            // ord == Less
            let (over, walked) = self.walk_forward(key, statistics);
            proof {
                path = walked@;
            }
            if over {
                let found = self.seek(key, statistics);
                proof {
                    path = path.push(self.iterator());
                    assert(forall|k: int| #[trigger]
                        goes_on(path, k) && k < walked@.len() - 1 ==> goes_on(walked@, k));
                    assert(path.last() == self.iterator());
                }
                return found;
            }
        }
        assert(path.last() == self.iterator());
        if !self.iter.valid() {
            self.remember_end(key);
            return Ok(false);
        }
        Ok(true)
    }

    /// Find the largest key that is not greater than the specific key.
    ///
    /// When specified key > current key:
    ///     In backward mode:
    ///         `allow_reseek == true`: There will be a `seek_for_prev()`.
    ///         `allow_reseek == false`: No operation will be performed.
    ///     In mixed mode:
    ///         There will be some `next()` first, then a `seek_for_prev()`.
    #[verifier::spinoff_prover]
    #[verifier::rlimit(40)]
    pub fn near_seek_for_prev(
        &mut self,
        key: &Key,
        allow_reseek: bool,
        statistics: &mut CFStatistics,
    ) -> (found: Result<bool>)
        requires
            old(self)@.wf(),
            !(old(self)@.mode is Forward),
            old(self)@.near_seek_for_prev(key@, allow_reseek).charge.fits(*old(statistics)),
        ensures
            final(self)@.wf(),
            found == Ok::<bool, Error>(true) ==> final(self)@.at is Some,
            old(self)@.near_seek_for_prev(key@, allow_reseek).allows(
                old(self)@,
                key@,
                found,
                final(self)@,
            ),
            old(self)@.near_seek_for_prev(key@, allow_reseek).charge.leads(
                *old(statistics),
                *final(statistics),
            ),
            old(self)@.knows_none_upto(key@) ==> {
                &&& old(self).turned_down(key, found)
                &&& final(self).iterator() == old(self).iterator()
            },
            old(self)@.near_seek_for_prev(key@, allow_reseek).cursor == old(self)@.with_key_read()
                ==> final(self).iterator() == old(self).iterator(),
            // the iterator goes through just the calls that are counted: steps on, then
            // steps back, then one seek
            exists|path: Seq<I>|
                {
                    let sought = old(self)@.near_seek_for_prev(key@, allow_reseek);
                    let on: nat = sought.charge.next;
                    let back: nat = sought.charge.prev;
                    let walked: nat = on + back;
                    &&& path.len() == walked + sought.charge.seek + sought.charge.seek_for_prev + 1
                    &&& path[0] == old(self).iterator()
                    &&& #[trigger] path.last() == final(self).iterator()
                    &&& forall|k: int| #[trigger]
                        goes_on(path, k) && k < on ==> exists|
                            iter: &mut I,
                            valid: bool,
                        | #[trigger]
                            call_ensures(I::next, (iter,), valid) && *iter == path[k]
                                && *final(iter) == path[k + 1]
                    &&& forall|k: int| #[trigger]
                        goes_on(path, k) && on <= k < walked ==> exists|
                            iter: &mut I,
                            valid: bool,
                        | #[trigger]
                            call_ensures(I::prev, (iter,), valid) && *iter == path[k]
                                && *final(iter) == path[k + 1]
                    &&& sought.request == Some(Request::SeekForPrev) ==> exists|
                        iter: &mut I,
                    | #[trigger]
                        call_ensures(I::seek_for_prev, (iter, key), found)
                            && *iter == path[walked as int] && *final(iter) == path.last()
                    &&& sought.request is None && sought.charge.seek == 1 ==> exists|
                        iter: &mut I,
                        valid: bool,
                    | #[trigger]
                        call_ensures(I::seek_to_last, (iter,), valid)
                            && *iter == path[walked as int] && *final(iter) == path.last()
                },
    {
        let ghost start = self@;
        let ghost mut path = seq![self.iterator()];
        if !self.iter.valid() {
            let found = self.seek_for_prev(key, statistics);
            proof {
                if !start.knows_none_upto(key@) {
                    path = path.push(self.iterator());
                }
                assert(path.last() == self.iterator());
            }
            return found;
        }
        proof {
            key_lt_total(self@.current_key(), key@);
            bounds_part_entries(self@.entries(), key@);
            if self@.knows_none_upto(key@) && self@.min_key != Some(key@) {
                key_lt_transitive(key@, self@.min_key->0, self@.current_key());
            }
        }
        let ord = compare(self.key(statistics), key.encoded().as_slice());
        if ord == KeyOrder::Equal {
            assert(path.last() == self.iterator());
            return Ok(true);
        }
        if ord == KeyOrder::Less && self.scan_mode == ScanMode::Backward {
            // current key < specified key
            if allow_reseek {
                let found = self.seek_for_prev(key, statistics);
                proof {
                    path = path.push(self.iterator());
                    assert(path.last() == self.iterator());
                }
                return found;
            } else {
                assert(path.last() == self.iterator());
                return Ok(true);
            }
        }
        if self.is_before_start(key) {
            assert(path.last() == self.iterator());
            return self.turn_down(key);
        }
        if ord == KeyOrder::Less {
            let (over, walked) = self.walk_forward(key, statistics);
            proof {
                path = walked@;
            }
            if over {
                let found = self.seek_for_prev(key, statistics);
                proof {
                    path = path.push(self.iterator());
                    assert(forall|k: int| #[trigger]
                        goes_on(path, k) && k < walked@.len() - 1 ==> goes_on(walked@, k));
                    assert(path.last() == self.iterator());
                }
                return found;
            }
            if self.iter.valid() {
                proof {
                    key_lt_total(self@.current_key(), key@);
                }
                match compare(self.key(statistics), key.encoded().as_slice()) {
                    KeyOrder::Greater => {
                        self.prev(statistics);
                        proof {
                            path = path.push(self.iterator());
                            assert(forall|k: int| #[trigger]
                                goes_on(path, k) && k < walked@.len() - 1 ==> goes_on(walked@, k));
                        }
                    },
                    _ => {},
                }
            } else {
                let last = self.seek_to_last(statistics);
                assert(last);
                proof {
                    path = path.push(self.iterator());
                    assert(forall|k: int| #[trigger]
                        goes_on(path, k) && k < walked@.len() - 1 ==> goes_on(walked@, k));
                    assert(path.last() == self.iterator());
                }
                return Ok(true);
            }
        } else {
            let (over, walked) = self.walk_backward(key, statistics);
            proof {
                path = walked@;
            }
            if over {
                let found = self.seek_for_prev(key, statistics);
                proof {
                    path = path.push(self.iterator());
                    assert(forall|k: int| #[trigger]
                        goes_on(path, k) && k < walked@.len() - 1 ==> goes_on(walked@, k));
                    assert(path.last() == self.iterator());
                }
                return found;
            }
        }
        assert(path.last() == self.iterator());
        if !self.iter.valid() {
            self.remember_start(key);
            return Ok(false);
        }
        Ok(true)
    }

    /// Having come to an entry whose key is not after `key`: one step back if it is
    /// `key` itself.
    fn step_before(&mut self, key: &Key, statistics: &mut CFStatistics) -> (found: bool)
        requires
            old(self)@.wf(),
            old(self)@.at is Some,
            old(self)@.step_before(key@).charge.fits(*old(statistics)),
        ensures
            final(self)@.wf(),
            found == old(self)@.step_before(key@).found,
            final(self)@ == old(self)@.step_before(key@).cursor,
            old(self)@.step_before(key@).charge.leads(*old(statistics), *final(statistics)),
            old(self)@.current_key() != key@ ==> final(self).iterator() == old(self).iterator(),
            old(self)@.current_key() == key@ ==> exists|iter: &mut I| #[trigger]
                call_ensures(I::prev, (iter,), found) && *iter == old(self).iterator()
                    && *final(iter) == final(self).iterator(),
    {
        match compare(self.key(statistics), key.encoded().as_slice()) {
            // should not update min_key here. otherwise reverse_seek_le may not work as
            // expected.
            KeyOrder::Equal => self.prev(statistics),
            _ => true,
        }
    }

    /// Seeks the last entry whose key is before `key`, and says whether there is one.
    pub fn reverse_seek(&mut self, key: &Key, statistics: &mut CFStatistics) -> (found: Result<
        bool,
    >)
        requires
            old(self)@.wf(),
            !(old(self)@.mode is Forward),
            old(self)@.reverse_seek(key@).charge.fits(*old(statistics)),
        ensures
            final(self)@.wf(),
            match found {
                Ok(found) => {
                    let outcome = old(self)@.reverse_seek(key@);
                    &&& found == outcome.found
                    &&& final(self)@ == outcome.cursor
                    &&& outcome.charge.leads(*old(statistics), *final(statistics))
                },
                Err(e) => {
                    let sought = old(self)@.seek_for_prev(key@);
                    &&& sought.refused(old(self)@, key@, e, final(self)@)
                    &&& sought.charge.leads(*old(statistics), *final(statistics))
                },
            },
            old(self)@.knows_none_upto(key@) ==> {
                &&& old(self).turned_down(key, found)
                &&& final(self).iterator() == old(self).iterator()
            },
            !old(self)@.knows_none_upto(key@) ==> {
                let sought = old(self)@.seek_for_prev(key@);
                exists|iter: &mut I|
                    {
                        &&& #[trigger] call_ensures(
                            I::seek_for_prev,
                            (iter, key),
                            sought.answer(found),
                        )
                        &&& *iter == old(self).iterator()
                        &&& if sought.steps_off(key@, found) {
                            exists|step: &mut I, valid: bool| #[trigger]
                                call_ensures(I::prev, (step,), valid) && found == Ok::<bool, Error>(
                                    valid,
                                ) && *step == *final(iter) && *final(step) == final(self).iterator()
                        } else {
                            *final(iter) == final(self).iterator()
                        }
                    }
            },
    {
        proof {
            bounds_part_entries(self@.entries(), key@);
        }
        match self.seek_for_prev(key, statistics) {
            Ok(true) => Ok(self.step_before(key, statistics)),
            Ok(false) => Ok(false),
            Err(e) => Err(e),
        }
    }

    /// Reverse seek the specified key.
    ///
    /// This method assumes that the current position of the cursor is around `key`,
    /// otherwise you should use `reverse_seek` instead.
    #[verifier::spinoff_prover]
    #[verifier::rlimit(40)]
    pub fn near_reverse_seek(
        &mut self,
        key: &Key,
        allow_reseek: bool,
        statistics: &mut CFStatistics,
    ) -> (found: Result<bool>)
        requires
            old(self)@.wf(),
            !(old(self)@.mode is Forward),
            old(self)@.near_reverse_seek(key@, allow_reseek).charge.fits(*old(statistics)),
        ensures
            final(self)@.wf(),
            match found {
                Ok(found) => {
                    let outcome = old(self)@.near_reverse_seek(key@, allow_reseek);
                    &&& found == outcome.found
                    &&& final(self)@ == outcome.cursor
                    &&& outcome.charge.leads(*old(statistics), *final(statistics))
                },
                Err(e) => {
                    let sought = old(self)@.near_seek_for_prev(key@, allow_reseek);
                    &&& sought.refused(old(self)@, key@, e, final(self)@)
                    &&& sought.charge.leads(*old(statistics), *final(statistics))
                },
            },
            old(self)@.knows_none_upto(key@) ==> {
                &&& old(self).turned_down(key, found)
                &&& final(self).iterator() == old(self).iterator()
            },
            old(self)@.near_seek_for_prev(key@, allow_reseek).cursor == old(self)@.with_key_read()
                && old(self)@.current_key() != key@ ==> final(self).iterator() == old(
                self,
            ).iterator(),
            ({
                let sought = old(self)@.near_seek_for_prev(key@, allow_reseek);
                exists|cursor: &mut Self, counted: &mut CFStatistics|
                    {
                        &&& #[trigger] call_ensures(
                            Self::near_seek_for_prev,
                            (cursor, key, allow_reseek, counted),
                            sought.answer(found),
                        )
                        &&& *cursor == *old(self)
                        &&& *counted == *old(statistics)
                        &&& if sought.steps_off(key@, found) {
                            exists|step: &mut I, valid: bool| #[trigger]
                                call_ensures(I::prev, (step,), valid) && found == Ok::<bool, Error>(
                                    valid,
                                ) && *step == final(cursor).iterator()
                                    && *final(step) == final(self).iterator()
                        } else {
                            final(cursor).iterator() == final(self).iterator()
                        }
                    }
            }),
    {
        match self.near_seek_for_prev(key, allow_reseek, statistics) {
            Ok(true) => Ok(self.step_before(key, statistics)),
            Ok(false) => Ok(false),
            Err(e) => Err(e),
        }
    }

    /// The value of the entry at which the cursor stands, if the key of that entry is
    /// `key`.
    fn value_under(&mut self, key: &Key, statistics: &mut CFStatistics) -> (value: Option<&[u8]>)
        requires
            old(self)@.wf(),
            old(self)@.at is Some,
            old(self)@.read_under(key@).charge.fits(*old(statistics)),
        ensures
            final(self)@.wf(),
            value is Some <==> old(self)@.read_under(key@).value is Some,
            value matches Some(v) ==> old(self)@.read_under(key@).value == Some(v@),
            final(self)@ == old(self)@.read_under(key@).cursor,
            old(self)@.read_under(key@).charge.leads(*old(statistics), *final(statistics)),
            final(self).iterator() == old(self).iterator(),
    {
        match compare(self.key(statistics), key.encoded().as_slice()) {
            KeyOrder::Equal => Some(self.value(statistics)),
            _ => None,
        }
    }

    /// Get the value of specified key by a seek from where the cursor stands.
    ///
    /// This method assumes that the current position of the cursor is around `key`,
    /// otherwise you should `seek` first.
    #[verifier::spinoff_prover]
    #[verifier::rlimit(40)]
    pub fn near_seek_get(
        &mut self,
        key: &Key,
        allow_reseek: bool,
        statistics: &mut CFStatistics,
    ) -> (value: Result<Option<&[u8]>>)
        requires
            old(self)@.wf(),
            old(self)@.near_seek_get(key@, allow_reseek).charge.fits(*old(statistics)),
        ensures
            final(self)@.wf(),
            match value {
                Ok(value) => {
                    let lookup = old(self)@.near_seek_get(key@, allow_reseek);
                    &&& value is Some <==> lookup.value is Some
                    &&& value matches Some(v) ==> lookup.value == Some(v@)
                    &&& final(self)@ == lookup.cursor
                    &&& lookup.charge.leads(*old(statistics), *final(statistics))
                },
                Err(e) => {
                    let sought = old(self)@.near_seek_either(key@, allow_reseek);
                    &&& sought.refused(old(self)@, key@, e, final(self)@)
                    &&& sought.charge.leads(*old(statistics), *final(statistics))
                },
            },
            !(old(self)@.mode is Backward) && old(self)@.knows_none_from(key@) ==> {
                let sought = old(self)@.near_seek_either(key@, allow_reseek);
                &&& old(self).turned_down(key, sought.answer(value))
                &&& final(self).iterator() == old(self).iterator()
            },
            old(self)@.mode is Backward && old(self)@.knows_none_upto(key@) ==> {
                let sought = old(self)@.near_seek_either(key@, allow_reseek);
                &&& old(self).turned_down(key, sought.answer(value))
                &&& final(self).iterator() == old(self).iterator()
            },
            old(self)@.near_seek_either(key@, allow_reseek).cursor == old(self)@.with_key_read()
                ==> final(self).iterator() == old(self).iterator(),
            !(old(self)@.mode is Backward) ==> {
                let sought = old(self)@.near_seek(key@, allow_reseek);
                exists|cursor: &mut Self, counted: &mut CFStatistics|
                    {
                        &&& #[trigger] call_ensures(
                            Self::near_seek,
                            (cursor, key, allow_reseek, counted),
                            sought.answer(value),
                        )
                        &&& *cursor == *old(self)
                        &&& *counted == *old(statistics)
                        &&& final(cursor).iterator() == final(self).iterator()
                    }
            },
            old(self)@.mode is Backward ==> {
                let sought = old(self)@.near_seek_for_prev(key@, allow_reseek);
                exists|cursor: &mut Self, counted: &mut CFStatistics|
                    {
                        &&& #[trigger] call_ensures(
                            Self::near_seek_for_prev,
                            (cursor, key, allow_reseek, counted),
                            sought.answer(value),
                        )
                        &&& *cursor == *old(self)
                        &&& *counted == *old(statistics)
                        &&& final(cursor).iterator() == final(self).iterator()
                    }
            },
    {
        let seek_result = match self.scan_mode {
            ScanMode::Forward | ScanMode::Mixed => self.near_seek(key, allow_reseek, statistics),
            ScanMode::Backward => self.near_seek_for_prev(key, allow_reseek, statistics),
        };
        match seek_result {
            Ok(true) => {},
            Ok(false) => {
                return Ok(None);
            },
            Err(e) => {
                return Err(e);
            },
        }
        Ok(self.value_under(key, statistics))
    }
}

} // verus!
