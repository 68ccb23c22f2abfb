//! What the operations of a cursor do: where they leave it, what they answer, and
//! what they add to the statistics.
use crate::error::{Error, Result};
use crate::iterator::{key_bytes, lower_bound, ordered, upper_bound, Entry, Request, Source};
use crate::key::{key_le, key_lt};
use crate::statistics::CFStatistics;
use vstd::prelude::*;

verus! {

/// How many entries a cursor passes one by one before it seeks instead.
pub const SEEK_BOUND: usize = 30;

/// The direction in which a cursor is used.
#[derive(Debug, PartialEq, Eq, Clone, Copy, Structural)]
pub enum ScanMode {
    Forward,
    Backward,
    Mixed,
}

/// What an operation adds to the statistics.
pub struct Charge {
    pub next: nat,
    pub prev: nat,
    pub seek: nat,
    pub seek_for_prev: nat,
    pub over_seek_bound: nat,
    pub read_keys: nat,
    pub read_bytes: nat,
}

impl Charge {
    /// Nothing is added.
    pub open spec fn none() -> Charge {
        Charge {
            next: 0,
            prev: 0,
            seek: 0,
            seek_for_prev: 0,
            over_seek_bound: 0,
            read_keys: 0,
            read_bytes: 0,
        }
    }

    /// One step to the next entry.
    pub open spec fn one_next() -> Charge {
        Charge { next: 1, ..Charge::none() }
    }

    /// One step to the entry before.
    pub open spec fn one_prev() -> Charge {
        Charge { prev: 1, ..Charge::none() }
    }

    /// One seek.
    pub open spec fn one_seek() -> Charge {
        Charge { seek: 1, ..Charge::none() }
    }

    /// One backward seek.
    pub open spec fn one_seek_for_prev() -> Charge {
        Charge { seek_for_prev: 1, ..Charge::none() }
    }

    /// Both charges together.
    pub open spec fn plus(self, other: Charge) -> Charge {
        Charge {
            next: self.next + other.next,
            prev: self.prev + other.prev,
            seek: self.seek + other.seek,
            seek_for_prev: self.seek_for_prev + other.seek_for_prev,
            over_seek_bound: self.over_seek_bound + other.over_seek_bound,
            read_keys: self.read_keys + other.read_keys,
            read_bytes: self.read_bytes + other.read_bytes,
        }
    }

    /// Whether the counters can take the charge in.
    pub open spec fn fits(self, stat: CFStatistics) -> bool {
        &&& stat.next + self.next <= usize::MAX
        &&& stat.prev + self.prev <= usize::MAX
        &&& stat.seek + self.seek <= usize::MAX
        &&& stat.seek_for_prev + self.seek_for_prev <= usize::MAX
        &&& stat.over_seek_bound + self.over_seek_bound <= usize::MAX
        &&& stat.flow_stats.read_keys + self.read_keys <= usize::MAX
        &&& stat.flow_stats.read_bytes + self.read_bytes <= usize::MAX
    }

    /// Whether the counters went from `before` to `after` by this charge.
    pub open spec fn leads(self, before: CFStatistics, after: CFStatistics) -> bool {
        &&& after.processed == before.processed
        &&& after.get == before.get
        &&& after.next == before.next + self.next
        &&& after.prev == before.prev + self.prev
        &&& after.seek == before.seek + self.seek
        &&& after.seek_for_prev == before.seek_for_prev + self.seek_for_prev
        &&& after.over_seek_bound == before.over_seek_bound + self.over_seek_bound
        &&& after.flow_stats.read_keys == before.flow_stats.read_keys + self.read_keys
        &&& after.flow_stats.read_bytes == before.flow_stats.read_bytes + self.read_bytes
    }
}

/// What an operation comes to when the iterator refuses nothing, and the request that the
/// iterator may refuse, if it makes one.
pub struct Outcome {
    pub cursor: CursorView,
    pub charge: Charge,
    pub found: bool,
    pub request: Option<Request>,
}

impl Outcome {
    /// The outcome of an operation that was preceded by others with this charge.
    pub open spec fn after(self, charge: Charge) -> Outcome {
        Outcome { charge: charge.plus(self.charge), ..self }
    }

    /// The outcome of this backward seek and a step back off `t` after it. The request
    /// is the one that the seek makes.
    pub open spec fn then_step_before(self, t: Seq<u8>) -> Outcome {
        if self.found {
            Outcome {
                request: self.request,
                ..self.cursor.step_before(t).after(self.charge)
            }
        } else {
            self
        }
    }

    /// What the iterator answers to the request of this seek where an operation that makes
    /// it comes to `result`: the operation hands a refusal on.
    pub open spec fn answer<T>(self, result: Result<T>) -> Result<bool> {
        match result {
            Ok(_) => Ok(self.found),
            Err(e) => Err(e),
        }
    }

    /// Whether this backward seek, which was not refused if the operation that makes it
    /// comes to `result`, leads to `t` itself.
    pub open spec fn steps_off<T>(self, t: Seq<u8>, result: Result<T>) -> bool {
        result is Ok && self.found && self.cursor.current_key() == t
    }

    /// This seek, and a reading of the value of the entry to which it led if the key
    /// of that entry is `t`.
    pub open spec fn then_read_under(self, t: Seq<u8>) -> Lookup {
        if self.found {
            let read = self.cursor.read_under(t);
            Lookup { charge: self.charge.plus(read.charge), ..read }
        } else {
            Lookup { cursor: self.cursor, charge: self.charge, value: None }
        }
    }

    /// Whether an operation about `t` that began at `before` and has this outcome
    /// can have answered `answer` and left the cursor at `after`.
    ///
    /// It answers with an error only where the iterator refused its request. What the
    /// cursor has learnt about the ends of the entries is then as before, and where it
    /// stands is known only if the request was not to move.
    pub open spec fn allows(
        self,
        before: CursorView,
        t: Seq<u8>,
        answer: Result<bool>,
        after: CursorView,
    ) -> bool {
        match answer {
            Ok(found) => found == self.found && after == self.cursor,
            Err(e) => self.refused(before, t, e, after),
        }
    }

    /// Whether an operation about `t` that began at `before` and has this outcome can
    /// have been refused with `e` and left the cursor at `after`.
    pub open spec fn refused(
        self,
        before: CursorView,
        t: Seq<u8>,
        e: Error,
        after: CursorView,
    ) -> bool {
        &&& self.request matches Some(request) && {
            &&& before.source.may_refuse(request, t, e)
            &&& request is Validate ==> after.at == self.cursor.at
        }
        &&& after == CursorView {
            at: after.at,
            min_key: before.min_key,
            max_key: before.max_key,
            ..self.cursor
        }
    }
}

/// Where a walk entry by entry ends, and whether it ended because it passed too many.
pub struct Walk {
    pub cursor: CursorView,
    pub charge: Charge,
    pub over: bool,
}

/// What looking a key up comes to when the iterator refuses nothing.
pub struct Lookup {
    pub cursor: CursorView,
    pub charge: Charge,
    pub value: Option<Seq<u8>>,
}

/// The state of a cursor.
pub struct CursorView {
    /// What it walks over.
    pub source: Source,
    /// The entry at which it stands, if it stands at one.
    pub at: Option<int>,
    /// The direction in which it is used.
    pub mode: ScanMode,
    /// A key such that all entries are known to come after it.
    pub min_key: Option<Seq<u8>>,
    /// A key such that all entries are known to come before it.
    pub max_key: Option<Seq<u8>>,
    /// Whether the key at which it stands was counted as read.
    pub key_read: bool,
    /// Whether the value at which it stands was counted as read.
    pub value_read: bool,
}

impl CursorView {
    /// The entries it walks over.
    pub open spec fn entries(self) -> Seq<Entry> {
        self.source.entries
    }

    /// How many entries it walks over.
    pub open spec fn len(self) -> int {
        self.source.entries.len() as int
    }

    /// The key of the entry `i`.
    pub open spec fn key(self, i: int) -> Seq<u8> {
        self.source.entries[i].0
    }

    /// The key of the entry at which it stands.
    pub open spec fn current_key(self) -> Seq<u8> {
        self.key(self.at->0)
    }

    /// What holds of every cursor: the entries are in order, it stands at one of them
    /// or at none, and what it has learnt about the ends of the entries is true.
    pub open spec fn wf(self) -> bool {
        &&& ordered(self.entries())
        &&& self.at matches Some(i) ==> 0 <= i < self.len()
        &&& self.min_key matches Some(m) ==> forall|i: int|
            #![trigger self.entries()[i]]
            0 <= i < self.len() ==> key_lt(m, self.entries()[i].0)
        &&& self.max_key matches Some(m) ==> forall|i: int|
            #![trigger self.entries()[i]]
            0 <= i < self.len() ==> key_lt(self.entries()[i].0, m)
    }

    /// Whether it has the mode, and has learnt and read nothing yet.
    pub open spec fn is_new(self, mode: ScanMode) -> bool {
        &&& self.mode == mode
        &&& self.min_key is None
        &&& self.max_key is None
        &&& !self.key_read
        &&& !self.value_read
    }

    /// The position of the first entry whose key is not before `t`.
    pub open spec fn first_from(self, t: Seq<u8>) -> int {
        lower_bound(self.entries(), t)
    }

    /// The position after the last entry whose key is not after `t`.
    pub open spec fn end_upto(self, t: Seq<u8>) -> int {
        upper_bound(self.entries(), t)
    }

    /// The cursor moved to another place, where nothing was read yet.
    pub open spec fn moved(self, at: Option<int>) -> CursorView {
        CursorView { at, key_read: false, value_read: false, ..self }
    }

    /// The place after the entry `i`.
    pub open spec fn place_after(self, i: int) -> Option<int> {
        if i + 1 < self.len() {
            Some(i + 1)
        } else {
            None
        }
    }

    /// The place before the entry `i`.
    pub open spec fn place_before(self, i: int) -> Option<int> {
        if i > 0 {
            Some(i - 1)
        } else {
            None
        }
    }

    /// The cursor with its key counted as read.
    pub open spec fn with_key_read(self) -> CursorView {
        CursorView { key_read: true, ..self }
    }

    /// The cursor with its value counted as read.
    pub open spec fn with_value_read(self) -> CursorView {
        CursorView { value_read: true, ..self }
    }

    /// What reading the key adds: the key and its bytes, once at each place.
    pub open spec fn key_charge(self) -> Charge {
        if self.key_read {
            Charge::none()
        } else {
            Charge { read_keys: 1, read_bytes: self.current_key().len(), ..Charge::none() }
        }
    }

    /// What reading the value adds: its bytes, once at each place.
    pub open spec fn value_charge(self) -> Charge {
        if self.value_read {
            Charge::none()
        } else {
            Charge { read_bytes: self.entries()[self.at->0].1.len(), ..Charge::none() }
        }
    }

    /// Whether it has learnt that all entries come before `t`.
    pub open spec fn knows_none_from(self, t: Seq<u8>) -> bool {
        self.max_key matches Some(m) && key_le(m, t)
    }

    /// Whether it has learnt that all entries come after `t`.
    pub open spec fn knows_none_upto(self, t: Seq<u8>) -> bool {
        self.min_key matches Some(m) && key_le(t, m)
    }

    /// Moves to the first entry whose key is not before `t`, and remembers `t` if there
    /// is none; stays where it is if it knows that there is none.
    pub open spec fn seek(self, t: Seq<u8>) -> Outcome {
        if self.knows_none_from(t) {
            self.turn_down()
        } else {
            let n = self.first_from(t);
            Outcome {
                cursor: if n < self.len() {
                    self.moved(Some(n))
                } else {
                    CursorView { max_key: Some(t), ..self.moved(None) }
                },
                charge: Charge::one_seek(),
                found: n < self.len(),
                request: Some(Request::Seek),
            }
        }
    }

    /// Moves to the last entry whose key is not after `t`, and remembers `t` if there
    /// is none; stays where it is if it knows that there is none.
    pub open spec fn seek_for_prev(self, t: Seq<u8>) -> Outcome {
        if self.knows_none_upto(t) {
            self.turn_down()
        } else {
            let n = self.end_upto(t);
            Outcome {
                cursor: if n > 0 {
                    self.moved(Some(n - 1))
                } else {
                    CursorView { min_key: Some(t), ..self.moved(None) }
                },
                charge: Charge::one_seek_for_prev(),
                found: n > 0,
                request: Some(Request::SeekForPrev),
            }
        }
    }

    /// The walk, from an entry before `t`, to the first entry whose key is not before
    /// `t`, or off the end. It is given up once it has passed too many entries.
    pub open spec fn walk_forward(self, t: Seq<u8>) -> Walk {
        let i = self.at->0;
        let n = self.first_from(t);
        if n - 1 - i >= SEEK_BOUND {
            Walk {
                cursor: self.moved(Some(i + SEEK_BOUND)).with_key_read(),
                charge: Charge {
                    next: SEEK_BOUND as nat,
                    read_keys: SEEK_BOUND as nat,
                    read_bytes: key_bytes(self.entries(), i + 1, i + 1 + SEEK_BOUND),
                    over_seek_bound: 1,
                    ..Charge::none()
                },
                over: true,
            }
        } else if n < self.len() {
            Walk {
                cursor: self.moved(Some(n)).with_key_read(),
                charge: Charge {
                    next: (n - i) as nat,
                    read_keys: (n - i) as nat,
                    read_bytes: key_bytes(self.entries(), i + 1, n + 1),
                    ..Charge::none()
                },
                over: false,
            }
        } else {
            Walk {
                cursor: self.moved(None),
                charge: Charge {
                    next: (n - i) as nat,
                    read_keys: (n - 1 - i) as nat,
                    read_bytes: key_bytes(self.entries(), i + 1, n),
                    ..Charge::none()
                },
                over: false,
            }
        }
    }

    /// The walk, from an entry after `t`, to the last entry whose key is not after `t`,
    /// or off the start. It is given up once it has passed too many entries.
    pub open spec fn walk_backward(self, t: Seq<u8>) -> Walk {
        let i = self.at->0;
        let n = self.end_upto(t);
        if i - n >= SEEK_BOUND {
            Walk {
                cursor: self.moved(Some(i - SEEK_BOUND)).with_key_read(),
                charge: Charge {
                    prev: SEEK_BOUND as nat,
                    read_keys: SEEK_BOUND as nat,
                    read_bytes: key_bytes(self.entries(), i - SEEK_BOUND, i),
                    over_seek_bound: 1,
                    ..Charge::none()
                },
                over: true,
            }
        } else if n > 0 {
            Walk {
                cursor: self.moved(Some(n - 1)).with_key_read(),
                charge: Charge {
                    prev: (i - n + 1) as nat,
                    read_keys: (i - n + 1) as nat,
                    read_bytes: key_bytes(self.entries(), n - 1, i),
                    ..Charge::none()
                },
                over: false,
            }
        } else {
            Walk {
                cursor: self.moved(None),
                charge: Charge {
                    prev: (i + 1) as nat,
                    read_keys: i as nat,
                    read_bytes: key_bytes(self.entries(), 0, i),
                    ..Charge::none()
                },
                over: false,
            }
        }
    }

    /// Stays where it is, and answers that an entry was found there.
    pub open spec fn stay(self) -> Outcome {
        Outcome {
            cursor: self,
            charge: Charge::none(),
            found: true,
            request: None,
        }
    }

    /// Stays where it is, and answers that no entry was found.
    pub open spec fn turn_down(self) -> Outcome {
        Outcome {
            cursor: self,
            charge: Charge::none(),
            found: false,
            request: Some(Request::Validate),
        }
    }

    /// From an entry after `t`: walks back past `t` and one step forward again, unless
    /// it comes to `t` itself; seeks if the walk is too long.
    pub open spec fn back_to_first_from(self, t: Seq<u8>) -> Outcome {
        let walk = self.walk_backward(t);
        if walk.over {
            walk.cursor.seek(t).after(walk.charge)
        } else {
            match walk.cursor.at {
                None => walk.cursor.moved(Some(0)).stay().after(
                    walk.charge.plus(Charge::one_seek()),
                ),
                Some(i) => if self.key(i) == t {
                    walk.cursor.stay().after(walk.charge)
                } else {
                    walk.cursor.moved(Some(i + 1)).stay().after(
                        walk.charge.plus(Charge::one_next()),
                    )
                },
            }
        }
    }

    /// From an entry before `t`: walks on to the first entry whose key is not before
    /// `t`, and remembers `t` if there is none; seeks if the walk is too long.
    pub open spec fn on_to_first_from(self, t: Seq<u8>) -> Outcome {
        let walk = self.walk_forward(t);
        if walk.over {
            walk.cursor.seek(t).after(walk.charge)
        } else if walk.cursor.at is Some {
            walk.cursor.stay().after(walk.charge)
        } else {
            Outcome {
                cursor: CursorView { max_key: Some(t), ..walk.cursor },
                charge: walk.charge,
                found: false,
                request: None,
            }
        }
    }

    /// Seeks the first entry whose key is not before `t`, by steps from where it stands
    /// if it stands near. A forward cursor that stands after `t` stays there unless it
    /// is told to seek anew.
    pub open spec fn near_seek(self, t: Seq<u8>, allow_reseek: bool) -> Outcome {
        if self.at is None {
            self.seek(t)
        } else {
            let read = self.with_key_read();
            let outcome = if self.current_key() == t {
                read.stay()
            } else if key_lt(t, self.current_key()) && self.mode is Forward {
                if allow_reseek {
                    read.seek(t)
                } else {
                    read.stay()
                }
            } else if self.knows_none_from(t) {
                read.turn_down()
            } else if key_lt(t, self.current_key()) {
                read.back_to_first_from(t)
            } else {
                read.on_to_first_from(t)
            };
            outcome.after(self.key_charge())
        }
    }

    /// From an entry before `t`: walks on past `t` and one step back again, unless it
    /// comes to `t` itself; seeks if the walk is too long.
    pub open spec fn on_to_last_upto(self, t: Seq<u8>) -> Outcome {
        let walk = self.walk_forward(t);
        if walk.over {
            walk.cursor.seek_for_prev(t).after(walk.charge)
        } else {
            match walk.cursor.at {
                None => walk.cursor.moved(Some(self.len() - 1)).stay().after(
                    walk.charge.plus(Charge::one_seek()),
                ),
                Some(i) => if self.key(i) == t {
                    walk.cursor.stay().after(walk.charge)
                } else {
                    walk.cursor.moved(Some(i - 1)).stay().after(
                        walk.charge.plus(Charge::one_prev()),
                    )
                },
            }
        }
    }

    /// From an entry after `t`: walks back to the last entry whose key is not after
    /// `t`, and remembers `t` if there is none; seeks if the walk is too long.
    pub open spec fn back_to_last_upto(self, t: Seq<u8>) -> Outcome {
        let walk = self.walk_backward(t);
        if walk.over {
            walk.cursor.seek_for_prev(t).after(walk.charge)
        } else if walk.cursor.at is Some {
            walk.cursor.stay().after(walk.charge)
        } else {
            Outcome {
                cursor: CursorView { min_key: Some(t), ..walk.cursor },
                charge: walk.charge,
                found: false,
                request: None,
            }
        }
    }

    /// Seeks the last entry whose key is not after `t`, by steps from where it stands
    /// if it stands near. A backward cursor that stands before `t` stays there unless
    /// it is told to seek anew.
    pub open spec fn near_seek_for_prev(self, t: Seq<u8>, allow_reseek: bool) -> Outcome {
        if self.at is None {
            self.seek_for_prev(t)
        } else {
            let read = self.with_key_read();
            let outcome = if self.current_key() == t {
                read.stay()
            } else if key_lt(self.current_key(), t) && self.mode is Backward {
                if allow_reseek {
                    read.seek_for_prev(t)
                } else {
                    read.stay()
                }
            } else if self.knows_none_upto(t) {
                read.turn_down()
            } else if key_lt(self.current_key(), t) {
                read.on_to_last_upto(t)
            } else {
                read.back_to_last_upto(t)
            };
            outcome.after(self.key_charge())
        }
    }

    /// Having come to an entry whose key is not after `t`: one step back if it is `t`.
    pub open spec fn step_before(self, t: Seq<u8>) -> Outcome {
        let outcome = if self.current_key() == t {
            let at = self.place_before(self.at->0);
            Outcome {
                cursor: self.moved(at),
                charge: Charge::one_prev(),
                found: at is Some,
                request: None,
            }
        } else {
            self.with_key_read().stay()
        };
        outcome.after(self.key_charge())
    }

    /// Moves to the last entry whose key is before `t`.
    pub open spec fn reverse_seek(self, t: Seq<u8>) -> Outcome {
        self.seek_for_prev(t).then_step_before(t)
    }

    /// Moves to the last entry whose key is before `t`, by steps from where it stands
    /// if it stands near.
    pub open spec fn near_reverse_seek(self, t: Seq<u8>, allow_reseek: bool) -> Outcome {
        self.near_seek_for_prev(t, allow_reseek).then_step_before(t)
    }

    /// Reads the key at which it stands, and the value too if the key is `t`.
    pub open spec fn read_under(self, t: Seq<u8>) -> Lookup {
        let read = self.with_key_read();
        if self.current_key() == t {
            Lookup {
                cursor: read.with_value_read(),
                charge: self.key_charge().plus(read.value_charge()),
                value: Some(self.entries()[self.at->0].1),
            }
        } else {
            Lookup { cursor: read, charge: self.key_charge(), value: None }
        }
    }

    /// The seek that looks `t` up: backward for a backward cursor, else forward.
    pub open spec fn near_seek_either(self, t: Seq<u8>, allow_reseek: bool) -> Outcome {
        if self.mode is Backward {
            self.near_seek_for_prev(t, allow_reseek)
        } else {
            self.near_seek(t, allow_reseek)
        }
    }

    /// Looks `t` up by a seek from where it stands.
    pub open spec fn near_seek_get(self, t: Seq<u8>, allow_reseek: bool) -> Lookup {
        self.near_seek_either(t, allow_reseek).then_read_under(t)
    }
}

} // verus!
