//! The engine itself: what is written to it, what it answers, and what is read from it.
use crate::cursor::Cursor;
use crate::error::{whole_seconds, Error, Result};
use crate::iterator::Iterator;
use crate::key::{key_le, key_lt, same_name, Key, Value};
use crate::scan::ScanMode;
use crate::statistics::{CfName, CF_DEFAULT, CF_LOCK, CF_RAFT, CF_WRITE};
use std::time::Duration;
use vstd::prelude::*;

verus! {

/// The directory name of an engine that keeps nothing on disk.
pub const TEMP_DIR: &'static str = "";

/// How many seconds an answer is waited for.
pub const DEFAULT_TIMEOUT_SECS: u64 = 5;

/// What comes with an answer of the engine.
#[derive(Clone, Debug)]
pub struct CbContext {
    pub term: Option<u64>,
}

impl CbContext {
    /// A context with nothing in it.
    pub fn new() -> (ctx: CbContext)
        ensures
            ctx == (CbContext { term: None }),
    {
        CbContext { term: None }
    }
}

/// A change to what an engine holds.
#[derive(Debug)]
pub enum Modify {
    /// Removes a key from a column family.
    Delete(CfName, Key),
    /// Stores a value under a key of a column family.
    Put(CfName, Key, Value),
    /// Removes the keys of a column family that lie between two keys.
    DeleteRange(CfName, Key, Key),
}

impl Modify {
    /// What the change makes of the value under a key of a column family. A range reaches
    /// from its first key up to its second key, which is not part of it.
    pub open spec fn effect(
        self,
        cf: Seq<char>,
        key: Seq<u8>,
        before: Option<Seq<u8>>,
    ) -> Option<Seq<u8>> {
        match self {
            Modify::Delete(c, k) => if c@ == cf && k@ == key {
                None
            } else {
                before
            },
            Modify::Put(c, k, v) => if c@ == cf && k@ == key {
                Some(v@)
            } else {
                before
            },
            Modify::DeleteRange(c, start, end) => if c@ == cf && key_le(start@, key) && key_lt(
                key,
                end@,
            ) {
                None
            } else {
                before
            },
        }
    }
}

/// What the changes of a batch, one after the other, make of the value under a key of a
/// column family.
pub open spec fn batch_effect(
    batch: Seq<Modify>,
    cf: Seq<char>,
    key: Seq<u8>,
    before: Option<Seq<u8>>,
) -> Option<Seq<u8>>
    decreases batch.len(),
{
    if batch.len() == 0 {
        before
    } else {
        batch.last().effect(cf, key, batch_effect(batch.drop_last(), cf, key, before))
    }
}

/// An answer of the engine and what comes with it, if one came in time.
pub type Answer<T> = Option<(CbContext, Result<T>)>;

/// The answers to a batch of requests, in the order of the requests. `None` stands for a
/// request that has to be issued again.
pub type BatchResults<T> = Vec<Answer<T>>;

/// What an answer comes to for the one who waited `timeout` for it.
pub open spec fn settled<T>(answer: Answer<T>, timeout: Duration) -> Result<T> {
    match answer {
        Some((_, result)) => result,
        None => Err(Error::Timeout(timeout)),
    }
}

/// What an answer comes to: the result that it holds, or a timeout if there is none.
pub fn settle<T>(answer: Answer<T>, timeout: Duration) -> (result: Result<T>)
    ensures
        result == settled(answer, timeout),
{
    match answer {
        Some((_, res)) => res,
        None => Err(Error::Timeout(timeout)),
    }
}

/// The time for which an answer is waited for.
pub open spec fn default_timeout() -> Duration {
    whole_seconds(DEFAULT_TIMEOUT_SECS)
}

/// An engine.
///
/// A request is handed in first and answered later. What handing it in gives can be kept
/// while other things are done, and then be waited on. When an answer comes, and what it
/// says, is up to the engine.
pub trait Engine: Send + std::fmt::Debug + Clone + Sized + 'static {
    /// What goes with a request.
    type Context;

    type Iter: Iterator;

    type Snap: Snapshot<Iter = Self::Iter>;

    /// A write that was handed in.
    type PendingWrite;

    /// A request for a snapshot that was handed in.
    type PendingSnap;

    /// A batch of requests for snapshots that was handed in.
    type PendingBatch;

    /// The context of a request for a snapshot.
    closed spec fn snap_context(pending: Self::PendingSnap) -> Self::Context {
        arbitrary()
    }

    /// The contexts of a batch of requests for snapshots, in their order.
    closed spec fn batch_contexts(pending: Self::PendingBatch) -> Seq<Self::Context> {
        arbitrary()
    }

    /// Whether the snapshot was taken for a request with this context.
    closed spec fn taken_for(snap: Self::Snap, ctx: Self::Context) -> bool {
        arbitrary()
    }

    /// Hands in a batch of changes. A batch with no change in it is refused.
    fn async_write(&self, ctx: &Self::Context, batch: Vec<Modify>) -> (pending: Result<
        Self::PendingWrite,
    >)
        ensures
            batch@.len() == 0 ==> pending is Err,
    ;

    /// Waits for the answer to a write.
    fn wait_write(&self, pending: Self::PendingWrite, timeout: Duration) -> (answer: Answer<()>);

    /// Hands in a request for a snapshot.
    fn async_snapshot(&self, ctx: &Self::Context) -> (pending: Result<Self::PendingSnap>)
        ensures
            pending matches Ok(p) ==> Self::snap_context(p) == *ctx,
    ;

    /// Waits for the answer to a request for a snapshot.
    fn wait_snapshot(&self, pending: Self::PendingSnap, timeout: Duration) -> (answer: Answer<
        Self::Snap,
    >)
        ensures
            answer matches Some((_, Ok(snap))) ==> Self::taken_for(
                snap,
                Self::snap_context(pending),
            ),
    ;

    /// Hands in a request for a snapshot for each of the contexts. A batch with no
    /// context in it is refused.
    fn async_batch_snapshot(&self, batch: Vec<Self::Context>) -> (pending: Result<
        Self::PendingBatch,
    >)
        ensures
            batch@.len() == 0 ==> pending is Err,
            pending matches Ok(p) ==> Self::batch_contexts(p) == batch@,
    ;

    /// Waits for the answers to a batch of requests for snapshots. They come in the order
    /// of the requests; `None` stands in the place of one that has to be issued again,
    /// by `async_snapshot`.
    fn wait_batch_snapshot(&self, pending: Self::PendingBatch) -> (results: BatchResults<
        Self::Snap,
    >)
        ensures
            results@.len() == Self::batch_contexts(pending).len(),
            forall|i: int|
                #![trigger results@[i]]
                0 <= i < results@.len() ==> (results@[i] matches Some((_, Ok(snap)))
                    ==> Self::taken_for(snap, Self::batch_contexts(pending)[i])),
    ;

    /// Writes a batch of changes. The result is the error with which the engine refused
    /// the batch; or else the answer to it, or a timeout if none came in time.
    fn write(&self, ctx: &Self::Context, batch: Vec<Modify>) -> (result: Result<()>)
        ensures
            exists|pending: Result<Self::PendingWrite>| #[trigger]
                call_ensures(Self::async_write, (self, ctx, batch), pending) && match pending {
                    Ok(p) => exists|answer: Answer<()>| #[trigger]
                        call_ensures(Self::wait_write, (self, p, default_timeout()), answer)
                            && result == settled(answer, default_timeout()),
                    Err(e) => result == Err::<(), Error>(e),
                },
            batch@.len() == 0 ==> result is Err,
    {
        let timeout = Duration::from_secs(DEFAULT_TIMEOUT_SECS);
        match self.async_write(ctx, batch) {
            Ok(pending) => settle(self.wait_write(pending, timeout), timeout),
            Err(e) => Err(e),
        }
    }

    /// Takes a snapshot. The result is the error with which the engine refused the
    /// request; or else the answer to it, or a timeout if none came in time.
    fn snapshot(&self, ctx: &Self::Context) -> (result: Result<Self::Snap>)
        ensures
            exists|pending: Result<Self::PendingSnap>| #[trigger]
                call_ensures(Self::async_snapshot, (self, ctx), pending) && match pending {
                    Ok(p) => exists|answer: Answer<Self::Snap>| #[trigger]
                        call_ensures(Self::wait_snapshot, (self, p, default_timeout()), answer)
                            && result == settled(answer, default_timeout()),
                    Err(e) => result == Err::<Self::Snap, Error>(e),
                },
            result matches Ok(snap) ==> Self::taken_for(snap, *ctx),
    {
        let timeout = Duration::from_secs(DEFAULT_TIMEOUT_SECS);
        match self.async_snapshot(ctx) {
            Ok(pending) => settle(self.wait_snapshot(pending, timeout), timeout),
            Err(e) => Err(e),
        }
    }

    /// Stores a value under a key of the default column family.
    fn put(&self, ctx: &Self::Context, key: Key, value: Value) -> (result: Result<()>)
        ensures
            call_ensures(Self::put_cf, (self, ctx, CF_DEFAULT, key, value), result),
    {
        self.put_cf(ctx, CF_DEFAULT, key, value)
    }

    /// Stores a value under a key of a column family: writes that one change.
    fn put_cf(&self, ctx: &Self::Context, cf: CfName, key: Key, value: Value) -> (result: Result<
        (),
    >)
        ensures
            exists|batch: Vec<Modify>| #[trigger]
                call_ensures(Self::write, (self, ctx, batch), result) && batch@ == seq![
                    Modify::Put(cf, key, value),
                ],
    {
        let batch = vec![Modify::Put(cf, key, value)];
        assert(batch@ =~= seq![Modify::Put(cf, key, value)]);
        self.write(ctx, batch)
    }

    /// Removes a key from the default column family.
    fn delete(&self, ctx: &Self::Context, key: Key) -> (result: Result<()>)
        ensures
            call_ensures(Self::delete_cf, (self, ctx, CF_DEFAULT, key), result),
    {
        self.delete_cf(ctx, CF_DEFAULT, key)
    }

    /// Removes a key from a column family: writes that one change.
    fn delete_cf(&self, ctx: &Self::Context, cf: CfName, key: Key) -> (result: Result<()>)
        ensures
            exists|batch: Vec<Modify>| #[trigger]
                call_ensures(Self::write, (self, ctx, batch), result) && batch@ == seq![
                    Modify::Delete(cf, key),
                ],
    {
        let batch = vec![Modify::Delete(cf, key)];
        assert(batch@ =~= seq![Modify::Delete(cf, key)]);
        self.write(ctx, batch)
    }
}

/// The bytes of a value that may be there.
pub open spec fn value_bytes(value: Option<Value>) -> Option<Seq<u8>> {
    match value {
        Some(v) => Some(v@),
        None => None,
    }
}

/// What an engine held at one time.
///
/// An implementation in ordinary Rust leaves the spec functions as they are, and answers
/// for the contracts of the methods itself.
pub trait Snapshot: Send + std::fmt::Debug + Clone + Sized {
    type Iter: Iterator;

    /// How an iterator is to walk.
    type IterOption;

    /// What is known of the tables that hold the entries.
    type Properties;

    /// The value under a key of a column family, if there is one.
    closed spec fn lookup(&self, cf: Seq<char>, key: Seq<u8>) -> Option<Seq<u8>> {
        arbitrary()
    }

    /// Whether an iterator with the option walks over the key, if the key is there.
    closed spec fn spans(iter_opt: Self::IterOption, key: Seq<u8>) -> bool {
        arbitrary()
    }

    /// The value under a key of the default column family.
    fn get(&self, key: &Key) -> (value: Result<Option<Value>>)
        ensures
            value matches Ok(v) ==> value_bytes(v) == self.lookup(CF_DEFAULT@, key@),
    ;

    /// The value under a key of a column family.
    fn get_cf(&self, cf: CfName, key: &Key) -> (value: Result<Option<Value>>)
        ensures
            value matches Ok(v) ==> value_bytes(v) == self.lookup(cf@, key@),
    ;

    /// A new cursor over the default column family.
    fn iter(&self, iter_opt: Self::IterOption, mode: ScanMode) -> (cursor: Result<
        Cursor<Self::Iter>,
    >)
        ensures
            cursor matches Ok(c) ==> {
                &&& c@.wf()
                &&& c@.is_new(mode)
                &&& forall|k: Seq<u8>, v: Seq<u8>| #[trigger]
                    c@.entries().contains((k, v)) <==> self.lookup(CF_DEFAULT@, k) == Some(v)
                        && Self::spans(iter_opt, k)
            },
    ;

    /// A new cursor over a column family.
    fn iter_cf(&self, cf: CfName, iter_opt: Self::IterOption, mode: ScanMode) -> (cursor: Result<
        Cursor<Self::Iter>,
    >)
        ensures
            cursor matches Ok(c) ==> {
                &&& c@.wf()
                &&& c@.is_new(mode)
                &&& forall|k: Seq<u8>, v: Seq<u8>| #[trigger]
                    c@.entries().contains((k, v)) <==> self.lookup(cf@, k) == Some(v)
                        && Self::spans(iter_opt, k)
            },
    ;

    /// The properties of the tables of the default column family.
    fn get_properties(&self) -> (properties: Result<Self::Properties>)
        ensures
            call_ensures(Self::get_properties_cf, (self, CF_DEFAULT), properties),
    {
        self.get_properties_cf(CF_DEFAULT)
    }

    /// The properties of the tables of a column family. Unless a snapshot says otherwise,
    /// it has none.
    fn get_properties_cf(&self, cf: CfName) -> (properties: Result<Self::Properties>)
        default_ensures
            properties matches Err(Error::RocksDb(msg)) && msg@ == "no user properties"@,
    {
        Err(Error::RocksDb("no user properties".to_owned()))
    }
}

/// What knows where the regions of the key space lie.
pub trait RegionInfoProvider: Send + Sized + Clone + 'static {
    /// Which peers are looked for.
    type SeekRegionFilter;

    /// What a search for a region comes to.
    type SeekRegionResult;

    /// Finds the first region whose range contains `from` or lies after it, and whose peer
    /// on this store passes the filter.
    fn seek_region(&self, from: &[u8], filter: Self::SeekRegionFilter, limit: u32) -> (result:
        Result<Self::SeekRegionResult>);
}

/// The part of the configuration that a column family of a local engine is set up by.
#[derive(Debug, PartialEq, Eq, Clone, Copy, Structural)]
pub enum CfConfig {
    /// That of the default column family.
    Default,
    /// That of the lock column family.
    Lock,
    /// That of the write column family.
    Write,
    /// That of the raft column family.
    Raft,
    /// None: the column family is set up with plain options.
    Plain,
}

/// The part of the configuration for the column family of this name.
pub open spec fn cf_config(cf: Seq<char>) -> CfConfig {
    if cf == CF_DEFAULT@ {
        CfConfig::Default
    } else if cf == CF_LOCK@ {
        CfConfig::Lock
    } else if cf == CF_WRITE@ {
        CfConfig::Write
    } else if cf == CF_RAFT@ {
        CfConfig::Raft
    } else {
        CfConfig::Plain
    }
}

/// By which part of the configuration each column family of a local engine is set up, in
/// the order in which they are given.
pub fn local_cf_configs(cfs: &[CfName]) -> (configs: Vec<(CfName, CfConfig)>)
    ensures
        configs@.len() == cfs@.len(),
        forall|i: int|
            #![trigger configs@[i]]
            0 <= i < cfs@.len() ==> configs@[i] == (cfs@[i], cf_config(cfs@[i]@)),
{
    let mut configs: Vec<(CfName, CfConfig)> = Vec::with_capacity(cfs.len());
    let mut i: usize = 0;
    while i < cfs.len()
        invariant
            i <= cfs@.len(),
            configs@.len() == i,
            forall|j: int|
                #![trigger configs@[j]]
                0 <= j < i ==> configs@[j] == (cfs@[j], cf_config(cfs@[j]@)),
        decreases cfs@.len() - i,
    {
        let cf = cfs[i];
        let config = if same_name(cf, CF_DEFAULT) {
            CfConfig::Default
        } else if same_name(cf, CF_LOCK) {
            CfConfig::Lock
        } else if same_name(cf, CF_WRITE) {
            CfConfig::Write
        } else if same_name(cf, CF_RAFT) {
            CfConfig::Raft
        } else {
            CfConfig::Plain
        };
        configs.push((cf, config));
        i += 1;
    }
    configs
}

} // verus!
