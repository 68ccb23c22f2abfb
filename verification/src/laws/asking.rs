//! What holds of every request to an engine, of its answers, and of what it is set up by.
use crate::engine::{local_cf_configs, settle, Answer, CbContext, CfConfig, Engine, Modify};
use crate::engine::{Snapshot, DEFAULT_TIMEOUT_SECS, TEMP_DIR};
use crate::error::{whole_seconds, Error, ErrorHeader, Result};
use crate::iterator::{bounds_part_entries, stands_in_order, Iterator};
use crate::key::{key_le, key_lt_total, Key, Value};
use crate::memory::MemorySnapshot;
use crate::scan::SEEK_BOUND;
use crate::statistics::{CfName, CF_DEFAULT, CF_LOCK, CF_RAFT, CF_WRITE};
use std::time::Duration;
use vstd::prelude::*;

verus! {

/// The names of the column families, the time for which an answer is waited for, and the
/// number of entries that are passed one by one.
pub proof fn fixed_values()
    ensures
        CF_DEFAULT@ == "default"@,
        CF_LOCK@ == "lock"@,
        CF_WRITE@ == "write"@,
        CF_RAFT@ == "raft"@,
        TEMP_DIR@ == ""@,
        DEFAULT_TIMEOUT_SECS == 5,
        SEEK_BOUND == 30,
{
}

/// Whether the result is what an answer comes to after waiting five seconds for it: what the
/// answer holds, or a timeout if there is none.
pub open spec fn comes_to<T>(answer: Answer<T>, result: Result<T>) -> bool {
    match answer {
        Some((_, held)) => result == held,
        None => result == Err::<T, Error>(Error::Timeout(whole_seconds(5))),
    }
}

/// Every answer comes to the result that it holds, be that an error, and no answer comes to a
/// timeout after the time for which it was waited for.
pub proof fn every_answer_is_passed_on<T>()
    ensures
        forall|answer: Answer<T>, timeout: Duration, result: Result<T>| #[trigger]
            call_ensures(settle::<T>, (answer, timeout), result) ==> {
                &&& answer matches Some((_, held)) ==> result == held
                &&& answer is None ==> result == Err::<T, Error>(Error::Timeout(timeout))
            },
{
}

/// Every write hands the batch to the engine, waits five seconds for the answer, and comes to
/// the answer; a batch that the engine does not take comes to the engine's error. Every
/// request for a snapshot goes the same way.
pub proof fn every_request_is_handed_in_and_waited_for<E: Engine>()
    ensures
        forall|engine: &E, ctx: &E::Context, batch: Vec<Modify>, result: Result<()>| #[trigger]
            call_ensures(E::write, (engine, ctx, batch), result) ==> exists|
                pending: Result<E::PendingWrite>,
            | #[trigger]
                call_ensures(E::async_write, (engine, ctx, batch), pending) && match pending {
                    Ok(p) => exists|answer: Answer<()>| #[trigger]
                        call_ensures(E::wait_write, (engine, p, whole_seconds(5)), answer)
                            && comes_to(answer, result),
                    Err(e) => result == Err::<(), Error>(e),
                },
        forall|engine: &E, ctx: &E::Context, batch: Vec<Modify>, result: Result<()>| #[trigger]
            call_ensures(E::write, (engine, ctx, batch), result) && batch@.len() == 0
                ==> result is Err,
        forall|engine: &E, ctx: &E::Context, result: Result<E::Snap>| #[trigger]
            call_ensures(E::snapshot, (engine, ctx), result) ==> exists|
                pending: Result<E::PendingSnap>,
            | #[trigger]
                call_ensures(E::async_snapshot, (engine, ctx), pending) && match pending {
                    Ok(p) => exists|answer: Answer<E::Snap>| #[trigger]
                        call_ensures(E::wait_snapshot, (engine, p, whole_seconds(5)), answer)
                            && comes_to(answer, result),
                    Err(e) => result == Err::<E::Snap, Error>(e),
                },
{
}

/// Every storing of a value, and every removal of a key, comes to what a write of that one
/// change comes to; without the name of a column family, it is a change to the default one.
pub proof fn every_change_is_written<E: Engine>()
    ensures
        forall|
            engine: &E,
            ctx: &E::Context,
            cf: CfName,
            key: Key,
            value: Value,
            result: Result<()>,
        | #[trigger]
            call_ensures(E::put_cf, (engine, ctx, cf, key, value), result) ==> exists|
                batch: Vec<Modify>,
            | #[trigger]
                call_ensures(E::write, (engine, ctx, batch), result) && batch@.len() == 1
                    && batch@[0] == Modify::Put(cf, key, value),
        forall|engine: &E, ctx: &E::Context, key: Key, value: Value, result: Result<()>|
            #[trigger] call_ensures(E::put, (engine, ctx, key, value), result) ==> exists|
                batch: Vec<Modify>,
            | #[trigger]
                call_ensures(E::write, (engine, ctx, batch), result) && batch@.len() == 1
                    && batch@[0] == Modify::Put("default", key, value),
        forall|engine: &E, ctx: &E::Context, cf: CfName, key: Key, result: Result<()>|
            #[trigger] call_ensures(E::delete_cf, (engine, ctx, cf, key), result) ==> exists|
                batch: Vec<Modify>,
            | #[trigger]
                call_ensures(E::write, (engine, ctx, batch), result) && batch@.len() == 1
                    && batch@[0] == Modify::Delete(cf, key),
        forall|engine: &E, ctx: &E::Context, key: Key, result: Result<()>| #[trigger]
            call_ensures(E::delete, (engine, ctx, key), result) ==> exists|
                batch: Vec<Modify>,
            | #[trigger]
                call_ensures(E::write, (engine, ctx, batch), result) && batch@.len() == 1
                    && batch@[0] == Modify::Delete("default", key),
{
}

/// A new context of an answer holds no term.
pub proof fn every_new_context_is_empty()
    ensures
        forall|
            ctx: CbContext,
        | #[trigger] call_ensures(CbContext::new, (), ctx) ==> ctx.term is None,
{
}

/// Every error but the last kind is copied with all that it holds.
pub proof fn every_copy_of_an_error_is_the_same()
    ensures
        forall|error: &Error, copy: Option<Error>| #[trigger]
            call_ensures(Error::maybe_clone, (error,), copy) ==> match *error {
                Error::Request(header) => copy matches Some(Error::Request(h)) && h.encoded@
                    == header.encoded@,
                Error::RocksDb(msg) => copy matches Some(Error::RocksDb(m)) && m@ == msg@,
                Error::Timeout(d) => copy == Some(Error::Timeout(d)),
                Error::EmptyRequest => copy == Some(Error::EmptyRequest),
                Error::Other(_) => copy is None,
            },
{
}

/// Every column family of a local engine is set up by the part of the configuration that has
/// its name, in the order in which they are given; one with another name is set up plainly.
pub proof fn every_column_family_is_set_up_by_its_name()
    ensures
        forall|cfs: &[CfName], configs: Vec<(CfName, CfConfig)>| #[trigger]
            call_ensures(local_cf_configs, (cfs,), configs) ==> configs@.len() == cfs@.len(),
        forall|cfs: &[CfName], configs: Vec<(CfName, CfConfig)>, i: int|
            #![trigger call_ensures(local_cf_configs, (cfs,), configs), configs@[i]]
            call_ensures(local_cf_configs, (cfs,), configs) && 0 <= i < cfs@.len() ==> {
                let (name, config) = configs@[i];
                &&& name@ == cfs@[i]@
                &&& name@ == "default"@ ==> config == CfConfig::Default
                &&& name@ == "lock"@ ==> config == CfConfig::Lock
                &&& name@ == "write"@ ==> config == CfConfig::Write
                &&& name@ == "raft"@ ==> config == CfConfig::Raft
                &&& name@ != "default"@ && name@ != "lock"@ && name@ != "write"@ && name@
                    != "raft"@ ==> config == CfConfig::Plain
            },
{
    reveal_strlit("default");
    reveal_strlit("lock");
    reveal_strlit("write");
    reveal_strlit("raft");
    assert("lock"@[0] != "default"@[0]);
    assert("write"@[0] != "default"@[0]);
    assert("raft"@[0] != "default"@[0]);
    assert("write"@[0] != "lock"@[0]);
    assert("raft"@[0] != "lock"@[0]);
    assert("raft"@[0] != "write"@[0]);
}

/// Every iterator that is asked to seek a key, and does not refuse, goes to the first entry
/// whose key is not before it, or to the last whose key is not after it.
pub proof fn every_iterator_seeks_in_order<I: Iterator>()
    ensures
        forall|iter: &mut I, key: &Key, found: bool, i: int|
            #![trigger call_ensures(I::seek, (iter, key), Ok(found)), iter.source().entries[i]]
            call_ensures(I::seek, (iter, key), Ok(found)) && stands_in_order(
                iter.source(),
                iter.at(),
            ) && 0 <= i < iter.source().entries.len() ==> {
                &&& final(iter).source() == iter.source()
                &&& found <==> final(iter).at() is Some
                &&& key_le(key@, iter.source().entries[i].0) ==> found && final(iter).at()->0 <= i
                &&& found && final(iter).at()->0 == i ==> key_le(key@, iter.source().entries[i].0)
            },
        forall|iter: &mut I, key: &Key, found: bool, i: int|
            #![trigger
                call_ensures(I::seek_for_prev, (iter, key), Ok(found)),
                iter.source().entries[i]
            ]
            call_ensures(I::seek_for_prev, (iter, key), Ok(found)) && stands_in_order(
                iter.source(),
                iter.at(),
            ) && 0 <= i < iter.source().entries.len() ==> {
                &&& final(iter).source() == iter.source()
                &&& found <==> final(iter).at() is Some
                &&& key_le(iter.source().entries[i].0, key@) ==> found && i <= final(iter).at()->0
                &&& found && final(iter).at()->0 == i ==> key_le(iter.source().entries[i].0, key@)
            },
{
    assert forall|iter: &mut I, key: &Key, found: bool, i: int|
        #![trigger call_ensures(I::seek, (iter, key), Ok(found)), iter.source().entries[i]]
        call_ensures(I::seek, (iter, key), Ok(found)) && stands_in_order(
            iter.source(),
            iter.at(),
        ) && 0 <= i < iter.source().entries.len() implies {
        &&& final(iter).source() == iter.source()
        &&& found <==> final(iter).at() is Some
        &&& key_le(key@, iter.source().entries[i].0) ==> found && final(iter).at()->0 <= i
        &&& found && final(iter).at()->0 == i ==> key_le(key@, iter.source().entries[i].0)
    } by {
        bounds_part_entries(iter.source().entries, key@);
        key_lt_total(iter.source().entries[i].0, key@);
    }
    assert forall|iter: &mut I, key: &Key, found: bool, i: int|
        #![trigger call_ensures(I::seek_for_prev, (iter, key), Ok(found)), iter.source().entries[i]]
        call_ensures(I::seek_for_prev, (iter, key), Ok(found)) && stands_in_order(
            iter.source(),
            iter.at(),
        ) && 0 <= i < iter.source().entries.len() implies {
        &&& final(iter).source() == iter.source()
        &&& found <==> final(iter).at() is Some
        &&& key_le(iter.source().entries[i].0, key@) ==> found && i <= final(iter).at()->0
        &&& found && final(iter).at()->0 == i ==> key_le(iter.source().entries[i].0, key@)
    } by {
        bounds_part_entries(iter.source().entries, key@);
        key_lt_total(iter.source().entries[i].0, key@);
    }
}

/// A snapshot in memory has no properties, of any column family.
pub proof fn every_memory_snapshot_lacks_properties()
    ensures
        forall|held: &MemorySnapshot, cf: CfName, properties: Result<()>| #[trigger]
            call_ensures(MemorySnapshot::get_properties_cf, (held, cf), properties) ==> (
            properties matches Err(Error::RocksDb(msg)) && msg@ == "no user properties"@),
        forall|held: &MemorySnapshot, properties: Result<()>| #[trigger]
            call_ensures(MemorySnapshot::get_properties, (held,), properties) ==> (
            properties matches Err(Error::RocksDb(msg)) && msg@ == "no user properties"@),
{
}

/// A header of a refused request becomes the error that holds it, and a message of RocksDB the
/// error that holds that message.
pub proof fn every_cause_is_kept()
    ensures
        forall|header: ErrorHeader, e: Error| #[trigger]
            call_ensures(<Error as From<ErrorHeader>>::from, (header,), e) ==> e == Error::Request(
                header,
            ),
        forall|msg: String, e: Error| #[trigger]
            call_ensures(<Error as From<String>>::from, (msg,), e) ==> e == Error::RocksDb(msg),
{
}

} // verus!
