//! The engine layer over a store in memory.
use std::sync::{Arc, Mutex};
use std::time::Duration;
use storage_engine::cursor::Cursor;
use storage_engine::engine::{Answer, BatchResults, CbContext, Engine, Modify, Snapshot};
use storage_engine::error::{Error, Result};
use storage_engine::iterator::Iterator as EngineIterator;
use storage_engine::key::Key;
use storage_engine::memory::{MemoryIterator, MemorySnapshot, MemoryStore};
use storage_engine::scan::{ScanMode, SEEK_BOUND};
use storage_engine::statistics::{CFStatistics, CfName, CF_DEFAULT};

/// An engine whose requests are answered at once.
#[derive(Debug, Clone)]
struct LocalEngine {
    store: Arc<Mutex<MemoryStore>>,
}

fn new_engine() -> LocalEngine {
    LocalEngine { store: Arc::new(Mutex::new(MemoryStore::new())) }
}

impl Engine for LocalEngine {
    type Context = ();
    type Iter = MemoryIterator;
    type Snap = MemorySnapshot;
    type PendingWrite = ();
    type PendingSnap = MemorySnapshot;
    type PendingBatch = Vec<MemorySnapshot>;

    fn async_write(&self, _: &(), batch: Vec<Modify>) -> Result<()> {
        self.store.lock().unwrap().write(&batch)
    }

    fn wait_write(&self, _: (), _: Duration) -> Answer<()> {
        Some((CbContext::new(), Ok(())))
    }

    fn async_snapshot(&self, _: &()) -> Result<MemorySnapshot> {
        Ok(self.store.lock().unwrap().snapshot())
    }

    fn wait_snapshot(&self, pending: MemorySnapshot, _: Duration) -> Answer<MemorySnapshot> {
        Some((CbContext::new(), Ok(pending)))
    }

    fn async_batch_snapshot(&self, batch: Vec<()>) -> Result<Vec<MemorySnapshot>> {
        if batch.is_empty() {
            return Err(Error::EmptyRequest);
        }
        Ok(batch.iter().map(|_| self.store.lock().unwrap().snapshot()).collect())
    }

    fn wait_batch_snapshot(&self, pending: Vec<MemorySnapshot>) -> BatchResults<MemorySnapshot> {
        pending.into_iter().map(|snap| Some((CbContext::new(), Ok(snap)))).collect()
    }
}

/// Bytes in groups of eight, each followed by a marker, so that encoded keys are in the
/// order of the keys.
fn encode_bytes(key: &[u8]) -> Vec<u8> {
    let mut encoded = Vec::new();
    let mut index = 0;
    while index <= key.len() {
        let group = &key[index..key.len().min(index + 8)];
        encoded.extend_from_slice(group);
        encoded.resize(encoded.len() + 8 - group.len(), 0);
        encoded.push(0xff - (8 - group.len()) as u8);
        index += 8;
    }
    encoded
}

fn make_key(key: &[u8]) -> Key {
    Key::from_encoded(encode_bytes(key))
}

fn must_put<E: Engine<Context = ()>>(engine: &E, key: &[u8], value: &[u8]) {
    engine.put(&(), make_key(key), value.to_vec()).unwrap();
}

fn must_put_cf<E: Engine<Context = ()>>(engine: &E, cf: CfName, key: &[u8], value: &[u8]) {
    engine.put_cf(&(), cf, make_key(key), value.to_vec()).unwrap();
}

fn must_delete<E: Engine<Context = ()>>(engine: &E, key: &[u8]) {
    engine.delete(&(), make_key(key)).unwrap();
}

fn must_delete_cf<E: Engine<Context = ()>>(engine: &E, cf: CfName, key: &[u8]) {
    engine.delete_cf(&(), cf, make_key(key)).unwrap();
}

fn assert_has<E: Engine<Context = ()>>(engine: &E, key: &[u8], value: &[u8]) {
    let snapshot = engine.snapshot(&()).unwrap();
    assert_eq!(snapshot.get(&make_key(key)).unwrap().unwrap(), value);
}

fn assert_has_cf<E: Engine<Context = ()>>(engine: &E, cf: CfName, key: &[u8], value: &[u8]) {
    let snapshot = engine.snapshot(&()).unwrap();
    assert_eq!(snapshot.get_cf(cf, &make_key(key)).unwrap().unwrap(), value);
}

fn assert_none<E: Engine<Context = ()>>(engine: &E, key: &[u8]) {
    let snapshot = engine.snapshot(&()).unwrap();
    assert_eq!(snapshot.get(&make_key(key)).unwrap(), None);
}

fn assert_none_cf<E: Engine<Context = ()>>(engine: &E, cf: CfName, key: &[u8]) {
    let snapshot = engine.snapshot(&()).unwrap();
    assert_eq!(snapshot.get_cf(cf, &make_key(key)).unwrap(), None);
}

fn assert_seek(engine: &LocalEngine, key: &[u8], pair: (&[u8], &[u8])) {
    let snapshot = engine.snapshot(&()).unwrap();
    let mut iter = snapshot.iter((), ScanMode::Mixed).unwrap();
    let mut statistics = CFStatistics::default();
    iter.seek(&make_key(key), &mut statistics).unwrap();
    assert_eq!(iter.key(&mut statistics), &*encode_bytes(pair.0));
    assert_eq!(iter.value(&mut statistics), pair.1);
}

fn assert_reverse_seek(engine: &LocalEngine, key: &[u8], pair: (&[u8], &[u8])) {
    let snapshot = engine.snapshot(&()).unwrap();
    let mut iter = snapshot.iter((), ScanMode::Mixed).unwrap();
    let mut statistics = CFStatistics::default();
    iter.reverse_seek(&make_key(key), &mut statistics).unwrap();
    assert_eq!(iter.key(&mut statistics), &*encode_bytes(pair.0));
    assert_eq!(iter.value(&mut statistics), pair.1);
}

fn assert_near_seek<I: EngineIterator>(cursor: &mut Cursor<I>, key: &[u8], pair: (&[u8], &[u8])) {
    let mut statistics = CFStatistics::default();
    assert!(cursor.near_seek(&make_key(key), false, &mut statistics).unwrap(), "{:?}", key);
    assert_eq!(cursor.key(&mut statistics), &*encode_bytes(pair.0));
    assert_eq!(cursor.value(&mut statistics), pair.1);
}

fn assert_near_reverse_seek<I: EngineIterator>(
    cursor: &mut Cursor<I>,
    key: &[u8],
    pair: (&[u8], &[u8]),
) {
    let mut statistics = CFStatistics::default();
    assert!(cursor.near_reverse_seek(&make_key(key), false, &mut statistics).unwrap(), "{:?}", key);
    assert_eq!(cursor.key(&mut statistics), &*encode_bytes(pair.0));
    assert_eq!(cursor.value(&mut statistics), pair.1);
}

fn test_get_put<E: Engine<Context = ()>>(engine: &E) {
    assert_none(engine, b"x");
    must_put(engine, b"x", b"1");
    assert_has(engine, b"x", b"1");
    must_put(engine, b"x", b"2");
    assert_has(engine, b"x", b"2");
}

fn test_batch<E: Engine<Context = ()>>(engine: &E) {
    engine
        .write(
            &(),
            vec![
                Modify::Put(CF_DEFAULT, make_key(b"x"), b"1".to_vec()),
                Modify::Put(CF_DEFAULT, make_key(b"y"), b"2".to_vec()),
            ],
        )
        .unwrap();
    assert_has(engine, b"x", b"1");
    assert_has(engine, b"y", b"2");

    engine
        .write(
            &(),
            vec![
                Modify::Delete(CF_DEFAULT, make_key(b"x")),
                Modify::Delete(CF_DEFAULT, make_key(b"y")),
            ],
        )
        .unwrap();
    assert_none(engine, b"y");
    assert_none(engine, b"y");
}

fn test_seek(engine: &LocalEngine) {
    must_put(engine, b"x", b"1");
    assert_seek(engine, b"x", (b"x", b"1"));
    assert_seek(engine, b"a", (b"x", b"1"));
    assert_reverse_seek(engine, b"x1", (b"x", b"1"));
    must_put(engine, b"z", b"2");
    assert_seek(engine, b"y", (b"z", b"2"));
    assert_seek(engine, b"x\x00", (b"z", b"2"));
    assert_reverse_seek(engine, b"y", (b"x", b"1"));
    assert_reverse_seek(engine, b"z", (b"x", b"1"));
    let snapshot = engine.snapshot(&()).unwrap();
    let mut iter = snapshot.iter((), ScanMode::Mixed).unwrap();
    let mut statistics = CFStatistics::default();
    assert!(!iter.seek(&make_key(b"z\x00"), &mut statistics).unwrap());
    assert!(!iter.reverse_seek(&make_key(b"x"), &mut statistics).unwrap());
    must_delete(engine, b"x");
    must_delete(engine, b"z");
}

fn test_near_seek(engine: &LocalEngine) {
    must_put(engine, b"x", b"1");
    must_put(engine, b"z", b"2");
    let snapshot = engine.snapshot(&()).unwrap();
    let mut cursor = snapshot.iter((), ScanMode::Mixed).unwrap();
    assert_near_seek(&mut cursor, b"x", (b"x", b"1"));
    assert_near_seek(&mut cursor, b"a", (b"x", b"1"));
    assert_near_reverse_seek(&mut cursor, b"z1", (b"z", b"2"));
    assert_near_reverse_seek(&mut cursor, b"x1", (b"x", b"1"));
    assert_near_seek(&mut cursor, b"y", (b"z", b"2"));
    assert_near_seek(&mut cursor, b"x\x00", (b"z", b"2"));
    let mut statistics = CFStatistics::default();
    assert!(!cursor.near_seek(&make_key(b"z\x00"), false, &mut statistics).unwrap());
    // Insert many key-values between 'x' and 'z' then near_seek will fallback to seek.
    for i in 0..SEEK_BOUND {
        let key = format!("y{}", i);
        must_put(engine, key.as_bytes(), b"3");
    }
    let snapshot = engine.snapshot(&()).unwrap();
    let mut cursor = snapshot.iter((), ScanMode::Mixed).unwrap();
    assert_near_seek(&mut cursor, b"x", (b"x", b"1"));
    assert_near_seek(&mut cursor, b"z", (b"z", b"2"));

    must_delete(engine, b"x");
    must_delete(engine, b"z");
    for i in 0..SEEK_BOUND {
        let key = format!("y{}", i);
        must_delete(engine, key.as_bytes());
    }
}

fn test_empty_seek(engine: &LocalEngine) {
    let snapshot = engine.snapshot(&()).unwrap();
    let mut cursor = snapshot.iter((), ScanMode::Mixed).unwrap();
    let mut statistics = CFStatistics::default();
    assert!(!cursor.near_reverse_seek(&make_key(b"x"), false, &mut statistics).unwrap());
    assert!(!cursor.near_reverse_seek(&make_key(b"z"), false, &mut statistics).unwrap());
    assert!(!cursor.near_reverse_seek(&make_key(b"w"), false, &mut statistics).unwrap());
    assert!(!cursor.near_seek(&make_key(b"x"), false, &mut statistics).unwrap());
    assert!(!cursor.near_seek(&make_key(b"z"), false, &mut statistics).unwrap());
    assert!(!cursor.near_seek(&make_key(b"w"), false, &mut statistics).unwrap());
}

fn test_cf<E: Engine<Context = ()>>(engine: &E) {
    assert_none_cf(engine, "cf", b"key");
    must_put_cf(engine, "cf", b"key", b"value");
    assert_has_cf(engine, "cf", b"key", b"value");
    must_delete_cf(engine, "cf", b"key");
    assert_none_cf(engine, "cf", b"key");
}

fn test_empty_write<E: Engine<Context = ()>>(engine: &E) {
    engine.write(&(), vec![]).unwrap_err();
}

fn test_empty_batch_snapshot(engine: &LocalEngine) {
    engine.async_batch_snapshot(vec![]).unwrap_err();
}

#[test]
fn rocksdb() {
    let engine = new_engine();

    test_get_put(&engine);
    test_batch(&engine);
    test_empty_seek(&engine);
    test_seek(&engine);
    test_near_seek(&engine);
    test_cf(&engine);
    test_empty_write(&engine);
    test_empty_batch_snapshot(&engine);
}

#[derive(PartialEq, Eq, Clone, Copy)]
enum SeekMode {
    Normal,
    Reverse,
    ForPrev,
}

fn check_found(
    cursor: &mut Cursor<MemoryIterator>,
    found: Result<bool>,
    mut statistics: CFStatistics,
    key: &str,
    exp: &Option<(String, String)>,
) {
    assert_eq!(found.unwrap(), exp.is_some(), "seek {} failed exp {:?}", key, exp);
    if let Some((k, v)) = exp {
        assert_eq!(cursor.key(&mut statistics), encode_bytes(k.as_bytes()).as_slice());
        assert_eq!(cursor.value(&mut statistics), v.as_bytes());
    }
}

// use step to control the distance between target key and current key in cursor.
fn test_linear_seek(
    snapshot: &MemorySnapshot,
    mode: ScanMode,
    seek_mode: SeekMode,
    start_idx: usize,
    step: usize,
) {
    let mut cursor = snapshot.iter((), mode).unwrap();
    let mut near_cursor = snapshot.iter((), mode).unwrap();
    let limit = (SEEK_BOUND * 10 + 50 - 1) * 2;

    for (_, mut i) in (start_idx..(SEEK_BOUND * 30)).enumerate().filter(|&(i, _)| i % step == 0) {
        if seek_mode != SeekMode::Normal {
            i = SEEK_BOUND * 30 - 1 - i;
        }
        let key = format!("key_{:03}", i);
        let seek_key = make_key(key.as_bytes());
        let exp_kv = if i <= 100 {
            match seek_mode {
                SeekMode::Reverse => None,
                SeekMode::ForPrev if i < 100 => None,
                SeekMode::Normal | SeekMode::ForPrev => {
                    Some(("key_100".to_owned(), "value_50".to_owned()))
                }
            }
        } else if i <= limit {
            if seek_mode == SeekMode::Reverse {
                Some((format!("key_{}", (i - 1) / 2 * 2), format!("value_{}", (i - 1) / 2)))
            } else if seek_mode == SeekMode::ForPrev {
                Some((format!("key_{}", i / 2 * 2), format!("value_{}", i / 2)))
            } else {
                Some((format!("key_{}", (i + 1) / 2 * 2), format!("value_{}", (i + 1) / 2)))
            }
        } else if seek_mode != SeekMode::Normal {
            Some((format!("key_{:03}", limit), format!("value_{:03}", limit / 2)))
        } else {
            None
        };

        let mut stat = CFStatistics::default();
        let mut near_stat = CFStatistics::default();
        let (found, near_found) = match seek_mode {
            SeekMode::Reverse => (
                cursor.reverse_seek(&seek_key, &mut stat),
                near_cursor.near_reverse_seek(&seek_key, false, &mut near_stat),
            ),
            SeekMode::Normal => (
                cursor.seek(&seek_key, &mut stat),
                near_cursor.near_seek(&seek_key, false, &mut near_stat),
            ),
            SeekMode::ForPrev => (
                cursor.seek_for_prev(&seek_key, &mut stat),
                near_cursor.near_seek_for_prev(&seek_key, false, &mut near_stat),
            ),
        };
        check_found(&mut cursor, found, stat, &key, &exp_kv);
        check_found(&mut near_cursor, near_found, near_stat, &key, &exp_kv);
    }
}

#[test]
fn test_linear() {
    let engine = new_engine();
    for i in 50..50 + SEEK_BOUND * 10 {
        let key = format!("key_{}", i * 2);
        let value = format!("value_{}", i);
        must_put(&engine, key.as_bytes(), value.as_bytes());
    }
    let snapshot = engine.snapshot(&()).unwrap();

    for step in 1..SEEK_BOUND * 3 {
        for start in 0..10 {
            test_linear_seek(
                &snapshot,
                ScanMode::Forward,
                SeekMode::Normal,
                start * SEEK_BOUND,
                step,
            );
            test_linear_seek(
                &snapshot,
                ScanMode::Backward,
                SeekMode::Reverse,
                start * SEEK_BOUND,
                step,
            );
            test_linear_seek(
                &snapshot,
                ScanMode::Backward,
                SeekMode::ForPrev,
                start * SEEK_BOUND,
                step,
            );
        }
    }
    for &seek_mode in &[SeekMode::Reverse, SeekMode::Normal, SeekMode::ForPrev] {
        for step in 1..SEEK_BOUND * 3 {
            for start in 0..10 {
                test_linear_seek(&snapshot, ScanMode::Mixed, seek_mode, start * SEEK_BOUND, step);
            }
        }
    }
}

#[test]
fn test_statistics() {
    let engine = new_engine();

    must_put(&engine, b"foo", b"bar1");
    must_put(&engine, b"foo2", b"bar2");
    must_put(&engine, b"foo3", b"bar3"); // deleted
    must_put(&engine, b"foo4", b"bar4");
    must_put(&engine, b"foo42", b"bar42"); // deleted
    must_put(&engine, b"foo5", b"bar5"); // deleted
    must_put(&engine, b"foo6", b"bar6");
    must_delete(&engine, b"foo3");
    must_delete(&engine, b"foo42");
    must_delete(&engine, b"foo5");

    let snapshot = engine.snapshot(&()).unwrap();
    let mut iter = snapshot.iter((), ScanMode::Forward).unwrap();

    let mut statistics = CFStatistics::default();
    iter.seek(&make_key(b"foo30"), &mut statistics).unwrap();

    assert_eq!(iter.key(&mut statistics), &*encode_bytes(b"foo4"));
    assert_eq!(iter.value(&mut statistics), b"bar4");
    assert_eq!(statistics.seek, 1);

    let mut statistics = CFStatistics::default();
    iter.near_seek(&make_key(b"foo55"), false, &mut statistics).unwrap();

    assert_eq!(iter.key(&mut statistics), &*encode_bytes(b"foo6"));
    assert_eq!(iter.value(&mut statistics), b"bar6");
    assert_eq!(statistics.seek, 0);
    assert_eq!(statistics.next, 1);

    let mut statistics = CFStatistics::default();
    iter.prev(&mut statistics);

    assert_eq!(iter.key(&mut statistics), &*encode_bytes(b"foo4"));
    assert_eq!(iter.value(&mut statistics), b"bar4");
    assert_eq!(statistics.prev, 1);

    iter.prev(&mut statistics);
    assert_eq!(iter.key(&mut statistics), &*encode_bytes(b"foo2"));
    assert_eq!(iter.value(&mut statistics), b"bar2");
    assert_eq!(statistics.prev, 2);

    iter.prev(&mut statistics);
    assert_eq!(iter.key(&mut statistics), &*encode_bytes(b"foo"));
    assert_eq!(iter.value(&mut statistics), b"bar1");
    assert_eq!(statistics.prev, 3);
}

#[test]
fn a_range_is_deleted_without_its_end() {
    let engine = new_engine();
    must_put(&engine, b"a", b"1");
    must_put(&engine, b"b", b"2");
    must_put(&engine, b"c", b"3");
    must_put_cf(&engine, "cf", b"b", b"4");
    engine
        .write(&(), vec![Modify::DeleteRange(CF_DEFAULT, make_key(b"a"), make_key(b"c"))])
        .unwrap();
    assert_none(&engine, b"a");
    assert_none(&engine, b"b");
    assert_has(&engine, b"c", b"3");
    assert_has_cf(&engine, "cf", b"b", b"4");
}

#[test]
fn changes_of_a_batch_follow_one_another() {
    let engine = new_engine();
    engine
        .write(
            &(),
            vec![
                Modify::Put(CF_DEFAULT, make_key(b"k"), b"1".to_vec()),
                Modify::Delete(CF_DEFAULT, make_key(b"k")),
                Modify::Put(CF_DEFAULT, make_key(b"k"), b"2".to_vec()),
                Modify::Put(CF_DEFAULT, make_key(b"l"), b"3".to_vec()),
                Modify::Delete(CF_DEFAULT, make_key(b"l")),
            ],
        )
        .unwrap();
    assert_has(&engine, b"k", b"2");
    assert_none(&engine, b"l");
}

#[test]
fn an_empty_write_is_refused_as_such() {
    let mut store = MemoryStore::new();
    assert!(matches!(store.write(&vec![]), Err(Error::EmptyRequest)));
    assert!(matches!(new_engine().write(&(), vec![]), Err(Error::EmptyRequest)));
}

#[test]
fn a_snapshot_keeps_what_was_there() {
    let engine = new_engine();
    must_put(&engine, b"k", b"1");
    let snapshot = engine.snapshot(&()).unwrap();
    must_put(&engine, b"k", b"2");
    assert_eq!(snapshot.get(&make_key(b"k")).unwrap().unwrap(), b"1");
    assert_eq!(snapshot.clone().get(&make_key(b"k")).unwrap().unwrap(), b"1");
    assert_has(&engine, b"k", b"2");
}

#[test]
fn a_batch_of_snapshots_is_answered_in_full() {
    let engine = new_engine();
    must_put(&engine, b"k", b"1");
    let pending = engine.async_batch_snapshot(vec![(), (), ()]).unwrap();
    let results = engine.wait_batch_snapshot(pending);
    assert_eq!(results.len(), 3);
    for result in results {
        let (_, snapshot) = result.unwrap();
        assert_eq!(snapshot.unwrap().get(&make_key(b"k")).unwrap().unwrap(), b"1");
    }
}

#[test]
fn a_snapshot_has_no_properties_by_default() {
    let snapshot = new_engine().snapshot(&()).unwrap();
    match snapshot.get_properties() {
        Err(Error::RocksDb(msg)) => assert_eq!(msg, "no user properties"),
        other => panic!("{:?}", other),
    }
    assert!(matches!(snapshot.get_properties_cf("cf"), Err(Error::RocksDb(_))));
}

/// What an engine does with a request that it was handed.
#[derive(Debug, Clone, Copy, PartialEq)]
enum Manner {
    Refuses,
    StaysSilent,
    AnswersWithError,
    Answers,
}

#[derive(Debug, Clone)]
struct MockEngine {
    manner: Manner,
    seen: Arc<Mutex<Vec<String>>>,
}

fn mock(manner: Manner) -> MockEngine {
    MockEngine { manner, seen: Arc::new(Mutex::new(Vec::new())) }
}

impl Engine for MockEngine {
    type Context = u64;
    type Iter = MemoryIterator;
    type Snap = MemorySnapshot;
    type PendingWrite = ();
    type PendingSnap = ();
    type PendingBatch = Vec<u64>;

    fn async_write(&self, ctx: &u64, batch: Vec<Modify>) -> Result<()> {
        if batch.is_empty() {
            return Err(Error::EmptyRequest);
        }
        for modify in &batch {
            let (name, cf, key, value) = match modify {
                Modify::Put(cf, key, value) => ("put", cf, key, value.clone()),
                Modify::Delete(cf, key) => ("delete", cf, key, vec![]),
                Modify::DeleteRange(cf, key, _) => ("delete_range", cf, key, vec![]),
            };
            let seen = format!("{} {} {} {:?} {:?}", ctx, name, cf, key.encoded(), value);
            self.seen.lock().unwrap().push(seen);
        }
        if self.manner == Manner::Refuses {
            return Err(Error::Other("closed".to_owned()));
        }
        Ok(())
    }

    fn wait_write(&self, _: (), timeout: Duration) -> Answer<()> {
        self.seen.lock().unwrap().push(format!("wait {:?}", timeout));
        match self.manner {
            Manner::Answers => Some((CbContext { term: Some(7) }, Ok(()))),
            Manner::AnswersWithError => {
                Some((CbContext::new(), Err(Error::RocksDb("disk full".to_owned()))))
            }
            _ => None,
        }
    }

    fn async_snapshot(&self, _: &u64) -> Result<()> {
        if self.manner == Manner::Refuses {
            return Err(Error::Other("closed".to_owned()));
        }
        Ok(())
    }

    fn wait_snapshot(&self, _: (), _: Duration) -> Answer<MemorySnapshot> {
        match self.manner {
            Manner::Answers => Some((CbContext::new(), Ok(MemoryStore::new().snapshot()))),
            Manner::AnswersWithError => {
                Some((CbContext::new(), Err(Error::RocksDb("disk full".to_owned()))))
            }
            _ => None,
        }
    }

    fn async_batch_snapshot(&self, batch: Vec<u64>) -> Result<Vec<u64>> {
        if batch.is_empty() {
            return Err(Error::EmptyRequest);
        }
        Ok(batch)
    }

    fn wait_batch_snapshot(&self, pending: Vec<u64>) -> BatchResults<MemorySnapshot> {
        pending
            .iter()
            .map(|&ctx| {
                if ctx == 0 {
                    return None;
                }
                let mut store = MemoryStore::new();
                let put = Modify::Put(CF_DEFAULT, Key::from_encoded(vec![0]), vec![ctx as u8]);
                store.write(&vec![put]).unwrap();
                Some((CbContext::new(), Ok(store.snapshot())))
            })
            .collect()
    }
}

#[test]
fn changes_are_handed_to_the_engine() {
    let engine = mock(Manner::Answers);
    engine.put(&3, Key::from_encoded(vec![1]), vec![2]).unwrap();
    engine.put_cf(&4, "lock", Key::from_encoded(vec![3]), vec![4]).unwrap();
    engine.delete(&5, Key::from_encoded(vec![5])).unwrap();
    engine.delete_cf(&6, "write", Key::from_encoded(vec![6])).unwrap();
    let seen = engine.seen.lock().unwrap().clone();
    assert_eq!(
        seen,
        vec![
            "3 put default [1] [2]",
            "wait 5s",
            "4 put lock [3] [4]",
            "wait 5s",
            "5 delete default [5] []",
            "wait 5s",
            "6 delete write [6] []",
            "wait 5s",
        ]
    );
}

#[test]
fn batch_results_come_in_the_order_of_the_contexts() {
    let engine = mock(Manner::Answers);
    let pending = engine.async_batch_snapshot(vec![4, 0, 2]).unwrap();
    let values: Vec<Option<u8>> = engine
        .wait_batch_snapshot(pending)
        .into_iter()
        .map(|result| {
            let (_, snapshot) = result?;
            let value = snapshot.unwrap().get(&Key::from_encoded(vec![0])).unwrap();
            Some(value.unwrap()[0])
        })
        .collect();
    assert_eq!(values, vec![Some(4), None, Some(2)]);
}

#[test]
fn an_empty_batch_is_refused() {
    let engine = mock(Manner::Answers);
    assert!(matches!(engine.write(&1, vec![]), Err(Error::EmptyRequest)));
    assert!(matches!(engine.async_batch_snapshot(vec![]), Err(Error::EmptyRequest)));
    assert!(engine.seen.lock().unwrap().is_empty());
}

#[test]
fn a_silent_engine_times_out() {
    let engine = mock(Manner::StaysSilent);
    match engine.put(&1, Key::from_encoded(vec![1]), vec![]) {
        Err(Error::Timeout(d)) => assert_eq!(d, Duration::from_secs(5)),
        other => panic!("{:?}", other),
    }
    match engine.snapshot(&1) {
        Err(Error::Timeout(d)) => assert_eq!(d, Duration::from_secs(5)),
        other => panic!("{:?}", other),
    }
}

#[test]
fn a_refusal_is_passed_on() {
    let engine = mock(Manner::Refuses);
    match engine.delete(&1, Key::from_encoded(vec![1])) {
        Err(Error::Other(msg)) => assert_eq!(msg, "closed"),
        other => panic!("{:?}", other),
    }
    match engine.snapshot(&1) {
        Err(Error::Other(msg)) => assert_eq!(msg, "closed"),
        other => panic!("{:?}", other),
    }
    // nothing is waited for
    assert_eq!(engine.seen.lock().unwrap().len(), 1);
}

#[test]
fn an_error_in_the_answer_is_passed_on() {
    let engine = mock(Manner::AnswersWithError);
    match engine.delete_cf(&1, "lock", Key::from_encoded(vec![1])) {
        Err(Error::RocksDb(msg)) => assert_eq!(msg, "disk full"),
        other => panic!("{:?}", other),
    }
    match engine.snapshot(&1) {
        Err(Error::RocksDb(msg)) => assert_eq!(msg, "disk full"),
        other => panic!("{:?}", other),
    }
}
