//! Cursors over an iterator that may refuse the keys it is asked about.
use std::sync::{Arc, Mutex};
use storage_engine::cursor::Cursor;
use storage_engine::error::{Error, Result};
use storage_engine::iterator::Iterator as EngineIterator;
use storage_engine::key::Key;
use storage_engine::scan::{ScanMode, SEEK_BOUND};
use storage_engine::statistics::CFStatistics;

/// Walks over keys of one byte; may refuse every request that names a key. Notes each call
/// that is to move it.
struct Walker {
    rows: Vec<(Vec<u8>, Vec<u8>)>,
    at: Option<usize>,
    refuses: bool,
    calls: Arc<Mutex<Vec<&'static str>>>,
}

impl Walker {
    fn note(&self, call: &'static str) {
        self.calls.lock().unwrap().push(call);
    }

    fn check(&self, key: &Key) -> Result<()> {
        if self.refuses {
            Err(Error::RocksDb(format!("{:?} refused", key.encoded())))
        } else {
            Ok(())
        }
    }
}

impl EngineIterator for Walker {
    fn next(&mut self) -> bool {
        self.note("next");
        self.at = self.at.and_then(|i| if i + 1 < self.rows.len() { Some(i + 1) } else { None });
        self.at.is_some()
    }

    fn prev(&mut self) -> bool {
        self.note("prev");
        self.at = self.at.and_then(|i| i.checked_sub(1));
        self.at.is_some()
    }

    fn seek(&mut self, key: &Key) -> Result<bool> {
        self.note("seek");
        self.check(key)?;
        self.at = self.rows.iter().position(|row| &row.0 >= key.encoded());
        Ok(self.at.is_some())
    }

    fn seek_for_prev(&mut self, key: &Key) -> Result<bool> {
        self.note("seek_for_prev");
        self.check(key)?;
        self.at = self.rows.iter().rposition(|row| &row.0 <= key.encoded());
        Ok(self.at.is_some())
    }

    fn seek_to_first(&mut self) -> bool {
        self.note("seek_to_first");
        self.at = if self.rows.is_empty() { None } else { Some(0) };
        self.at.is_some()
    }

    fn seek_to_last(&mut self) -> bool {
        self.note("seek_to_last");
        self.at = self.rows.len().checked_sub(1);
        self.at.is_some()
    }

    fn valid(&self) -> bool {
        self.at.is_some()
    }

    fn validate_key(&self, key: &Key) -> Result<()> {
        self.check(key)
    }

    fn key(&self) -> &[u8] {
        &self.rows[self.at.unwrap()].0
    }

    fn value(&self) -> &[u8] {
        &self.rows[self.at.unwrap()].1
    }
}

/// A walker over the bytes, each with ten times itself, in two bytes, as its value.
fn walker(bytes: &[u8], refuses: bool) -> Walker {
    let rows = bytes.iter().map(|&b| (vec![b], (b as u16 * 10).to_be_bytes().to_vec())).collect();
    Walker { rows, at: None, refuses, calls: Arc::new(Mutex::new(Vec::new())) }
}

fn cursor(bytes: &[u8], mode: ScanMode) -> Cursor<Walker> {
    Cursor::new(walker(bytes, false), mode)
}

fn key(byte: u8) -> Key {
    Key::from_encoded(vec![byte])
}

fn evens() -> Vec<u8> {
    (1..=100).map(|i| i * 2).collect()
}

#[test]
fn a_key_is_counted_once_at_each_place() {
    let mut c = cursor(&[1, 2], ScanMode::Forward);
    let mut stat = CFStatistics::default();
    assert!(!c.valid());
    assert!(c.seek_to_first(&mut stat));
    assert!(c.valid());
    assert_eq!(c.key(&mut stat), &[1]);
    assert_eq!(c.key(&mut stat), &[1]);
    assert_eq!(c.value(&mut stat), &[0, 10]);
    assert_eq!(c.value(&mut stat), &[0, 10]);
    assert_eq!((stat.flow_stats.read_keys, stat.flow_stats.read_bytes), (1, 3));
    assert!(c.next(&mut stat));
    assert_eq!(c.key(&mut stat), &[2]);
    assert_eq!((stat.flow_stats.read_keys, stat.flow_stats.read_bytes), (2, 4));
    assert!(!c.next(&mut stat));
    assert_eq!((stat.seek, stat.next), (1, 2));
}

#[test]
fn ends_are_sought() {
    let mut c = cursor(&[1, 2, 3], ScanMode::Mixed);
    let mut stat = CFStatistics::default();
    assert!(c.seek_to_last(&mut stat));
    assert_eq!(c.key(&mut stat), &[3]);
    assert!(c.prev(&mut stat));
    assert_eq!(c.key(&mut stat), &[2]);
    assert!(c.next(&mut stat));
    assert_eq!(c.key(&mut stat), &[3]);
    assert_eq!((stat.seek, stat.prev, stat.next), (1, 1, 1));
    let mut none = cursor(&[], ScanMode::Mixed);
    assert!(!none.seek_to_first(&mut stat));
    assert!(!none.seek_to_last(&mut stat));
}

#[test]
fn a_failed_seek_is_remembered() {
    let mut c = cursor(&[10, 20], ScanMode::Mixed);
    let mut stat = CFStatistics::default();
    assert!(!c.seek(&key(21), &mut stat).unwrap());
    assert_eq!(stat.seek, 1);
    assert!(!c.seek(&key(21), &mut stat).unwrap());
    assert!(!c.seek(&key(30), &mut stat).unwrap());
    assert_eq!(stat.seek, 1);
    assert!(c.seek(&key(20), &mut stat).unwrap());
    assert_eq!(stat.seek, 2);
    assert!(!c.seek_for_prev(&key(9), &mut stat).unwrap());
    assert!(!c.seek_for_prev(&key(9), &mut stat).unwrap());
    assert!(!c.seek_for_prev(&key(3), &mut stat).unwrap());
    assert_eq!(stat.seek_for_prev, 1);
    assert!(c.seek_for_prev(&key(10), &mut stat).unwrap());
}

#[test]
fn a_forward_cursor_stays_after_the_key() {
    let mut c = cursor(&evens(), ScanMode::Forward);
    let mut stat = CFStatistics::default();
    assert!(c.seek(&key(50), &mut stat).unwrap());
    let mut stat = CFStatistics::default();
    assert!(c.near_seek(&key(11), false, &mut stat).unwrap());
    assert_eq!(c.key(&mut stat), &[50]);
    assert_eq!(stat.total_op_count(), 0);
    assert!(c.near_seek(&key(11), true, &mut stat).unwrap());
    assert_eq!(c.key(&mut stat), &[12]);
    assert_eq!((stat.seek, stat.total_op_count()), (1, 1));
}

#[test]
fn a_backward_cursor_stays_before_the_key() {
    let mut c = cursor(&evens(), ScanMode::Backward);
    let mut stat = CFStatistics::default();
    assert!(c.seek_for_prev(&key(50), &mut stat).unwrap());
    let mut stat = CFStatistics::default();
    assert!(c.near_seek_for_prev(&key(71), false, &mut stat).unwrap());
    assert_eq!(c.key(&mut stat), &[50]);
    assert!(c.near_reverse_seek(&key(71), false, &mut stat).unwrap());
    assert_eq!(c.key(&mut stat), &[50]);
    assert_eq!(stat.total_op_count(), 0);
    assert!(c.near_seek_for_prev(&key(71), true, &mut stat).unwrap());
    assert_eq!(c.key(&mut stat), &[70]);
    assert_eq!((stat.seek_for_prev, stat.total_op_count()), (1, 1));
}

#[test]
fn a_near_seek_steps_to_what_is_near() {
    let mut c = cursor(&evens(), ScanMode::Mixed);
    let mut stat = CFStatistics::default();
    assert!(c.seek(&key(50), &mut stat).unwrap());
    // five entries on
    let mut stat = CFStatistics::default();
    assert!(c.near_seek(&key(59), false, &mut stat).unwrap());
    assert_eq!(c.key(&mut stat), &[60]);
    assert_eq!((stat.next, stat.total_op_count(), stat.over_seek_bound), (5, 5, 0));
    assert_eq!((stat.flow_stats.read_keys, stat.flow_stats.read_bytes), (6, 6));
    // back past the key and one step on
    let mut stat = CFStatistics::default();
    assert!(c.near_seek(&key(55), false, &mut stat).unwrap());
    assert_eq!(c.key(&mut stat), &[56]);
    assert_eq!((stat.prev, stat.next, stat.total_op_count()), (3, 1, 4));
    // back off the start
    let mut stat = CFStatistics::default();
    assert!(c.near_seek(&key(10), false, &mut stat).unwrap());
    let mut stat = CFStatistics::default();
    assert!(c.near_seek(&key(1), false, &mut stat).unwrap());
    assert_eq!(c.key(&mut stat), &[2]);
    assert_eq!((stat.prev, stat.seek, stat.total_op_count()), (5, 1, 6));
    // on off the end
    let mut stat = CFStatistics::default();
    assert!(c.seek(&key(196), &mut stat).unwrap());
    let mut stat = CFStatistics::default();
    assert!(c.near_seek_for_prev(&key(201), false, &mut stat).unwrap());
    assert_eq!(c.key(&mut stat), &[200]);
    assert_eq!((stat.next, stat.seek, stat.total_op_count()), (3, 1, 4));
    // nothing is found, and that is remembered
    let mut stat = CFStatistics::default();
    assert!(!c.near_seek(&key(201), false, &mut stat).unwrap());
    assert!(!c.seek(&key(201), &mut stat).unwrap());
    assert_eq!((stat.next, stat.seek), (1, 0));
}

#[test]
fn a_far_near_seek_falls_back() {
    let mut c = cursor(&evens(), ScanMode::Mixed);
    let mut stat = CFStatistics::default();
    assert!(c.seek(&key(2), &mut stat).unwrap());
    // one entry fewer than the bound is passed
    let mut stat = CFStatistics::default();
    assert!(c.near_seek(&key(62), false, &mut stat).unwrap());
    assert_eq!(c.key(&mut stat), &[62]);
    assert_eq!((stat.next, stat.seek, stat.over_seek_bound), (30, 0, 0));
    // as many entries as the bound
    let mut stat = CFStatistics::default();
    assert!(c.near_seek(&key(124), false, &mut stat).unwrap());
    assert_eq!(c.key(&mut stat), &[124]);
    assert_eq!((stat.next, stat.seek, stat.over_seek_bound), (SEEK_BOUND, 1, 1));
    let mut stat = CFStatistics::default();
    assert!(c.near_seek(&key(2), false, &mut stat).unwrap());
    assert_eq!(c.key(&mut stat), &[2]);
    assert_eq!((stat.prev, stat.seek, stat.over_seek_bound), (SEEK_BOUND, 1, 1));
    let mut stat = CFStatistics::default();
    assert!(c.near_seek_for_prev(&key(151), false, &mut stat).unwrap());
    assert_eq!(c.key(&mut stat), &[150]);
    assert_eq!((stat.next, stat.seek_for_prev, stat.over_seek_bound), (SEEK_BOUND, 1, 1));
    let mut stat = CFStatistics::default();
    assert!(c.near_seek_for_prev(&key(3), false, &mut stat).unwrap());
    assert_eq!(c.key(&mut stat), &[2]);
    assert_eq!((stat.prev, stat.seek_for_prev, stat.over_seek_bound), (SEEK_BOUND, 1, 1));
}

#[test]
fn a_reverse_seek_steps_off_the_key() {
    let mut c = cursor(&[10, 20, 30], ScanMode::Backward);
    let mut stat = CFStatistics::default();
    assert!(c.reverse_seek(&key(25), &mut stat).unwrap());
    assert_eq!(c.key(&mut stat), &[20]);
    assert!(c.reverse_seek(&key(20), &mut stat).unwrap());
    assert_eq!(c.key(&mut stat), &[10]);
    assert!(!c.reverse_seek(&key(10), &mut stat).unwrap());
    assert_eq!((stat.seek_for_prev, stat.prev), (3, 2));
    // that nothing comes before the first key is not remembered
    assert!(c.seek_for_prev(&key(10), &mut stat).unwrap());
    assert!(c.near_reverse_seek(&key(30), true, &mut stat).unwrap());
    assert_eq!(c.key(&mut stat), &[20]);
    assert!(c.near_reverse_seek(&key(20), false, &mut stat).unwrap());
    assert_eq!(c.key(&mut stat), &[10]);
}

#[test]
fn a_value_is_looked_up() {
    for &mode in &[ScanMode::Forward, ScanMode::Backward, ScanMode::Mixed] {
        let mut c = cursor(&[10, 20, 30], mode);
        let mut stat = CFStatistics::default();
        assert_eq!(c.near_seek_get(&key(20), true, &mut stat).unwrap(), Some(&[0u8, 200][..]));
        assert_eq!(c.near_seek_get(&key(25), true, &mut stat).unwrap(), None);
        assert_eq!(c.near_seek_get(&key(10), true, &mut stat).unwrap(), Some(&[0u8, 100][..]));
        assert_eq!(c.near_seek_get(&key(30), true, &mut stat).unwrap(), Some(&[1u8, 44][..]));
        assert_eq!(c.near_seek_get(&key(31), true, &mut stat).unwrap(), None);
        assert_eq!(c.near_seek_get(&key(5), true, &mut stat).unwrap(), None);
    }
}

#[test]
fn a_refused_seek_is_passed_on() {
    let mut c = Cursor::new(walker(&[10, 20], true), ScanMode::Mixed);
    let mut stat = CFStatistics::default();
    match c.seek(&key(3), &mut stat) {
        Err(Error::RocksDb(msg)) => assert_eq!(msg, "[3] refused"),
        other => panic!("{:?}", other),
    }
    assert!(matches!(c.seek_for_prev(&key(3), &mut stat), Err(Error::RocksDb(_))));
    assert!(matches!(c.reverse_seek(&key(3), &mut stat), Err(Error::RocksDb(_))));
    assert!(matches!(c.near_seek(&key(3), false, &mut stat), Err(Error::RocksDb(_))));
    assert!(matches!(c.near_reverse_seek(&key(3), false, &mut stat), Err(Error::RocksDb(_))));
    assert!(matches!(c.near_seek_get(&key(3), false, &mut stat), Err(Error::RocksDb(_))));
    assert!(matches!(c.internal_seek(&key(3), &mut stat), Err(Error::RocksDb(_))));
    assert!(matches!(c.internal_seek_for_prev(&key(3), &mut stat), Err(Error::RocksDb(_))));
    assert_eq!((stat.seek, stat.seek_for_prev), (4, 4));
    // where no key is asked about, nothing is refused
    assert!(c.seek_to_first(&mut stat));
    assert!(c.near_seek(&key(10), false, &mut stat).unwrap());
    assert!(c.near_seek(&key(15), false, &mut stat).unwrap());
    assert_eq!(c.key(&mut stat), &[20]);
    // a key that is known not to be there is refused all the same
    assert!(!c.near_seek(&key(21), false, &mut stat).unwrap());
    assert!(matches!(c.seek(&key(22), &mut stat), Err(Error::RocksDb(_))));
    assert_eq!(stat.seek, 5);
}

#[test]
fn a_miss_found_from_nearby_stays_remembered() {
    let mut c = cursor(&[10, 20, 30], ScanMode::Mixed);
    let mut stat = CFStatistics::default();
    assert!(c.seek(&key(30), &mut stat).unwrap());
    assert!(!c.near_seek(&key(31), false, &mut stat).unwrap());
    assert!(c.seek(&key(10), &mut stat).unwrap());
    assert!(!c.near_seek_for_prev(&key(9), false, &mut stat).unwrap());
    assert!(c.near_seek(&key(15), false, &mut stat).unwrap());
    assert!(c.reverse_seek(&key(30), &mut stat).unwrap());
    let mut stat = CFStatistics::default();
    assert!(!c.seek(&key(31), &mut stat).unwrap());
    assert!(!c.near_seek(&key(40), true, &mut stat).unwrap());
    assert!(!c.seek_for_prev(&key(9), &mut stat).unwrap());
    assert!(!c.near_seek_for_prev(&key(3), true, &mut stat).unwrap());
    assert_eq!(stat.total_op_count(), 0);
    assert_eq!(c.key(&mut stat), &[20]);
}

#[test]
fn a_known_miss_hands_on_the_refusal() {
    let mut c = Cursor::new(walker(&[10, 20], true), ScanMode::Mixed);
    let mut stat = CFStatistics::default();
    assert!(c.seek_to_last(&mut stat));
    assert!(!c.near_seek(&key(21), false, &mut stat).unwrap());
    assert!(c.seek_to_first(&mut stat));
    assert!(!c.near_seek_for_prev(&key(9), false, &mut stat).unwrap());
    assert!(c.seek_to_first(&mut stat));
    let mut stat = CFStatistics::default();
    let refusals = vec![
        (22, c.seek(&key(22), &mut stat)),
        (23, c.near_seek(&key(23), true, &mut stat)),
        (8, c.seek_for_prev(&key(8), &mut stat)),
        (7, c.near_seek_for_prev(&key(7), true, &mut stat)),
        (6, c.reverse_seek(&key(6), &mut stat)),
        (5, c.near_reverse_seek(&key(5), true, &mut stat)),
    ];
    for (byte, refusal) in refusals {
        match refusal {
            Err(Error::RocksDb(msg)) => assert_eq!(msg, format!("[{}] refused", byte)),
            other => panic!("{:?}", other),
        }
    }
    assert!(matches!(c.near_seek_get(&key(24), true, &mut stat), Err(Error::RocksDb(_))));
    assert_eq!(stat.total_op_count(), 0);
    assert_eq!(c.key(&mut stat), &[10]);
}

#[test]
fn a_near_seek_takes_few_operations() {
    let all = evens();
    for &start in &[2u8, 50, 62, 124, 200] {
        for target in 1..=201u8 {
            let mut c = cursor(&all, ScanMode::Mixed);
            let mut stat = CFStatistics::default();
            assert!(c.seek(&key(start), &mut stat).unwrap());
            let mut stat = CFStatistics::default();
            c.near_seek(&key(target), false, &mut stat).unwrap();
            assert!(stat.total_op_count() <= SEEK_BOUND + 1);
            if stat.over_seek_bound > 0 {
                assert_eq!((stat.over_seek_bound, stat.seek), (1, 1));
                assert_eq!(stat.next + stat.prev, SEEK_BOUND);
            }
        }
    }
}

/// The calls that the near operation makes on an iterator over 2, 4, .. 18 at `start`, and
/// where it leaves the cursor.
fn calls_from(
    start: u8,
    mode: ScanMode,
    op: fn(&mut Cursor<Walker>, &mut CFStatistics),
) -> (Vec<&'static str>, Option<u8>) {
    let mut walker = walker(&[2, 4, 6, 8, 10, 12, 14, 16, 18], false);
    walker.at = Some(start as usize / 2 - 1);
    let calls = walker.calls.clone();
    let mut cursor = Cursor::new(walker, mode);
    let mut stats = CFStatistics::default();
    op(&mut cursor, &mut stats);
    let seen = calls.lock().unwrap().clone();
    assert_eq!(seen.len(), stats.next + stats.prev + stats.seek + stats.seek_for_prev);
    let at = if cursor.valid() { Some(cursor.key(&mut stats)[0]) } else { None };
    (seen, at)
}

#[test]
fn a_staying_cursor_leaves_the_iterator_alone() {
    let (calls, at) = calls_from(10, ScanMode::Forward, |c, s| {
        assert!(c.near_seek(&key(3), false, s).unwrap());
    });
    assert_eq!((calls, at), (vec![], Some(10)));
    let (calls, at) = calls_from(10, ScanMode::Forward, |c, s| {
        assert_eq!(c.near_seek_get(&key(4), false, s).unwrap(), None);
    });
    assert_eq!((calls, at), (vec![], Some(10)));
    let (calls, at) = calls_from(10, ScanMode::Backward, |c, s| {
        assert!(c.near_seek_for_prev(&key(15), false, s).unwrap());
    });
    assert_eq!((calls, at), (vec![], Some(10)));
    let (calls, at) = calls_from(10, ScanMode::Backward, |c, s| {
        assert!(c.near_reverse_seek(&key(16), false, s).unwrap());
    });
    assert_eq!((calls, at), (vec![], Some(10)));
}

#[test]
fn a_near_seek_makes_just_the_calls_that_it_counts() {
    let (calls, at) = calls_from(10, ScanMode::Mixed, |c, s| {
        assert!(c.near_seek(&key(5), false, s).unwrap());
    });
    assert_eq!((calls, at), (vec!["prev", "prev", "prev", "next"], Some(6)));
    let (calls, at) = calls_from(4, ScanMode::Mixed, |c, s| {
        assert!(c.near_seek(&key(1), false, s).unwrap());
    });
    assert_eq!((calls, at), (vec!["prev", "prev", "seek_to_first"], Some(2)));
    let (calls, at) = calls_from(16, ScanMode::Mixed, |c, s| {
        assert!(c.near_seek_for_prev(&key(19), false, s).unwrap());
    });
    assert_eq!((calls, at), (vec!["next", "next", "seek_to_last"], Some(18)));
    let (calls, at) = calls_from(10, ScanMode::Mixed, |c, s| {
        assert!(c.near_reverse_seek(&key(14), false, s).unwrap());
    });
    assert_eq!((calls, at), (vec!["next", "next", "prev"], Some(12)));
    let (calls, at) = calls_from(10, ScanMode::Forward, |c, s| {
        assert!(c.near_seek(&key(3), true, s).unwrap());
    });
    assert_eq!((calls, at), (vec!["seek"], Some(4)));
    let (calls, at) = calls_from(10, ScanMode::Mixed, |c, s| {
        assert!(c.reverse_seek(&key(6), s).unwrap());
    });
    assert_eq!((calls, at), (vec!["seek_for_prev", "prev"], Some(4)));
}
