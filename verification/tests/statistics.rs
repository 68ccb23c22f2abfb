//! The counters of the operations that reading takes.
use storage_engine::statistics::{
    CFStatistics, FlowStatistics, ScanInfo, Statistics, StatisticsSummary, CF_DEFAULT, CF_LOCK,
    CF_WRITE,
};

fn sample(base: usize) -> CFStatistics {
    CFStatistics {
        processed: base,
        get: base + 1,
        next: base + 2,
        prev: base + 3,
        seek: base + 4,
        seek_for_prev: base + 5,
        over_seek_bound: base + 6,
        flow_stats: FlowStatistics { read_keys: base + 7, read_bytes: base + 8 },
    }
}

#[test]
fn fresh_counters_are_zero() {
    let stat = Statistics::default();
    assert_eq!(stat.total_op_count(), 0);
    assert_eq!(stat.total_processed(), 0);
    let summary = StatisticsSummary::default();
    assert_eq!(summary.count, 0);
    assert_eq!(summary.stat.total_op_count(), 0);
}

#[test]
fn operations_are_totalled() {
    assert_eq!(sample(10).total_op_count(), 11 + 12 + 13 + 14 + 15);
    let stat = Statistics { lock: sample(0), write: sample(10), data: sample(20) };
    assert_eq!(stat.total_op_count(), 15 + 65 + 115);
    assert_eq!(stat.total_processed(), 30);
}

#[test]
fn counters_are_listed_by_name() {
    assert_eq!(
        sample(10).details(),
        vec![
            ("total", 65),
            ("processed", 10),
            ("get", 11),
            ("next", 12),
            ("prev", 13),
            ("seek", 14),
            ("seek_for_prev", 15),
            ("over_seek_bound", 16),
        ]
    );
    let stat = Statistics { lock: sample(0), write: sample(10), data: sample(20) };
    let details = stat.details();
    assert_eq!(details.len(), 3);
    assert_eq!(details[0], (CF_DEFAULT, sample(20).details()));
    assert_eq!(details[1], (CF_LOCK, sample(0).details()));
    assert_eq!(details[2], (CF_WRITE, sample(10).details()));
    assert_eq!((CF_DEFAULT, CF_LOCK, CF_WRITE), ("default", "lock", "write"));
}

#[test]
fn counters_are_added_up() {
    let mut stat = sample(10);
    stat.add(&sample(100));
    assert_eq!(stat.processed, 110);
    assert_eq!(stat.get, 112);
    assert_eq!(stat.next, 114);
    assert_eq!(stat.prev, 116);
    assert_eq!(stat.seek, 118);
    assert_eq!(stat.seek_for_prev, 120);
    assert_eq!(stat.over_seek_bound, 122);
    assert_eq!(stat.flow_stats.read_keys, 17 + 107);
    assert_eq!(stat.flow_stats.read_bytes, 17 + 108);
}

#[test]
fn added_to_zero_counters_stay_what_they_are() {
    let mut stat = Statistics::default();
    stat.add(&Statistics { lock: sample(0), write: sample(10), data: sample(20) });
    assert_eq!(stat.lock.details(), sample(0).details());
    assert_eq!(stat.write.details(), sample(10).details());
    assert_eq!(stat.data.details(), sample(20).details());
    assert_eq!(stat.data.flow_stats.read_keys, 27);
    assert_eq!(stat.data.flow_stats.read_bytes, 28);
}

#[test]
fn counters_stop_at_the_largest_value() {
    let mut stat = CFStatistics { next: usize::MAX - 1, ..CFStatistics::default() };
    stat.add(&CFStatistics { next: 5, ..CFStatistics::default() });
    assert_eq!(stat.next, usize::MAX);
    let mut flow = FlowStatistics { read_keys: usize::MAX, read_bytes: 3 };
    flow.add(&FlowStatistics { read_keys: 1, read_bytes: 1 });
    assert_eq!(flow.read_keys, usize::MAX);
    assert_eq!(flow.read_bytes, usize::MAX);
}

#[test]
fn order_of_adding_is_free_but_for_bytes() {
    let (mut ab, mut ba) = (sample(1), sample(50));
    ab.add(&sample(50));
    ba.add(&sample(1));
    assert_eq!(ab.details(), ba.details());
    assert_eq!(ab.flow_stats.read_keys, ba.flow_stats.read_keys);
}

#[test]
fn scans_are_reported() {
    assert_eq!(sample(10).scan_info(), ScanInfo { processed: 10, total: 65 });
    let stat = Statistics { lock: sample(0), write: sample(10), data: sample(20) };
    let detail = stat.scan_detail();
    assert_eq!(detail.lock, ScanInfo { processed: 0, total: 15 });
    assert_eq!(detail.write, ScanInfo { processed: 10, total: 65 });
    assert_eq!(detail.data, ScanInfo { processed: 20, total: 115 });
}

#[test]
fn a_count_past_the_signed_range_wraps() {
    let stat = CFStatistics { processed: usize::MAX, ..CFStatistics::default() };
    assert_eq!(stat.scan_info().processed, usize::MAX as i64);
}

#[test]
fn column_families_have_their_counters() {
    let mut stat = Statistics::default();
    stat.mut_cf_statistics("").get = 1;
    stat.mut_cf_statistics("default").next = 2;
    stat.mut_cf_statistics("lock").prev = 3;
    stat.mut_cf_statistics("write").seek = 4;
    assert_eq!((stat.data.get, stat.data.next), (1, 2));
    assert_eq!(stat.lock.prev, 3);
    assert_eq!(stat.write.seek, 4);
    assert_eq!(stat.total_op_count(), 10);
}

#[test]
fn a_summary_counts_what_it_adds() {
    let mut summary = StatisticsSummary::default();
    let stat = Statistics { lock: sample(0), write: sample(10), data: sample(20) };
    summary.add_statistics(&stat);
    summary.add_statistics(&stat);
    assert_eq!(summary.count, 2);
    assert_eq!(summary.stat.total_op_count(), 2 * (15 + 65 + 115));
}
