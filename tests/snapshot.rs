use drdisk::order::size_order;
use drdisk::report::{aggregate, FileRecord, SizeReport};
use drdisk::snapshot::{build_snapshot, classify, percentage, thresholds, Classification, Thresholds};

fn file(name: &str, size: u64) -> SizeReport {
    SizeReport::for_file(name.to_string(), FileRecord { bytes_on_disk: Some(size), modified: Some(0) })
}

fn names(reports: &[SizeReport]) -> Vec<String> {
    reports.iter().map(|r| r.path.clone()).collect()
}

#[test]
fn sort_is_stable_and_descending() {
    let reports = vec![file("A", 10), file("B", 30), file("C", 10), file("D", 30)];
    let snap = build_snapshot(reports, None);
    assert_eq!(names(&snap.reports), vec!["B", "D", "A", "C"]);
    let sizes: Vec<u64> = snap.reports.iter().map(|r| r.total_bytes_on_disk).collect();
    assert_eq!(sizes, vec![30, 30, 10, 10]);
}

#[test]
fn size_order_of_indices() {
    assert_eq!(size_order(&vec![10, 30, 10, 30]), vec![1, 3, 0, 2]);
    assert_eq!(size_order(&vec![]), Vec::<usize>::new());
    assert_eq!(size_order(&vec![5, 5, 5]), vec![0, 1, 2]);
    assert_eq!(size_order(&vec![1, 2, 3]), vec![2, 1, 0]);
}

#[test]
fn denominator_is_snapshot_total_without_capacity() {
    let snap = build_snapshot(vec![file("a", 600), file("b", 300), file("c", 100)], None);
    assert_eq!(snap.denominator, 1000);
    assert_eq!(snap.thresholds, Thresholds { red: 100, yellow: 10 });
    let shares: Vec<u128> = (0..3).map(|i| snap.share_at(i)).collect();
    assert_eq!(shares, vec![6000, 3000, 1000]);
    assert_eq!(shares.iter().sum::<u128>(), 10000);
}

#[test]
fn shares_round_to_nearest_hundredth() {
    let snap = build_snapshot(vec![file("a", 1), file("b", 1), file("c", 1)], None);
    let shares: Vec<u128> = (0..3).map(|i| snap.share_at(i)).collect();
    assert_eq!(shares, vec![3333, 3333, 3333]);
    assert_eq!(percentage(2, 3), 6667);
    assert_eq!(percentage(1, 8), 1250);
    assert_eq!(percentage(1, 20000), 1);
    assert_eq!(percentage(1, 20001), 0);
}

#[test]
fn capacity_replaces_denominator() {
    let snap = build_snapshot(vec![file("a", 500), file("b", 20)], Some(100_000));
    assert_eq!(snap.denominator, 100_000);
    assert_eq!(snap.thresholds, Thresholds { red: 1000, yellow: 100 });
    assert_eq!(snap.share_at(0), 50);
    assert_eq!(snap.classification_at(0), Classification::Yellow);
    assert_eq!(snap.classification_at(1), Classification::Neutral);
}

#[test]
fn capacity_smaller_than_total_keeps_raw_ratio() {
    let snap = build_snapshot(vec![file("a", 300)], Some(100));
    assert_eq!(snap.share_at(0), 30000);
    let zero = build_snapshot(vec![file("a", 300)], Some(0));
    assert_eq!(zero.share_at(0), 0);
}

#[test]
fn empty_directory_has_zero_denominator() {
    let snap = build_snapshot(vec![], None);
    assert!(snap.reports.is_empty());
    assert_eq!(snap.denominator, 0);
    assert_eq!(snap.thresholds, Thresholds { red: 0, yellow: 0 });
}

#[test]
fn all_zero_children_have_zero_shares() {
    let snap = build_snapshot(vec![file("a", 0), file("b", 0)], None);
    assert_eq!(snap.denominator, 0);
    assert_eq!(snap.share_at(0), 0);
    assert_eq!(snap.share_at(1), 0);
    assert_eq!(snap.classification_at(0), Classification::Neutral);
}

#[test]
fn threshold_classification() {
    let t = thresholds(None, 1000);
    assert_eq!(t, Thresholds { red: 100, yellow: 10 });
    assert_eq!(classify(150, &t), Classification::Red);
    assert_eq!(classify(50, &t), Classification::Yellow);
    assert_eq!(classify(5, &t), Classification::Neutral);
    assert_eq!(classify(100, &t), Classification::Yellow);
    assert_eq!(classify(10, &t), Classification::Neutral);
    assert_eq!(thresholds(Some(1_000_000), 5), Thresholds { red: 10_000, yellow: 1000 });
}

#[test]
fn scanning_same_reports_twice_gives_same_snapshot() {
    let make = || vec![file("x", 7), file("y", 70), file("z", 7)];
    let first = build_snapshot(make(), None);
    let second = build_snapshot(make(), None);
    assert_eq!(names(&first.reports), names(&second.reports));
    assert_eq!(first.denominator, second.denominator);
    for (a, b) in first.reports.iter().zip(second.reports.iter()) {
        assert_eq!(a.total_bytes_on_disk, b.total_bytes_on_disk);
        assert_eq!(a.latest_modified, b.latest_modified);
    }
}

#[test]
fn file_and_empty_directory_sizes() {
    let f = SizeReport::for_file("f".to_string(), FileRecord { bytes_on_disk: Some(4096), modified: Some(5) });
    let d = SizeReport::for_directory("d".to_string(), &vec![]);
    let snap = build_snapshot(vec![d, f], None);
    assert_eq!(snap.reports.len(), 2);
    assert_eq!(snap.reports[0].path, "f");
    assert_eq!(snap.reports[0].total_bytes_on_disk, 4096);
    assert!(!snap.reports[0].is_directory);
    assert_eq!(snap.reports[1].path, "d");
    assert_eq!(snap.reports[1].total_bytes_on_disk, 0);
    assert!(snap.reports[1].is_directory);
    assert_eq!(snap.reports[1].latest_modified, None);
}

#[test]
fn unreadable_entry_degrades_to_zero() {
    let ok = SizeReport::for_file("ok".to_string(), FileRecord { bytes_on_disk: Some(100), modified: Some(9) });
    let bad = SizeReport::for_file("bad".to_string(), FileRecord { bytes_on_disk: None, modified: None });
    let snap = build_snapshot(vec![bad, ok], None);
    assert_eq!(snap.reports.len(), 2);
    assert_eq!(snap.reports[0].total_bytes_on_disk, 100);
    assert_eq!(snap.reports[1].path, "bad");
    assert_eq!(snap.reports[1].total_bytes_on_disk, 0);
    assert_eq!(snap.reports[1].latest_modified, None);
    assert_eq!(snap.denominator, 100);
}

#[test]
fn directory_aggregation_sums_and_takes_latest() {
    let records = vec![
        FileRecord { bytes_on_disk: Some(4096), modified: Some(30) },
        FileRecord { bytes_on_disk: None, modified: Some(90) },
        FileRecord { bytes_on_disk: Some(8192), modified: None },
        FileRecord { bytes_on_disk: Some(1), modified: Some(-5) },
    ];
    assert_eq!(aggregate(&records), (12289, Some(90)));
    let d = SizeReport::for_directory("dir".to_string(), &records);
    assert!(d.is_directory);
    assert_eq!(d.total_bytes_on_disk, 12289);
    assert_eq!(d.latest_modified, Some(90));
    let unreadable = vec![FileRecord { bytes_on_disk: None, modified: None }];
    assert_eq!(aggregate(&unreadable), (0, None));
}

#[test]
fn directory_aggregation_saturates() {
    let records = vec![
        FileRecord { bytes_on_disk: Some(u64::MAX - 1), modified: None },
        FileRecord { bytes_on_disk: Some(5), modified: None },
    ];
    assert_eq!(aggregate(&records).0, u64::MAX);
}

#[test]
fn duplicate_keeps_values() {
    let r = SizeReport::for_file("p".to_string(), FileRecord { bytes_on_disk: Some(3), modified: Some(4) });
    let c = r.duplicate();
    assert_eq!(c.path, "p");
    assert_eq!(c.total_bytes_on_disk, 3);
    assert_eq!(c.latest_modified, Some(4));
    assert!(!c.is_directory);
}
