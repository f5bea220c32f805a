use sairen_mesh::io::summary::sustained_windows;

#[test]
fn sustained_windows_reports_runs_of_three_or_more() {
    let flags = [true, true, true, false, true, false, true, true, true, true];
    assert_eq!(sustained_windows(&flags, 3), vec![(0, 2, 3), (6, 9, 4)]);
}

#[test]
fn sustained_windows_short_runs_are_dropped() {
    let flags = [true, true, false, true, false, true, true];
    assert!(sustained_windows(&flags, 3).is_empty());
}

#[test]
fn sustained_windows_none_without_detections() {
    assert!(sustained_windows(&[], 3).is_empty());
    assert!(sustained_windows(&[false, false, false], 3).is_empty());
}

#[test]
fn sustained_windows_open_run_at_the_end_counts() {
    let flags = [false, true, true, true];
    assert_eq!(sustained_windows(&flags, 3), vec![(1, 3, 3)]);
}

#[test]
fn sustained_windows_zero_minimum_reports_every_run() {
    let flags = [true, false, true];
    assert_eq!(sustained_windows(&flags, 0), vec![(0, 0, 1), (2, 2, 1)]);
}
