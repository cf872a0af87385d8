use tracker::passes::calculate_pass_times;

const MINUTE_MS: i64 = 60_000;

/// Builds a visibility scan of `n` samples where sample `k` is visible
/// exactly when `a <= k <= b`.
fn single_run(n: usize, a: usize, b: usize) -> Vec<bool> {
    (0..n).map(|k| a <= k && k <= b).collect()
}

#[test]
fn single_pass_inside_window() {
    // A 60-minute window sampled each minute, visible exactly from minute 10
    // through minute 20: exactly one segment, closed at the last visible
    // sample.
    let t0: i64 = 1_700_000_000_000;
    let visible = single_run(61, 10, 20);
    let segments = calculate_pass_times(&visible, t0, MINUTE_MS, t0 + 60 * MINUTE_MS);
    assert_eq!(segments, vec![(t0 + 10 * MINUTE_MS, t0 + 20 * MINUTE_MS)]);
}

#[test]
fn no_pass_when_never_visible() {
    let t0: i64 = 0;
    let visible = vec![false; 61];
    let segments = calculate_pass_times(&visible, t0, MINUTE_MS, t0 + 60 * MINUTE_MS);
    assert!(segments.is_empty());
}

#[test]
fn open_pass_closes_at_window_end() {
    // Still visible at the final sample: the segment is closed at the
    // window's exact end, not at the last sample.
    let t0: i64 = 500_000;
    let end = t0 + 60 * MINUTE_MS;
    let visible = single_run(61, 50, 60);
    let segments = calculate_pass_times(&visible, t0, MINUTE_MS, end);
    assert_eq!(segments, vec![(t0 + 50 * MINUTE_MS, end)]);
}

#[test]
fn visible_throughout_gives_whole_window() {
    let t0: i64 = 0;
    let end = 60 * MINUTE_MS;
    let visible = vec![true; 61];
    let segments = calculate_pass_times(&visible, t0, MINUTE_MS, end);
    assert_eq!(segments, vec![(t0, end)]);
}

#[test]
fn two_passes_give_two_segments() {
    let t0: i64 = 0;
    let end = 60 * MINUTE_MS;
    let mut visible = vec![false; 61];
    for k in 5..=8 {
        visible[k] = true;
    }
    for k in 30..=33 {
        visible[k] = true;
    }
    let segments = calculate_pass_times(&visible, t0, MINUTE_MS, end);
    assert_eq!(
        segments,
        vec![
            (5 * MINUTE_MS, 8 * MINUTE_MS),
            (30 * MINUTE_MS, 33 * MINUTE_MS),
        ]
    );
}

#[test]
fn single_visible_sample_is_a_point_segment() {
    let t0: i64 = 0;
    let visible = single_run(61, 15, 15);
    let segments = calculate_pass_times(&visible, t0, MINUTE_MS, 60 * MINUTE_MS);
    assert_eq!(segments, vec![(15 * MINUTE_MS, 15 * MINUTE_MS)]);
}

#[test]
fn empty_scan_gives_no_segments() {
    let visible: Vec<bool> = Vec::new();
    let segments = calculate_pass_times(&visible, 0, MINUTE_MS, 0);
    assert!(segments.is_empty());
}
