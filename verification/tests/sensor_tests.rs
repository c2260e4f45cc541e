use line_follower::sensor::{HistoryEntry, LineSensor, calibration_threshold};

#[test]
fn reading_below_threshold_is_on_line() {
    let mut s = LineSensor::new(50, false);
    assert!(s.on_line(49, 0));
    assert!(!s.off_line(49, 0));
}

#[test]
fn reading_at_threshold_is_off_line() {
    let mut s = LineSensor::new(50, false);
    assert!(!s.on_line(50, 0));
    assert!(s.off_line(50, 0));
}

#[test]
fn reading_above_threshold_is_off_line() {
    let mut s = LineSensor::new(50, false);
    assert!(!s.on_line(90, 0));
}

#[test]
fn untracked_sensor_records_nothing() {
    let mut s = LineSensor::new(50, false);
    s.on_line(10, 1);
    s.on_line(90, 2);
    assert_eq!(s.history.len(), 0);
}

#[test]
fn repeated_readings_record_only_transitions() {
    let mut s = LineSensor::new(50, true);
    // on, on, on, off: two transitions, not four entries
    s.on_line(10, 1);
    s.on_line(12, 2);
    s.on_line(8, 3);
    s.on_line(90, 4);
    assert_eq!(s.history.len(), 2);
    assert_eq!(s.history[0], HistoryEntry { on_line: false, at_ms: 4 });
    assert_eq!(s.history[1], HistoryEntry { on_line: true, at_ms: 1 });
}

#[test]
fn eleventh_transition_evicts_the_oldest() {
    let mut s = LineSensor::new(50, true);
    for t in 1..=11u64 {
        // alternate across the threshold: every reading is a transition
        let reading = if t % 2 == 1 { 10 } else { 90 };
        s.on_line(reading, t);
    }
    assert_eq!(s.history.len(), 10);
    assert_eq!(s.history[0].at_ms, 11);
    // the first transition (at 1 ms) is gone, the second is the oldest kept
    assert_eq!(s.history[9].at_ms, 2);
}

#[test]
fn recent_count_honours_the_window() {
    let mut s = LineSensor::new(50, true);
    s.on_line(10, 100);
    s.on_line(90, 200);
    s.on_line(10, 300);
    // at 350 ms, a 151 ms window covers the entries at 200 and 300
    assert_eq!(s.recent_transition_count(350, 151), 2);
    assert_eq!(s.recent_transition_count(350, 51), 1);
    assert_eq!(s.recent_transition_count(350, 5000), 3);
}

#[test]
fn cond_lines_requires_strictly_more_crossings() {
    let mut s = LineSensor::new(50, true);
    s.on_line(10, 100);
    s.on_line(90, 200);
    s.on_line(10, 300);
    assert!(s.cond_lines(350, 151, 1));
    assert!(!s.cond_lines(350, 151, 2));
    assert!(!s.cond_lines(350, 151, -1));
}

#[test]
fn wait_step_done_when_classification_matches_target() {
    let mut s = LineSensor::new(50, true);
    // pivoting until the sensor leaves the line: target off-line
    assert!(!s.wait_for_line_step(10, 100, false, 100, 500));
    assert!(s.wait_for_line_step(90, 105, false, 100, 500));
}

#[test]
fn wait_step_gives_up_at_the_timeout() {
    let mut s = LineSensor::new(50, false);
    assert!(s.wait_for_line_step(10, 600, false, 100, 500));
    // a clock that jumped backwards counts as elapsed
    assert!(s.wait_for_line_step(10, 50, false, 100, 500));
}

#[test]
fn calibration_takes_the_midpoint_of_averages() {
    let line = vec![20, 30];
    let floor = vec![60, 70];
    assert_eq!(calibration_threshold(&line, &floor), 45);
}

#[test]
fn calibration_rounds_each_average_down() {
    let line = vec![10, 11, 11];
    let floor = vec![90];
    // line average 32 / 3 = 10, midpoint (10 + 90) / 2 = 50
    assert_eq!(calibration_threshold(&line, &floor), 50);
}
