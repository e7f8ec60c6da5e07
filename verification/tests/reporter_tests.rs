use transcode::reporter::ProgressReporter;

#[test]
fn reports_after_enough_frames() {
    let mut r = ProgressReporter::new(true);
    assert!(!r.note_frame(99, 0));
    assert!(r.note_frame(100, 0));
    // The limiter restarts from the last report.
    assert!(!r.note_frame(199, 0));
    assert!(r.note_frame(200, 0));
}

#[test]
fn reports_after_enough_time() {
    let mut r = ProgressReporter::new(true);
    assert!(!r.note_frame(1, 999));
    assert!(r.note_frame(2, 1000));
    assert!(!r.note_frame(3, 1999));
    assert!(r.note_frame(4, 2000));
}

#[test]
fn disabled_reporter_never_reports() {
    let mut r = ProgressReporter::new(false);
    assert!(!r.note_frame(1000, 100000));
    assert_eq!(r.last_report_frames, 0);
    assert_eq!(r.last_report_millis, 0);
}

#[test]
fn silent_calls_leave_the_limiter_unchanged() {
    let mut r = ProgressReporter::new(true);
    assert!(r.note_frame(100, 0));
    assert!(!r.note_frame(150, 500));
    assert_eq!(r.last_report_frames, 100);
    assert_eq!(r.last_report_millis, 0);
}
