use esp_csi_tui_rs::saved_data::{
    csv_path, is_saved_file, parse_duration, rrd_path, strip_extension, DurationError,
};
use esp_csi_tui_rs::session::{Session, Step};

#[test]
fn recordings_are_kept_in_one_directory() {
    assert_eq!(csv_path("walk"), "saved_data/walk.csv");
    assert_eq!(rrd_path("walk"), "saved_data/walk.rrd");
    assert_eq!(csv_path(""), "saved_data/.csv");
}

#[test]
fn tables_and_logs_are_recordings() {
    assert!(is_saved_file("a.csv"));
    assert!(is_saved_file("a.rrd"));
    assert!(is_saved_file(".csv"));
    assert!(!is_saved_file("csv"));
    assert!(!is_saved_file("a.csv.bak"));
    assert!(!is_saved_file("a.CSV"));
    assert!(!is_saved_file(""));
}

#[test]
fn extension_is_what_follows_the_last_dot() {
    assert_eq!(strip_extension("walk.csv"), "walk");
    assert_eq!(strip_extension("a.b.rrd"), "a.b");
    assert_eq!(strip_extension("plain"), "plain");
    assert_eq!(strip_extension(".csv"), "");
    assert_eq!(strip_extension("dot."), "dot");
    assert_eq!(strip_extension(""), "");
}

#[test]
fn duration_is_a_whole_number_above_zero() {
    assert_eq!(parse_duration("1"), Ok(1));
    assert_eq!(parse_duration("30"), Ok(30));
    assert_eq!(parse_duration("007"), Ok(7));
    assert_eq!(parse_duration("18446744073709551615"), Ok(u64::MAX));
    assert_eq!(parse_duration(""), Err(DurationError::Empty));
    assert_eq!(parse_duration("  "), Err(DurationError::Empty));
    assert_eq!(parse_duration("0"), Err(DurationError::NotPositive));
    assert_eq!(parse_duration("-3"), Err(DurationError::NotPositive));
    assert_eq!(parse_duration("3s"), Err(DurationError::NotPositive));
    assert_eq!(parse_duration(" 3"), Err(DurationError::NotPositive));
    assert_eq!(parse_duration("18446744073709551616"), Err(DurationError::NotPositive));
    assert_eq!(DurationError::Empty.message(), "Duration cannot be empty.");
    assert_eq!(DurationError::NotPositive.message(), "Duration must be a positive integer.");
}

#[test]
fn a_recording_starts_where_a_device_is_known() {
    let mut session: Session<u8> = Session::new();
    let plan = session.start_recording(Some("/dev/ttyUSB0"), "walk", 12).expect("a plan");
    assert_eq!(plan.csv_filename, "saved_data/walk.csv");
    assert_eq!(plan.rrd_filename, "saved_data/walk.rrd");
    assert_eq!(
        plan.status,
        "Recording to saved_data/walk.csv and saved_data/walk.rrd for 12s on port /dev/ttyUSB0..."
    );
    assert_eq!(session.step(), Step::Recording);
    assert!(session.samples_open() && session.heatmaps_open() && session.worker_open());
}

#[test]
fn no_recording_starts_without_a_device() {
    let mut session: Session<u8> = Session::new();
    match session.start_recording(None, "walk", 12) {
        Err(status) => assert_eq!(status, "No serial port detected; cannot start recording."),
        Ok(plan) => panic!("unexpected {:?}", plan),
    }
    assert_eq!(session.step(), Step::Finished);
    assert!(!session.worker_open());
}
