use stargaze::logging::{logs_frame, progress_logging, set_progress_logging, LoggingKnobs};

#[test]
fn progress_logging_defaults_off_and_toggles() {
    let mut knobs = LoggingKnobs::default();
    assert!(!progress_logging(&knobs));
    set_progress_logging(&mut knobs, true);
    assert!(progress_logging(&knobs));
    set_progress_logging(&mut knobs, false);
    assert!(!progress_logging(&knobs));
}

#[test]
fn frames_worth_a_line() {
    let mut knobs = LoggingKnobs::default();
    assert!(logs_frame(&knobs, 1, false));
    assert!(logs_frame(&knobs, 7, true));
    assert!(!logs_frame(&knobs, 301, false));
    set_progress_logging(&mut knobs, true);
    assert!(logs_frame(&knobs, 301, false));
    assert!(!logs_frame(&knobs, 300, false));
}
