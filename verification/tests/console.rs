use rust_prec::console::{next_event, recorded_demo_path, ConsoleEvent};
use rust_prec::throttle::Throttler;
use std::time::Duration;

#[test]
fn chat_lines_that_start_a_recording() {
    assert_eq!(ConsoleEvent::from_chat("[SOAP] Soap DM unloaded."), Some(ConsoleEvent::Record));
    assert_eq!(ConsoleEvent::from_chat("x [P-REC] Recording... y"), Some(ConsoleEvent::Record));
}

#[test]
fn chat_lines_that_stop_a_recording() {
    assert_eq!(ConsoleEvent::from_chat("[LogsTF] Uploading logs..."), Some(ConsoleEvent::Stop));
    assert_eq!(ConsoleEvent::from_chat("[P-REC] Stop record."), Some(ConsoleEvent::Stop));
}

#[test]
fn start_wins_over_stop_and_other_lines_are_ignored() {
    assert_eq!(
        ConsoleEvent::from_chat("[P-REC] Stop record. [P-REC] Recording..."),
        Some(ConsoleEvent::Record)
    );
    assert_eq!(ConsoleEvent::from_chat("player: gg"), None);
    assert_eq!(ConsoleEvent::from_chat("[P-REC] Recording.."), None);
    assert_eq!(ConsoleEvent::from_chat(""), None);
}

#[test]
fn commands_of_events() {
    assert_eq!(ConsoleEvent::Record.command(), "ds_record");
    assert_eq!(ConsoleEvent::Stop.command(), "ds_stop");
}

#[test]
fn reply_naming_a_recorded_demo() {
    let r = "  (Demo Support) End recording demos/2023-11-05_22-11-34\n";
    assert_eq!(recorded_demo_path(r), Some("demos/2023-11-05_22-11-34".to_string()));
    assert_eq!(recorded_demo_path("(Demo Support) Start recording demos/x"), None);
    assert_eq!(
        recorded_demo_path("a (Demo Support) End recording b (Demo Support) End recording c"),
        Some("b (Demo Support) End recording c".to_string())
    );
}

#[test]
fn actions_after_a_reply() {
    let a = ConsoleEvent::Record.after_response("Recording to demos/x.dem");
    assert!(a.take_status_screenshot);
    assert_eq!(a.recorded_demo, None);
    let b = ConsoleEvent::Stop.after_response("(Demo Support) End recording demos/y");
    assert!(!b.take_status_screenshot);
    assert_eq!(b.recorded_demo, Some("demos/y".to_string()));
}

#[test]
fn log_lines_are_trimmed_and_throttled() {
    let mut t = Throttler::new(Duration::from_secs(3600).as_nanos());
    assert_eq!(next_event(&mut t, "chatter\n"), None);
    assert_eq!(next_event(&mut t, "  [P-REC] Recording...\r\n"), Some(ConsoleEvent::Record));
    assert_eq!(next_event(&mut t, "[P-REC] Stop record.\n"), None);
}
