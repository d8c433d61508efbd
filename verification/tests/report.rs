use imagetest::engine::Notification;
use imagetest::report::{exit_code, message, report, report_fatal, RunError};
use imagetest::upload::TransportError;

#[test]
fn exit_code_follows_the_verdict() {
    assert_eq!(exit_code(true), 0);
    assert_eq!(exit_code(false), 1);
}

#[test]
fn a_completion_shows_its_mark_and_goes_on() {
    let shown = report(Notification::Completed { index: 3, success: true });
    assert_eq!(shown.text, "✓");
    assert!(!shown.failure);
    assert_eq!(shown.exit_code, None);
    let shown = report(Notification::Completed { index: 0, success: false });
    assert_eq!(shown.text, "✗");
    assert!(!shown.failure);
    assert_eq!(shown.exit_code, None);
}

#[test]
fn the_verdict_breaks_the_line_and_exits() {
    let shown = report(Notification::Finished { success: true });
    assert_eq!(shown.text, "\n");
    assert!(!shown.failure);
    assert_eq!(shown.exit_code, Some(0));
    let shown = report(Notification::Finished { success: false });
    assert_eq!(shown.text, "\n");
    assert!(!shown.failure);
    assert_eq!(shown.exit_code, Some(1));
}

#[test]
fn a_failure_shows_its_message_and_exits_one() {
    let errors = [
        (TransportError::Network, "Could not reach the test service"),
        (TransportError::NotJson, "The test service did not answer in JSON"),
        (TransportError::NoVerdict, "The test service gave no verdict"),
        (TransportError::VerdictNotBoolean, "The test service gave a verdict that is not a boolean"),
    ];
    for (error, text) in errors.iter() {
        let shown = report(Notification::Aborted { index: 1, error: *error });
        assert_eq!(shown.text, *text);
        assert!(shown.failure);
        assert_eq!(shown.exit_code, Some(1));
        assert_eq!(message(RunError::Transport(*error)), *text);
    }
}

#[test]
fn errors_before_the_run_are_fatal_too() {
    let shown = report_fatal(RunError::FileUnreadable);
    assert_eq!(shown.text, "Could not read file");
    assert!(shown.failure);
    assert_eq!(shown.exit_code, Some(1));
    let shown = report_fatal(RunError::Configuration);
    assert_eq!(shown.text, "Could not parse config file into expected config format");
    assert!(shown.failure);
    assert_eq!(shown.exit_code, Some(1));
    let shown = report_fatal(RunError::Transport(TransportError::Network));
    assert_eq!(shown.text, "Could not reach the test service");
    assert_eq!(shown.exit_code, Some(1));
}
