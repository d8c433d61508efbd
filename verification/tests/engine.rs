use imagetest::engine::{Event, Notification, Phase, SubmissionEngine};
use imagetest::outcome::TestResponse;
use imagetest::report::report;
use imagetest::upload::TransportError;

fn pass(index: usize) -> Event {
    Event { index, outcome: Ok(TestResponse { success: true }) }
}

fn fail(index: usize) -> Event {
    Event { index, outcome: Ok(TestResponse { success: false }) }
}

fn broken(index: usize, error: TransportError) -> Event {
    Event { index, outcome: Err(error) }
}

/// Runs the engine over the events and returns everything it reported.
fn trace(count: usize, events: &[Event]) -> Vec<Notification> {
    let (mut engine, mut notes) = SubmissionEngine::start(count);
    for event in events {
        notes.extend(engine.handle(*event));
    }
    notes
}

/// Shows the notifications as the reporter would, up to the first exit.
fn transcript(notes: &[Notification]) -> (String, Option<i32>) {
    let mut text = String::new();
    for note in notes {
        let shown = report(*note);
        text.push_str(&shown.text);
        if shown.exit_code.is_some() {
            return (text, shown.exit_code);
        }
    }
    (text, None)
}

#[test]
fn three_passes_give_three_marks_and_exit_zero() {
    let notes = trace(3, &[pass(1), pass(0), pass(2)]);
    assert_eq!(
        notes,
        vec![
            Notification::Completed { index: 1, success: true },
            Notification::Completed { index: 0, success: true },
            Notification::Completed { index: 2, success: true },
            Notification::Finished { success: true },
        ]
    );
    assert_eq!(transcript(&notes), ("✓✓✓\n".to_string(), Some(0)));
}

#[test]
fn one_failure_among_three_exits_one() {
    let notes = trace(3, &[pass(2), fail(0), pass(1)]);
    assert_eq!(
        notes,
        vec![
            Notification::Completed { index: 2, success: true },
            Notification::Completed { index: 0, success: false },
            Notification::Completed { index: 1, success: true },
            Notification::Finished { success: false },
        ]
    );
    assert_eq!(transcript(&notes), ("✓✗✓\n".to_string(), Some(1)));
}

#[test]
fn connection_error_on_the_only_item_is_fatal() {
    let notes = trace(1, &[broken(0, TransportError::Network)]);
    assert_eq!(notes, vec![Notification::Aborted { index: 0, error: TransportError::Network }]);
    let (text, exit) = transcript(&notes);
    assert_eq!(text, "Could not reach the test service");
    assert!(!text.contains('✓') && !text.contains('✗'));
    assert_eq!(exit, Some(1));
    assert!(report(notes[0]).failure);
}

#[test]
fn no_items_finish_at_once_with_a_pass() {
    let (engine, notes) = SubmissionEngine::start(0);
    assert_eq!(notes, vec![Notification::Finished { success: true }]);
    assert_eq!(engine.phase(), Phase::Finished);
    assert_eq!(engine.count(), 0);
    assert_eq!(transcript(&notes), ("\n".to_string(), Some(0)));
}

#[test]
fn a_run_with_items_reports_nothing_at_its_start() {
    let (engine, notes) = SubmissionEngine::start(4);
    assert!(notes.is_empty());
    assert_eq!(engine.phase(), Phase::Running);
    assert_eq!(engine.count(), 4);
    for index in 0..4 {
        assert!(engine.is_open(index));
        assert_eq!(engine.verdict(index), None);
    }
    assert!(!engine.is_open(4));
    assert_eq!(engine.verdict(4), None);
}

#[test]
fn verdict_follows_exactly_one_completion_per_item() {
    for count in 1..6usize {
        let events: Vec<Event> = (0..count).rev().map(pass).collect();
        let notes = trace(count, &events);
        assert_eq!(notes.len(), count + 1);
        for note in &notes[..count] {
            assert!(matches!(note, Notification::Completed { .. }));
        }
        assert_eq!(notes[count], Notification::Finished { success: true });
    }
}

#[test]
fn no_verdict_while_an_item_is_out() {
    let (mut engine, _) = SubmissionEngine::start(3);
    assert_eq!(engine.handle(pass(0)), vec![Notification::Completed { index: 0, success: true }]);
    assert_eq!(engine.handle(fail(2)), vec![Notification::Completed { index: 2, success: false }]);
    assert_eq!(engine.phase(), Phase::Running);
    assert_eq!(engine.verdict(0), Some(true));
    assert_eq!(engine.verdict(1), None);
    assert_eq!(engine.verdict(2), Some(false));
    assert!(engine.is_open(1));
    assert!(!engine.is_open(0));
}

#[test]
fn verdict_does_not_depend_on_arrival_order() {
    let orders: [[usize; 3]; 6] =
        [[0, 1, 2], [0, 2, 1], [1, 0, 2], [1, 2, 0], [2, 0, 1], [2, 1, 0]];
    for failing in 0..4usize {
        for order in orders.iter() {
            let events: Vec<Event> = order
                .iter()
                .map(|&index| if index == failing { fail(index) } else { pass(index) })
                .collect();
            let notes = trace(3, &events);
            assert_eq!(notes.len(), 4);
            assert_eq!(notes[3], Notification::Finished { success: failing == 3 });
        }
    }
}

#[test]
fn one_transport_error_among_several_gives_no_verdict() {
    let error = TransportError::NotJson;
    let notes = trace(3, &[pass(0), broken(1, error), pass(2)]);
    assert_eq!(
        notes,
        vec![
            Notification::Completed { index: 0, success: true },
            Notification::Aborted { index: 1, error },
        ]
    );
    let notes = trace(2, &[broken(1, error), pass(0)]);
    assert_eq!(notes, vec![Notification::Aborted { index: 1, error }]);
    let notes = trace(2, &[pass(0), broken(1, error)]);
    assert!(!notes.iter().any(|note| matches!(note, Notification::Finished { .. })));
    assert_eq!(notes.last(), Some(&Notification::Aborted { index: 1, error }));
}

#[test]
fn an_aborted_run_stays_aborted() {
    let (mut engine, _) = SubmissionEngine::start(2);
    engine.handle(broken(0, TransportError::Network));
    assert_eq!(engine.phase(), Phase::Aborted);
    assert!(engine.handle(pass(1)).is_empty());
    assert!(engine.handle(broken(1, TransportError::Network)).is_empty());
    assert_eq!(engine.phase(), Phase::Aborted);
    assert_eq!(engine.verdict(1), None);
    assert!(!engine.is_open(1));
}

#[test]
fn stale_events_change_nothing() {
    let (mut engine, _) = SubmissionEngine::start(2);
    assert!(engine.handle(pass(2)).is_empty());
    assert!(engine.handle(broken(7, TransportError::Network)).is_empty());
    assert_eq!(engine.phase(), Phase::Running);
    assert_eq!(engine.handle(fail(0)), vec![Notification::Completed { index: 0, success: false }]);
    assert!(engine.handle(pass(0)).is_empty());
    assert!(engine.handle(broken(0, TransportError::Network)).is_empty());
    assert_eq!(engine.verdict(0), Some(false));
    assert_eq!(
        engine.handle(pass(1)),
        vec![
            Notification::Completed { index: 1, success: true },
            Notification::Finished { success: false },
        ]
    );
    assert_eq!(engine.phase(), Phase::Finished);
    assert!(engine.handle(pass(1)).is_empty());
    assert!(engine.handle(broken(1, TransportError::Network)).is_empty());
    assert_eq!(engine.phase(), Phase::Finished);
}

#[test]
fn two_failures_finish_with_a_failure() {
    let notes = trace(2, &[fail(1), fail(0)]);
    assert_eq!(
        notes,
        vec![
            Notification::Completed { index: 1, success: false },
            Notification::Completed { index: 0, success: false },
            Notification::Finished { success: false },
        ]
    );
    assert_eq!(transcript(&notes), ("✗✗\n".to_string(), Some(1)));
}
