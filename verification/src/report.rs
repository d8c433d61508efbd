//! The reporter: what is shown for each of the engine's notifications, and
//! the status the process exits with when the run is over.

use vstd::prelude::*;
use vstd::string::StringExecFns;
use crate::engine::Notification;
use crate::outcome::{glyph_of, mark_text};
use crate::upload::TransportError;

verus! {

/// What ends a run before it can give its verdict.
#[derive(Debug, Clone, Copy, PartialEq, Eq, Structural)]
pub enum RunError {
    /// The configuration is unreadable or malformed.
    Configuration,
    /// The file of a configured image cannot be read.
    FileUnreadable,
    /// An upload failed.
    Transport(TransportError),
}

/// What the reporter does for one notification.
#[derive(Debug)]
pub struct Report {
    /// The text to show.
    pub text: String,
    /// Whether the text is the message of a fatal error.
    pub failure: bool,
    /// The status to exit with once the text is shown, where the run ends
    /// here.
    pub exit_code: Option<i32>,
}

/// The exit status for the verdict on a run.
pub open spec fn exit_status(success: bool) -> i32 {
    if success {
        0
    } else {
        1
    }
}

/// The message shown for a fatal error.
pub open spec fn message_of(error: RunError) -> Seq<char> {
    match error {
        RunError::Configuration => "Could not parse config file into expected config format"@,
        RunError::FileUnreadable => "Could not read file"@,
        RunError::Transport(TransportError::Network) => "Could not reach the test service"@,
        RunError::Transport(TransportError::NotJson) => "The test service did not answer in JSON"@,
        RunError::Transport(TransportError::NoVerdict) => "The test service gave no verdict"@,
        RunError::Transport(
            TransportError::VerdictNotBoolean,
        ) => "The test service gave a verdict that is not a boolean"@,
    }
}

/// The text shown for a notification: the item's mark, the line break that
/// closes the row of marks, or the message of the failure.
pub open spec fn shown_for(note: Notification) -> Seq<char> {
    match note {
        Notification::Completed { success, .. } => seq![glyph_of(success)],
        Notification::Finished { .. } => seq!['\n'],
        Notification::Aborted { error, .. } => message_of(RunError::Transport(error)),
    }
}

/// The status the process exits with on a notification, if it exits: the
/// run's verdict decides it, and a failure always gives 1.
pub open spec fn exit_for(note: Notification) -> Option<i32> {
    match note {
        Notification::Completed { .. } => None,
        Notification::Finished { success } => Some(exit_status(success)),
        Notification::Aborted { .. } => Some(1i32),
    }
}

/// The exit status for the verdict on a run: 0 for a pass, 1 otherwise.
pub fn exit_code(success: bool) -> (code: i32)
    ensures
        code == exit_status(success),
{
    if success {
        0
    } else {
        1
    }
}

/// The message shown for a fatal error.
pub fn message(error: RunError) -> (text: String)
    ensures
        text@ == message_of(error),
{
    match error {
        RunError::Configuration => String::from_str(
            "Could not parse config file into expected config format",
        ),
        RunError::FileUnreadable => String::from_str("Could not read file"),
        RunError::Transport(TransportError::Network) => String::from_str(
            "Could not reach the test service",
        ),
        RunError::Transport(TransportError::NotJson) => String::from_str(
            "The test service did not answer in JSON",
        ),
        RunError::Transport(TransportError::NoVerdict) => String::from_str(
            "The test service gave no verdict",
        ),
        RunError::Transport(TransportError::VerdictNotBoolean) => String::from_str(
            "The test service gave a verdict that is not a boolean",
        ),
    }
}

/// What to do for one notification of the engine.
pub fn report(note: Notification) -> (shown: Report)
    ensures
        shown.text@ == shown_for(note),
        shown.failure == (note is Aborted),
        shown.exit_code == exit_for(note),
{
    match note {
        Notification::Completed { success, .. } => Report {
            text: mark_text(success),
            failure: false,
            exit_code: None,
        },
        Notification::Finished { success } => {
            proof {
                reveal_strlit("\n");
            }
            let text = String::from_str("\n");
            assert(text@ =~= seq!['\n']);
            Report { text, failure: false, exit_code: Some(exit_code(success)) }
        },
        Notification::Aborted { error, .. } => Report {
            text: message(RunError::Transport(error)),
            failure: true,
            exit_code: Some(1),
        },
    }
}

/// What to do when the run cannot go on: show the error's message and exit
/// with status 1.
pub fn report_fatal(error: RunError) -> (shown: Report)
    ensures
        shown.text@ == message_of(error),
        shown.failure,
        shown.exit_code == Some(1i32),
{
    Report { text: message(error), failure: true, exit_code: Some(1) }
}

} // verus!
