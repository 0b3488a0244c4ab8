//! Running the application: what is logged when one of its two long-lived
//! tasks comes to an end.

use vstd::prelude::*;
use vstd::string::*;

verus! {

/// How a long-lived task ended.
#[derive(Debug, PartialEq, Eq)]
pub enum TaskExit {
    /// It returned without an error.
    Completed,
    /// It returned this error.
    Failed(String),
    /// It did not run to its end, for this reason.
    Aborted(String),
}

/// How grave the end of a task is.
#[derive(Clone, Copy, Debug, PartialEq, Eq, Structural)]
pub enum Severity {
    Info,
    Error,
}

/// The log record of the end of a task.
#[derive(Debug, PartialEq, Eq)]
pub struct ExitReport {
    pub severity: Severity,
    pub message: String,
    pub error: Option<String>,
}

/// What is said of the end of the task `task_name`.
pub open spec fn exit_message(task_name: Seq<char>, outcome: TaskExit) -> Seq<char> {
    match outcome {
        TaskExit::Completed => task_name + " has exited"@,
        TaskExit::Failed(_) => task_name + " failed"@,
        TaskExit::Aborted(_) => task_name + " task failed to complete"@,
    }
}

/// Describes the end of the task `task_name`: a plain notice where it
/// returned, an error with its cause where it failed or was cut short.
pub fn report_exit(task_name: &str, outcome: TaskExit) -> (report: ExitReport)
    ensures
        report.message@ == exit_message(task_name@, outcome),
        report.severity == if outcome is Completed {
            Severity::Info
        } else {
            Severity::Error
        },
        match outcome {
            TaskExit::Completed => report.error is None,
            TaskExit::Failed(cause) => report.error matches Some(text) && text@ == cause@,
            TaskExit::Aborted(cause) => report.error matches Some(text) && text@ == cause@,
        },
{
    let message = String::from_str(task_name);
    match outcome {
        TaskExit::Completed => ExitReport {
            severity: Severity::Info,
            message: message.concat(" has exited"),
            error: None,
        },
        TaskExit::Failed(cause) => ExitReport {
            severity: Severity::Error,
            message: message.concat(" failed"),
            error: Some(cause),
        },
        TaskExit::Aborted(cause) => ExitReport {
            severity: Severity::Error,
            message: message.concat(" task failed to complete"),
            error: Some(cause),
        },
    }
}

} // verus!
