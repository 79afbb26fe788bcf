//! How a spawned task's end is reported: its result, its log line, and the
//! names of the tasks of a batch.
use vstd::prelude::*;
use crate::text::{concat2, decimal, decimal_string};

verus! {

/// Why a task did not complete.
#[derive(Debug, Clone)]
pub enum TaskExecutionError {
    Cancelled(String),
    Timeout(String),
    Failed(String),
}

/// The text of a task error.
pub open spec fn task_execution_error_text(e: TaskExecutionError) -> Seq<char> {
    match e {
        TaskExecutionError::Cancelled(m) => "Task cancelled: "@ + m@,
        TaskExecutionError::Timeout(m) => "Task timeout: "@ + m@,
        TaskExecutionError::Failed(m) => "Task failed: "@ + m@,
    }
}

impl TaskExecutionError {
    /// The text of the error, as it is displayed.
    pub fn to_message(&self) -> (s: String)
        ensures
            s@ == task_execution_error_text(*self),
    {
        match self {
            TaskExecutionError::Cancelled(m) => concat2("Task cancelled: ", m.as_str()),
            TaskExecutionError::Timeout(m) => concat2("Task timeout: ", m.as_str()),
            TaskExecutionError::Failed(m) => concat2("Task failed: ", m.as_str()),
        }
    }
}

/// Severity of a log line, from the most to the least severe.
#[derive(Debug, Clone, Copy, PartialEq, Eq, Structural)]
pub enum LogLevel {
    Error,
    Warn,
    Info,
    Debug,
    Trace,
}

/// How a spawned task is run and reported.
#[derive(Debug, Clone)]
pub struct SpawnConfig {
    pub name: String,
    /// Whether a completed task is logged.
    pub log_success: bool,
    /// The level of that log line.
    pub success_log_level: LogLevel,
    /// Whether a failure is logged with its error.
    pub detailed_error_logging: bool,
    /// Seconds the task may run; none for no limit.
    pub timeout_secs: Option<u64>,
}

impl SpawnConfig {
    /// Name "unnamed_task", successes logged at info level, detailed errors, no
    /// time limit.
    pub fn default() -> (c: SpawnConfig)
        ensures
            c.name@ == "unnamed_task"@,
            c.log_success,
            c.success_log_level == LogLevel::Info,
            c.detailed_error_logging,
            c.timeout_secs is None,
    {
        SpawnConfig {
            name: String::from_str("unnamed_task"),
            log_success: true,
            success_log_level: LogLevel::Info,
            detailed_error_logging: true,
            timeout_secs: None,
        }
    }

    /// The default configuration under another name.
    pub fn new(name: String) -> (c: SpawnConfig)
        ensures
            c.name == name,
            c.log_success,
            c.success_log_level == LogLevel::Info,
            c.detailed_error_logging,
            c.timeout_secs is None,
    {
        SpawnConfig { name, ..SpawnConfig::default() }
    }

    pub fn with_log_success(self, log: bool) -> (c: SpawnConfig)
        ensures
            c == (SpawnConfig { log_success: log, ..self }),
    {
        SpawnConfig { log_success: log, ..self }
    }

    pub fn with_success_level(self, level: LogLevel) -> (c: SpawnConfig)
        ensures
            c == (SpawnConfig { success_log_level: level, ..self }),
    {
        SpawnConfig { success_log_level: level, ..self }
    }

    pub fn with_detailed_errors(self, detailed: bool) -> (c: SpawnConfig)
        ensures
            c == (SpawnConfig { detailed_error_logging: detailed, ..self }),
    {
        SpawnConfig { detailed_error_logging: detailed, ..self }
    }

    pub fn with_timeout(self, timeout_secs: u64) -> (c: SpawnConfig)
        ensures
            c == (SpawnConfig { timeout_secs: Some(timeout_secs), ..self }),
    {
        SpawnConfig { timeout_secs: Some(timeout_secs), ..self }
    }

    /// The configuration of the task at `idx` of a batch: the same, named
    /// `<name>[<idx>]`.
    pub fn for_batch_member(&self, idx: usize) -> (c: SpawnConfig)
        ensures
            c.name@ == self.name@ + "["@ + decimal(idx as nat) + "]"@,
            c.log_success == self.log_success,
            c.success_log_level == self.success_log_level,
            c.detailed_error_logging == self.detailed_error_logging,
            c.timeout_secs == self.timeout_secs,
    {
        let mut name = self.name.clone();
        name.append("[");
        let n = decimal_string(idx as u64);
        name.append(n.as_str());
        name.append("]");
        SpawnConfig {
            name,
            log_success: self.log_success,
            success_log_level: self.success_log_level,
            detailed_error_logging: self.detailed_error_logging,
            timeout_secs: self.timeout_secs,
        }
    }
}

/// How the work of a spawned task ended.
#[derive(Debug, Clone)]
pub enum TaskOutcome {
    /// It returned without error.
    Completed,
    /// It returned an error with this text.
    Failed(String),
    /// It was still running when its time limit was up.
    TimedOut,
}

/// A line to log about a task.
#[derive(Debug, Clone)]
pub enum LogLine {
    Nothing,
    At(LogLevel, String),
}

/// Whether `l` is the line `text` at `level`.
pub open spec fn logs(l: LogLine, level: LogLevel, text: Seq<char>) -> bool {
    l matches LogLine::At(lv, t) && lv == level && t@ == text
}

/// The message of a task that ran over its limit.
pub open spec fn timeout_text(name: Seq<char>, secs: u64) -> Seq<char> {
    "Task '"@ + name + "' exceeded timeout of "@ + decimal(secs as nat) + "s"@
}

/// Reports the end of a task: its result and the line to log.  A completed task
/// is logged at the configured level when successes are logged; a failure is
/// logged as an error with its text when errors are detailed, as a warning
/// without it otherwise; running over the limit is logged as an error.
pub fn settle_task(config: &SpawnConfig, outcome: TaskOutcome) -> (r: (Result<(), TaskExecutionError>, LogLine))
    requires
        outcome is TimedOut ==> config.timeout_secs is Some,
    ensures
        match outcome {
            TaskOutcome::Completed => r.0 is Ok && (if config.log_success {
                logs(
                    r.1,
                    config.success_log_level,
                    "Task '"@ + config.name@ + "' completed successfully"@,
                )
            } else {
                r.1 is Nothing
            }),
            TaskOutcome::Failed(msg) => r.0 matches Err(TaskExecutionError::Failed(m)) && m@ == msg@ && (
            if config.detailed_error_logging {
                logs(r.1, LogLevel::Error, "Task '"@ + config.name@ + "' failed: "@ + msg@)
            } else {
                logs(r.1, LogLevel::Warn, "Task '"@ + config.name@ + "' failed"@)
            }),
            TaskOutcome::TimedOut => r.0 matches Err(TaskExecutionError::Timeout(m)) && m@ == timeout_text(
                config.name@,
                config.timeout_secs->0,
            ) && logs(r.1, LogLevel::Error, timeout_text(config.name@, config.timeout_secs->0)),
        },
{
    let mut head = String::from_str("Task '");
    head.append(config.name.as_str());
    match outcome {
        TaskOutcome::Completed => {
            let line = if config.log_success {
                let mut t = head;
                t.append("' completed successfully");
                LogLine::At(config.success_log_level, t)
            } else {
                LogLine::Nothing
            };
            (Ok(()), line)
        },
        TaskOutcome::Failed(msg) => {
            let mut t = head;
            if config.detailed_error_logging {
                t.append("' failed: ");
                t.append(msg.as_str());
                (Err(TaskExecutionError::Failed(msg)), LogLine::At(LogLevel::Error, t))
            } else {
                t.append("' failed");
                (Err(TaskExecutionError::Failed(msg)), LogLine::At(LogLevel::Warn, t))
            }
        },
        TaskOutcome::TimedOut => {
            let secs = match config.timeout_secs {
                Some(s) => s,
                None => 0,
            };
            let mut t = head;
            t.append("' exceeded timeout of ");
            let n = decimal_string(secs);
            t.append(n.as_str());
            t.append("s");
            (Err(TaskExecutionError::Timeout(t.clone())), LogLine::At(LogLevel::Error, t))
        },
    }
}

/// The error of a task whose join failed: cancelled, panicked, or another
/// failure with the join error's text.
pub fn join_failure(cancelled: bool, panicked: bool, text: String) -> (e: TaskExecutionError)
    ensures
        cancelled ==> (e matches TaskExecutionError::Cancelled(m) && m@ == "Task was cancelled"@),
        !cancelled && panicked ==> (e matches TaskExecutionError::Cancelled(m) && m@ == "Task panicked"@),
        !cancelled && !panicked ==> e == TaskExecutionError::Failed(text),
{
    if cancelled {
        TaskExecutionError::Cancelled(String::from_str("Task was cancelled"))
    } else if panicked {
        TaskExecutionError::Cancelled(String::from_str("Task panicked"))
    } else {
        TaskExecutionError::Failed(text)
    }
}

/// Runs tasks and reports their ends; the running is done by the caller.
pub struct TaskSpawner;

} // verus!
