//! Framework errors, their severity, recovery strategies and error statistics.
use vstd::prelude::*;
use crate::string_map::StringMap;
use crate::text::{concat2, decimal, decimal_string};

verus! {

/// Framework error.
#[derive(Debug, Clone)]
pub enum EdgeComputeError {
    Config { message: String, source: Option<String> },
    TaskScheduling { message: String, task_id: Option<String>, queue_size: Option<usize> },
    Container { message: String, container_id: Option<String>, operation: Option<String> },
    FfiCall { message: String, function: Option<String>, language: Option<String> },
    Io { message: String, operation: Option<String>, path: Option<String> },
    Serialization { message: String, data_type: Option<String> },
    Http { status_code: u16, message: String, endpoint: Option<String> },
    Timeout { message: String, duration_seconds: Option<u64>, operation: Option<String> },
    AlgorithmExecution { message: String, algorithm: Option<String>, input_size: Option<usize> },
    ResourceExhausted { resource: String, requested: Option<u64>, available: Option<u64> },
    Validation { message: String, field: Option<String>, value: Option<String> },
    Network { message: String, host: Option<String>, port: Option<u16> },
    Authentication { message: String, user: Option<String> },
    Authorization { message: String, permission: Option<String>, resource: Option<String> },
    Database { message: String, operation: Option<String>, table: Option<String> },
    ExternalService { message: String, service: Option<String>, status_code: Option<u16> },
    Unknown { message: String, context: Option<Vec<(String, String)>> },
}

/// The text an error displays.
pub open spec fn error_text(e: EdgeComputeError) -> Seq<char> {
    match e {
        EdgeComputeError::Config { message, .. } => "Configuration error: "@ + message@,
        EdgeComputeError::TaskScheduling { message, .. } => "Task scheduling error: "@ + message@,
        EdgeComputeError::Container { message, .. } => "Container error: "@ + message@,
        EdgeComputeError::FfiCall { message, .. } => "FFI call error: "@ + message@,
        EdgeComputeError::Io { message, .. } => "I/O error: "@ + message@,
        EdgeComputeError::Serialization { message, .. } => "Serialization error: "@ + message@,
        EdgeComputeError::Http { status_code, message, .. } => "HTTP error: "@ + decimal(
            status_code as nat,
        ) + " - "@ + message@,
        EdgeComputeError::Timeout { message, .. } => "Timeout error: "@ + message@,
        EdgeComputeError::AlgorithmExecution { message, .. } => "Algorithm execution error: "@
            + message@,
        EdgeComputeError::ResourceExhausted { resource, .. } => "Resource exhausted: "@ + resource@,
        EdgeComputeError::Validation { message, .. } => "Validation error: "@ + message@,
        EdgeComputeError::Network { message, .. } => "Network error: "@ + message@,
        EdgeComputeError::Authentication { message, .. } => "Authentication error: "@ + message@,
        EdgeComputeError::Authorization { message, .. } => "Authorization error: "@ + message@,
        EdgeComputeError::Database { message, .. } => "Database error: "@ + message@,
        EdgeComputeError::ExternalService { message, .. } => "External service error: "@ + message@,
        EdgeComputeError::Unknown { message, .. } => "Unknown error: "@ + message@,
    }
}

/// Name of the kind of an error.
pub open spec fn error_type_name(e: EdgeComputeError) -> Seq<char> {
    match e {
        EdgeComputeError::Config { .. } => "Config"@,
        EdgeComputeError::TaskScheduling { .. } => "TaskScheduling"@,
        EdgeComputeError::Container { .. } => "Container"@,
        EdgeComputeError::FfiCall { .. } => "FfiCall"@,
        EdgeComputeError::Io { .. } => "Io"@,
        EdgeComputeError::Serialization { .. } => "Serialization"@,
        EdgeComputeError::Http { .. } => "Http"@,
        EdgeComputeError::Timeout { .. } => "Timeout"@,
        EdgeComputeError::AlgorithmExecution { .. } => "AlgorithmExecution"@,
        EdgeComputeError::ResourceExhausted { .. } => "ResourceExhausted"@,
        EdgeComputeError::Validation { .. } => "Validation"@,
        EdgeComputeError::Network { .. } => "Network"@,
        EdgeComputeError::Authentication { .. } => "Authentication"@,
        EdgeComputeError::Authorization { .. } => "Authorization"@,
        EdgeComputeError::Database { .. } => "Database"@,
        EdgeComputeError::ExternalService { .. } => "ExternalService"@,
        EdgeComputeError::Unknown { .. } => "Unknown"@,
    }
}

/// Severity of an error.
#[derive(Debug, Clone, Copy, PartialEq, Eq, Structural)]
pub enum ErrorSeverity {
    Low,
    Medium,
    High,
    Critical,
}

pub open spec fn error_severity(e: EdgeComputeError) -> ErrorSeverity {
    match e {
        EdgeComputeError::Config { .. } => ErrorSeverity::High,
        EdgeComputeError::TaskScheduling { .. } => ErrorSeverity::Medium,
        EdgeComputeError::Container { .. } => ErrorSeverity::High,
        EdgeComputeError::FfiCall { .. } => ErrorSeverity::High,
        EdgeComputeError::Io { .. } => ErrorSeverity::Medium,
        EdgeComputeError::Serialization { .. } => ErrorSeverity::Medium,
        EdgeComputeError::Http { .. } => ErrorSeverity::Low,
        EdgeComputeError::Timeout { .. } => ErrorSeverity::Medium,
        EdgeComputeError::AlgorithmExecution { .. } => ErrorSeverity::Medium,
        EdgeComputeError::ResourceExhausted { .. } => ErrorSeverity::High,
        EdgeComputeError::Validation { .. } => ErrorSeverity::Low,
        EdgeComputeError::Network { .. } => ErrorSeverity::Medium,
        EdgeComputeError::Authentication { .. } => ErrorSeverity::High,
        EdgeComputeError::Authorization { .. } => ErrorSeverity::High,
        EdgeComputeError::Database { .. } => ErrorSeverity::Critical,
        EdgeComputeError::ExternalService { .. } => ErrorSeverity::Medium,
        EdgeComputeError::Unknown { .. } => ErrorSeverity::Medium,
    }
}

impl EdgeComputeError {
    /// The text the error displays.
    pub fn to_message(&self) -> (s: String)
        ensures
            s@ == error_text(*self),
    {
        match self {
            EdgeComputeError::Config { message, .. } => concat2("Configuration error: ", message.as_str()),
            EdgeComputeError::TaskScheduling { message, .. } => concat2(
                "Task scheduling error: ",
                message.as_str(),
            ),
            EdgeComputeError::Container { message, .. } => concat2("Container error: ", message.as_str()),
            EdgeComputeError::FfiCall { message, .. } => concat2("FFI call error: ", message.as_str()),
            EdgeComputeError::Io { message, .. } => concat2("I/O error: ", message.as_str()),
            EdgeComputeError::Serialization { message, .. } => concat2(
                "Serialization error: ",
                message.as_str(),
            ),
            EdgeComputeError::Http { status_code, message, .. } => {
                let code = decimal_string(*status_code as u64);
                let s = concat2("HTTP error: ", code.as_str());
                let s = s.concat(" - ");
                s.concat(message.as_str())
            },
            EdgeComputeError::Timeout { message, .. } => concat2("Timeout error: ", message.as_str()),
            EdgeComputeError::AlgorithmExecution { message, .. } => concat2(
                "Algorithm execution error: ",
                message.as_str(),
            ),
            EdgeComputeError::ResourceExhausted { resource, .. } => concat2(
                "Resource exhausted: ",
                resource.as_str(),
            ),
            EdgeComputeError::Validation { message, .. } => concat2("Validation error: ", message.as_str()),
            EdgeComputeError::Network { message, .. } => concat2("Network error: ", message.as_str()),
            EdgeComputeError::Authentication { message, .. } => concat2(
                "Authentication error: ",
                message.as_str(),
            ),
            EdgeComputeError::Authorization { message, .. } => concat2(
                "Authorization error: ",
                message.as_str(),
            ),
            EdgeComputeError::Database { message, .. } => concat2("Database error: ", message.as_str()),
            EdgeComputeError::ExternalService { message, .. } => concat2(
                "External service error: ",
                message.as_str(),
            ),
            EdgeComputeError::Unknown { message, .. } => concat2("Unknown error: ", message.as_str()),
        }
    }

    /// Name of the kind of the error.
    pub fn kind_label(&self) -> (s: String)
        ensures
            s@ == error_type_name(*self),
    {
        let name = match self {
            EdgeComputeError::Config { .. } => "Config",
            EdgeComputeError::TaskScheduling { .. } => "TaskScheduling",
            EdgeComputeError::Container { .. } => "Container",
            EdgeComputeError::FfiCall { .. } => "FfiCall",
            EdgeComputeError::Io { .. } => "Io",
            EdgeComputeError::Serialization { .. } => "Serialization",
            EdgeComputeError::Http { .. } => "Http",
            EdgeComputeError::Timeout { .. } => "Timeout",
            EdgeComputeError::AlgorithmExecution { .. } => "AlgorithmExecution",
            EdgeComputeError::ResourceExhausted { .. } => "ResourceExhausted",
            EdgeComputeError::Validation { .. } => "Validation",
            EdgeComputeError::Network { .. } => "Network",
            EdgeComputeError::Authentication { .. } => "Authentication",
            EdgeComputeError::Authorization { .. } => "Authorization",
            EdgeComputeError::Database { .. } => "Database",
            EdgeComputeError::ExternalService { .. } => "ExternalService",
            EdgeComputeError::Unknown { .. } => "Unknown",
        };
        String::from_str(name)
    }

    /// Severity of the error.
    pub fn severity(&self) -> (s: ErrorSeverity)
        ensures
            s == error_severity(*self),
    {
        match self {
            EdgeComputeError::Config { .. } => ErrorSeverity::High,
            EdgeComputeError::TaskScheduling { .. } => ErrorSeverity::Medium,
            EdgeComputeError::Container { .. } => ErrorSeverity::High,
            EdgeComputeError::FfiCall { .. } => ErrorSeverity::High,
            EdgeComputeError::Io { .. } => ErrorSeverity::Medium,
            EdgeComputeError::Serialization { .. } => ErrorSeverity::Medium,
            EdgeComputeError::Http { .. } => ErrorSeverity::Low,
            EdgeComputeError::Timeout { .. } => ErrorSeverity::Medium,
            EdgeComputeError::AlgorithmExecution { .. } => ErrorSeverity::Medium,
            EdgeComputeError::ResourceExhausted { .. } => ErrorSeverity::High,
            EdgeComputeError::Validation { .. } => ErrorSeverity::Low,
            EdgeComputeError::Network { .. } => ErrorSeverity::Medium,
            EdgeComputeError::Authentication { .. } => ErrorSeverity::High,
            EdgeComputeError::Authorization { .. } => ErrorSeverity::High,
            EdgeComputeError::Database { .. } => ErrorSeverity::Critical,
            EdgeComputeError::ExternalService { .. } => ErrorSeverity::Medium,
            EdgeComputeError::Unknown { .. } => ErrorSeverity::Medium,
        }
    }

    /// Context entries of the error: task id and queue size of a scheduling error,
    /// container id and operation of a container error, function and language of an
    /// FFI error, each when present; nothing for other errors.
    pub fn context(&self) -> (c: Vec<(String, String)>)
        ensures
            c@.len() == match *self {
                EdgeComputeError::TaskScheduling { task_id, queue_size, .. } => (if task_id is Some {
                    1int
                } else {
                    0
                }) + (if queue_size is Some { 1int } else { 0 }),
                EdgeComputeError::Container { container_id, operation, .. } => (if container_id is Some {
                    1int
                } else {
                    0
                }) + (if operation is Some { 1int } else { 0 }),
                EdgeComputeError::FfiCall { function, language, .. } => (if function is Some {
                    1int
                } else {
                    0
                }) + (if language is Some { 1int } else { 0 }),
                _ => 0,
            },
            match *self {
                EdgeComputeError::TaskScheduling { task_id, queue_size, .. } => {
                    &&& task_id matches Some(t) ==> c@[0].0@ == "task_id"@ && c@[0].1 == t
                    &&& queue_size matches Some(q) ==> c@[c@.len() - 1].0@ == "queue_size"@
                        && c@[c@.len() - 1].1@ == decimal(q as nat)
                },
                EdgeComputeError::Container { container_id, operation, .. } => {
                    &&& container_id matches Some(t) ==> c@[0].0@ == "container_id"@ && c@[0].1 == t
                    &&& operation matches Some(o) ==> c@[c@.len() - 1].0@ == "operation"@ && c@[c@.len()
                        - 1].1 == o
                },
                EdgeComputeError::FfiCall { function, language, .. } => {
                    &&& function matches Some(f) ==> c@[0].0@ == "function"@ && c@[0].1 == f
                    &&& language matches Some(l) ==> c@[c@.len() - 1].0@ == "language"@ && c@[c@.len()
                        - 1].1 == l
                },
                _ => true,
            },
    {
        let mut c: Vec<(String, String)> = Vec::new();
        match self {
            EdgeComputeError::TaskScheduling { task_id, queue_size, .. } => {
                if let Some(t) = task_id {
                    c.push((String::from_str("task_id"), t.clone()));
                }
                if let Some(q) = queue_size {
                    c.push((String::from_str("queue_size"), decimal_string(*q as u64)));
                }
            },
            EdgeComputeError::Container { container_id, operation, .. } => {
                if let Some(t) = container_id {
                    c.push((String::from_str("container_id"), t.clone()));
                }
                if let Some(o) = operation {
                    c.push((String::from_str("operation"), o.clone()));
                }
            },
            EdgeComputeError::FfiCall { function, language, .. } => {
                if let Some(f) = function {
                    c.push((String::from_str("function"), f.clone()));
                }
                if let Some(l) = language {
                    c.push((String::from_str("language"), l.clone()));
                }
            },
            _ => {},
        }
        c
    }
}

/// HTTP status answered for an error.
pub open spec fn error_status_code(e: EdgeComputeError) -> u16 {
    match e {
        EdgeComputeError::Config { .. } => 400,
        EdgeComputeError::TaskScheduling { .. } => 503,
        EdgeComputeError::Container { .. } => 500,
        EdgeComputeError::FfiCall { .. } => 500,
        EdgeComputeError::Timeout { .. } => 408,
        EdgeComputeError::ResourceExhausted { .. } => 503,
        _ => 500,
    }
}

/// The HTTP status and message an API answers for an error: the error's own text
/// for configuration, scheduling, container, FFI, time-out and resource errors, a
/// generic message for the others.
pub fn handle_error(error: &EdgeComputeError) -> (r: (u16, String))
    ensures
        r.0 == error_status_code(*error),
        match *error {
            EdgeComputeError::Config { .. } | EdgeComputeError::TaskScheduling { .. }
            | EdgeComputeError::Container { .. } | EdgeComputeError::FfiCall { .. }
            | EdgeComputeError::Timeout { .. } | EdgeComputeError::ResourceExhausted { .. } => r.1@
                == error_text(*error),
            _ => r.1@ == "Internal server error"@,
        },
{
    match error {
        EdgeComputeError::Config { .. } => (400, error.to_message()),
        EdgeComputeError::TaskScheduling { .. } => (503, error.to_message()),
        EdgeComputeError::Container { .. } => (500, error.to_message()),
        EdgeComputeError::FfiCall { .. } => (500, error.to_message()),
        EdgeComputeError::Timeout { .. } => (408, error.to_message()),
        EdgeComputeError::ResourceExhausted { .. } => (503, error.to_message()),
        _ => (500, String::from_str("Internal server error")),
    }
}

/// What to do after an error.
#[derive(Debug)]
pub enum RecoveryStrategy {
    /// Leave the error unhandled.
    NoRecovery,
    /// Retry; the back-off factor is given in thousandths.
    Retry { max_attempts: u32, delay_ms: u64, backoff_multiplier_permille: u32 },
    Fallback { fallback_function: String },
    Alert { message: String, channels: Vec<String> },
    Shutdown { reason: String },
}

/// Whether two strategies are the same: same variant, same fields (the alert
/// channels compared as sequences).
pub open spec fn same_strategy(a: RecoveryStrategy, b: RecoveryStrategy) -> bool {
    match (a, b) {
        (RecoveryStrategy::NoRecovery, RecoveryStrategy::NoRecovery) => true,
        (
            RecoveryStrategy::Retry { max_attempts: m1, delay_ms: d1, backoff_multiplier_permille: b1 },
            RecoveryStrategy::Retry { max_attempts: m2, delay_ms: d2, backoff_multiplier_permille: b2 },
        ) => m1 == m2 && d1 == d2 && b1 == b2,
        (RecoveryStrategy::Fallback { fallback_function: f1 }, RecoveryStrategy::Fallback { fallback_function: f2 }) => f1
            == f2,
        (
            RecoveryStrategy::Alert { message: m1, channels: c1 },
            RecoveryStrategy::Alert { message: m2, channels: c2 },
        ) => m1 == m2 && c1@ == c2@,
        (RecoveryStrategy::Shutdown { reason: r1 }, RecoveryStrategy::Shutdown { reason: r2 }) => r1 == r2,
        _ => false,
    }
}

impl RecoveryStrategy {
    /// A copy of this strategy.
    pub fn duplicate(&self) -> (r: RecoveryStrategy)
        ensures
            same_strategy(r, *self),
    {
        match self {
            RecoveryStrategy::NoRecovery => RecoveryStrategy::NoRecovery,
            RecoveryStrategy::Retry { max_attempts, delay_ms, backoff_multiplier_permille } => {
                RecoveryStrategy::Retry {
                    max_attempts: *max_attempts,
                    delay_ms: *delay_ms,
                    backoff_multiplier_permille: *backoff_multiplier_permille,
                }
            },
            RecoveryStrategy::Fallback { fallback_function } => RecoveryStrategy::Fallback {
                fallback_function: fallback_function.clone(),
            },
            RecoveryStrategy::Alert { message, channels } => RecoveryStrategy::Alert {
                message: message.clone(),
                channels: clone_strings(channels),
            },
            RecoveryStrategy::Shutdown { reason } => RecoveryStrategy::Shutdown { reason: reason.clone() },
        }
    }
}

/// A copy of a list of strings.
pub fn clone_strings(v: &Vec<String>) -> (r: Vec<String>)
    ensures
        r@ == v@,
{
    let mut r: Vec<String> = Vec::new();
    let mut i: usize = 0;
    while i < v.len()
        invariant
            i <= v.len(),
            r@ == v@.subrange(0, i as int),
        decreases v.len() - i,
    {
        r.push(v[i].clone());
        assert(r@ =~= v@.subrange(0, i + 1));
        i += 1;
    }
    assert(r@ =~= v@);
    r
}

/// The default strategy of each error kind: network errors retry three times from
/// 1000 ms doubling, time-outs twice from 500 ms by 1.5, container errors alert the
/// log and the administrator, database errors fall back to the memory cache.
pub open spec fn default_strategy(kind: Seq<char>) -> Option<RecoveryStrategy> {
    if kind == "Network"@ {
        Some(RecoveryStrategy::Retry { max_attempts: 3, delay_ms: 1000, backoff_multiplier_permille: 2000 })
    } else if kind == "Timeout"@ {
        Some(RecoveryStrategy::Retry { max_attempts: 2, delay_ms: 500, backoff_multiplier_permille: 1500 })
    } else {
        None
    }
}

/// One recorded error.
#[derive(Debug, Clone)]
pub struct ErrorRecord {
    pub id: String,
    pub error_type: String,
    pub message: String,
    pub severity: ErrorSeverity,
    pub timestamp_ms: u64,
    pub context: Vec<(String, String)>,
    pub stack_trace: Option<String>,
}

/// Most recent errors kept.
pub const MAX_RECENT_ERRORS: usize = 100;

/// A fresh identifier for an error record (a random UUID, version 4, in its
/// hyphenated form).  Nothing is stated of its value.
#[verifier::external_body]
pub(crate) fn new_record_id() -> String {
    uuid::Uuid::new_v4().to_string()
}

/// Two error records with the same fields.
pub open spec fn same_record(a: ErrorRecord, b: ErrorRecord) -> bool {
    &&& a.id == b.id
    &&& a.error_type == b.error_type
    &&& a.message == b.message
    &&& a.severity == b.severity
    &&& a.timestamp_ms == b.timestamp_ms
    &&& a.context@ == b.context@
    &&& a.stack_trace == b.stack_trace
}

fn copy_pairs(v: &Vec<(String, String)>) -> (r: Vec<(String, String)>)
    ensures
        r@ == v@,
{
    let mut r: Vec<(String, String)> = Vec::new();
    let mut i: usize = 0;
    while i < v.len()
        invariant
            i <= v@.len(),
            r@ == v@.take(i as int),
        decreases v@.len() - i,
    {
        let p = (v[i].0.clone(), v[i].1.clone());
        r.push(p);
        proof {
            assert(v@.take(i as int + 1) =~= v@.take(i as int).push(v@[i as int]));
        }
        i += 1;
    }
    proof {
        assert(v@.take(v@.len() as int) =~= v@);
    }
    r
}

impl ErrorRecord {
    /// The same record, field for field.
    pub fn duplicate(&self) -> (r: ErrorRecord)
        ensures
            same_record(r, *self),
    {
        ErrorRecord {
            id: self.id.clone(),
            error_type: self.error_type.clone(),
            message: self.message.clone(),
            severity: self.severity,
            timestamp_ms: self.timestamp_ms,
            context: copy_pairs(&self.context),
            stack_trace: match &self.stack_trace {
                Some(t) => Some(t.clone()),
                None => None,
            },
        }
    }
}

/// Error counts by kind, the most recent errors, and when they last changed.
#[derive(Debug)]
pub struct ErrorStats {
    pub error_counts: StringMap<u64>,
    /// Oldest first.
    pub recent_errors: Vec<ErrorRecord>,
    /// Milliseconds of the caller's clock.
    pub last_updated_ms: u64,
}

/// Counts errors by kind, keeps the most recent ones and answers with a recovery strategy.
pub struct ErrorHandler {
    error_counts: StringMap<u64>,
    recent_errors: Vec<ErrorRecord>,
    recovery_strategies: StringMap<RecoveryStrategy>,
    last_updated_ms: u64,
}

/// What recording `error` at clock reading `now_ms` does: the count of its kind
/// goes up by one (staying at the largest count once there), the other counts
/// stay; a record of its kind, text, severity and time joins the recent ones,
/// the oldest leaving once there are more than 100; the strategies stay.
pub open spec fn records_error(before: ErrorHandler, after: ErrorHandler, error: EdgeComputeError, now_ms: u64) -> bool {
    let kind = error_type_name(error);
    let count = if before.counts().dom().contains(kind) {
        before.counts()[kind] as int
    } else {
        0
    };
    let all = before.recent().push(after.recent().last());
    &&& after.counts() == before.counts().insert(kind, (if count < u64::MAX { count + 1 } else { count }) as u64)
    &&& after.recent() == (if all.len() > MAX_RECENT_ERRORS {
        all.drop_first()
    } else {
        all
    })
    &&& after.recent().len() <= MAX_RECENT_ERRORS
    &&& after.recent().last().error_type@ == kind
    &&& after.recent().last().message@ == error_text(error)
    &&& after.recent().last().severity == error_severity(error)
    &&& after.recent().last().timestamp_ms == now_ms
    &&& after.last_update() == now_ms
    &&& after.strategies() == before.strategies()
}

/// Recording an error adds one to the count of its kind (below the largest
/// count) and leaves the others, and the history grows by one record up to 100,
/// its newest record being that error's.
pub proof fn lemma_recording_counts_and_history(
    before: ErrorHandler,
    after: ErrorHandler,
    error: EdgeComputeError,
    now_ms: u64,
    other: Seq<char>,
)
    requires
        before.wf(),
        records_error(before, after, error, now_ms),
    ensures
        after.counts().dom().contains(error_type_name(error)),
        (if before.counts().dom().contains(error_type_name(error)) {
            before.counts()[error_type_name(error)] as int
        } else {
            0
        }) < u64::MAX ==> after.counts()[error_type_name(error)] == (if before.counts().dom().contains(
            error_type_name(error),
        ) {
            before.counts()[error_type_name(error)] as int
        } else {
            0
        }) + 1,
        other != error_type_name(error) ==> after.counts().dom().contains(other) == before.counts().dom().contains(
            other,
        ) && after.counts()[other] == before.counts()[other],
        after.recent().len() == (if before.recent().len() < MAX_RECENT_ERRORS {
            before.recent().len() + 1int
        } else {
            MAX_RECENT_ERRORS as int
        }),
        after.recent().last().error_type@ == error_type_name(error),
        after.recent().last().message@ == error_text(error),
{
    before.lemma_recent_bounded();
}

/// Position of an error's variant in the declaration of `EdgeComputeError`.
pub open spec fn variant_position(e: EdgeComputeError) -> nat {
    match e {
        EdgeComputeError::Config { .. } => 0,
        EdgeComputeError::TaskScheduling { .. } => 1,
        EdgeComputeError::Container { .. } => 2,
        EdgeComputeError::FfiCall { .. } => 3,
        EdgeComputeError::Io { .. } => 4,
        EdgeComputeError::Serialization { .. } => 5,
        EdgeComputeError::Http { .. } => 6,
        EdgeComputeError::Timeout { .. } => 7,
        EdgeComputeError::AlgorithmExecution { .. } => 8,
        EdgeComputeError::ResourceExhausted { .. } => 9,
        EdgeComputeError::Validation { .. } => 10,
        EdgeComputeError::Network { .. } => 11,
        EdgeComputeError::Authentication { .. } => 12,
        EdgeComputeError::Authorization { .. } => 13,
        EdgeComputeError::Database { .. } => 14,
        EdgeComputeError::ExternalService { .. } => 15,
        EdgeComputeError::Unknown { .. } => 16,
    }
}

/// Kind names tell the variants apart: two errors have the same kind name
/// exactly when they are of the same variant, so no kind is counted, or
/// answered, under another kind's name.
pub proof fn lemma_kind_names_tell_variants_apart(a: EdgeComputeError, b: EdgeComputeError)
    ensures
        error_type_name(a) == error_type_name(b) <==> variant_position(a) == variant_position(b),
{
    reveal_strlit("Config");
    reveal_strlit("TaskScheduling");
    reveal_strlit("Container");
    reveal_strlit("FfiCall");
    reveal_strlit("Io");
    reveal_strlit("Serialization");
    reveal_strlit("Http");
    reveal_strlit("Timeout");
    reveal_strlit("AlgorithmExecution");
    reveal_strlit("ResourceExhausted");
    reveal_strlit("Validation");
    reveal_strlit("Network");
    reveal_strlit("Authentication");
    reveal_strlit("Authorization");
    reveal_strlit("Database");
    reveal_strlit("ExternalService");
    reveal_strlit("Unknown");
    if error_type_name(a) == error_type_name(b) {
        let x = error_type_name(a);
        assert(x.len() == error_type_name(b).len());
        assert(x[0] == error_type_name(b)[0]);
        assert(x[1] == error_type_name(b)[1]);
        assert(x[x.len() - 1] == error_type_name(b)[x.len() - 1]);
        if x.len() > 9 {
            assert(x[9] == error_type_name(b)[9]);
        }
    }
}

/// Handling a time-out error with the default strategies answers the time-out
/// strategy (two attempts from 500 ms, by 1.5) and counts it under "Timeout";
/// handling a network error answers the network strategy (three attempts from
/// 1000 ms, doubling) and counts it under "Network".
pub proof fn lemma_timeout_and_network_strategies(
    before: ErrorHandler,
    after: ErrorHandler,
    error: EdgeComputeError,
    now_ms: u64,
    r: RecoveryStrategy,
)
    requires
        before.wf(),
        forall|k: Seq<char>|
            #[trigger] default_strategy(k) matches Some(s) ==> before.strategies().dom().contains(k)
                && before.strategies()[k] == s,
        records_error(before, after, error, now_ms),
        same_strategy(r, (if before.strategies().dom().contains(error_type_name(error)) {
            before.strategies()[error_type_name(error)]
        } else {
            RecoveryStrategy::NoRecovery
        })),
    ensures
        error is Timeout ==> r == (RecoveryStrategy::Retry {
            max_attempts: 2,
            delay_ms: 500,
            backoff_multiplier_permille: 1500,
        }) && after.counts().dom().contains("Timeout"@) && after.recent().last().error_type@ == "Timeout"@
            && (!before.counts().dom().contains("Timeout"@) ==> after.counts()["Timeout"@] == 1),
        error is Network ==> r == (RecoveryStrategy::Retry {
            max_attempts: 3,
            delay_ms: 1000,
            backoff_multiplier_permille: 2000,
        }) && after.counts().dom().contains("Network"@) && after.recent().last().error_type@ == "Network"@
            && (!before.counts().dom().contains("Network"@) ==> after.counts()["Network"@] == 1),
{
    reveal_strlit("Timeout");
    reveal_strlit("Network");
    assert("Network"@[0] != "Timeout"@[0]);
    let kind = error_type_name(error);
    if error is Timeout {
        assert(kind == "Timeout"@);
        assert(default_strategy(kind) is Some);
    }
    if error is Network {
        assert(kind == "Network"@);
        assert(default_strategy(kind) is Some);
    }
}

impl ErrorHandler {
    pub closed spec fn wf(&self) -> bool {
        &&& self.error_counts.wf()
        &&& self.recovery_strategies.wf()
        &&& self.recent_errors@.len() <= MAX_RECENT_ERRORS
    }

    /// Number of errors recorded by kind.
    pub closed spec fn counts(&self) -> Map<Seq<char>, u64> {
        self.error_counts@
    }

    /// The most recent errors, oldest first.
    pub closed spec fn recent(&self) -> Seq<ErrorRecord> {
        self.recent_errors@
    }

    /// The strategy configured for each error kind.
    pub closed spec fn strategies(&self) -> Map<Seq<char>, RecoveryStrategy> {
        self.recovery_strategies@
    }

    pub fn new() -> (h: ErrorHandler)
        ensures
            h.wf(),
            h.counts() == Map::<Seq<char>, u64>::empty(),
            h.recent().len() == 0,
            h.strategies().dom() == set!["Network"@, "Timeout"@, "Container"@, "Database"@],
            forall|k: Seq<char>| #[trigger] default_strategy(k) matches Some(s) ==> h.strategies()[k] == s,
            h.strategies()["Container"@] matches RecoveryStrategy::Alert { message, channels }
                && message@ == "Container operation failed"@ && channels@.len() == 2
                && channels@[0]@ == "log"@ && channels@[1]@ == "admin"@,
            h.strategies()["Database"@] matches RecoveryStrategy::Fallback { fallback_function }
                && fallback_function@ == "use_memory_cache"@,
    {
        let mut s: StringMap<RecoveryStrategy> = StringMap::new();
        s.insert(
            String::from_str("Network"),
            RecoveryStrategy::Retry { max_attempts: 3, delay_ms: 1000, backoff_multiplier_permille: 2000 },
        );
        s.insert(
            String::from_str("Timeout"),
            RecoveryStrategy::Retry { max_attempts: 2, delay_ms: 500, backoff_multiplier_permille: 1500 },
        );
        let mut channels: Vec<String> = Vec::new();
        channels.push(String::from_str("log"));
        channels.push(String::from_str("admin"));
        proof {
            reveal_strlit("log");
            reveal_strlit("admin");
            assert(channels@[0]@ == "log"@ && channels@[1]@ == "admin"@);
        }
        let alert = RecoveryStrategy::Alert { message: String::from_str("Container operation failed"), channels };
        let ghost alert_g = alert;
        s.insert(String::from_str("Container"), alert);
        s.insert(
            String::from_str("Database"),
            RecoveryStrategy::Fallback { fallback_function: String::from_str("use_memory_cache") },
        );
        proof {
            reveal_strlit("Network");
            reveal_strlit("Timeout");
            reveal_strlit("Container");
            reveal_strlit("Database");
            reveal_strlit("log");
            reveal_strlit("admin");
            assert(s@.dom() =~= set!["Network"@, "Timeout"@, "Container"@, "Database"@]);
            assert("Network"@[0] == 'N' && "Timeout"@[0] == 'T' && "Container"@[0] == 'C' && "Database"@[0] == 'D');
            assert(s@["Container"@] == alert_g);
            assert forall|k: Seq<char>| #[trigger] default_strategy(k) is Some implies s@[k] == default_strategy(k)->0 by {
                if k == "Network"@ {
                } else if k == "Timeout"@ {
                }
            }
        }
        ErrorHandler {
            error_counts: StringMap::new(),
            recent_errors: Vec::new(),
            recovery_strategies: s,
            last_updated_ms: 0,
        }
    }

    /// The strategy for an error: the one configured for its kind, else none.
    pub fn get_recovery_strategy(&self, error: &EdgeComputeError) -> (r: RecoveryStrategy)
        requires
            self.wf(),
        ensures
            same_strategy(r, (if self.strategies().dom().contains(error_type_name(*error)) {
                self.strategies()[error_type_name(*error)]
            } else {
                RecoveryStrategy::NoRecovery
            })),
    {
        let kind = error.kind_label();
        match self.recovery_strategies.get(kind.as_str()) {
            Some(s) => s.duplicate(),
            None => RecoveryStrategy::NoRecovery,
        }
    }

    /// Records an error seen at clock reading `now_ms` under identifier `id`, and
    /// answers with its recovery strategy.  Only the 100 most recent records are kept.
    pub fn record_error(&mut self, error: &EdgeComputeError, id: String, now_ms: u64) -> (r: RecoveryStrategy)
        requires
            old(self).wf(),
        ensures
            final(self).wf(),
            final(self).strategies() == old(self).strategies(),
            records_error(*old(self), *final(self), *error, now_ms),
            final(self).recent().last().id == id,
            same_strategy(r, (if old(self).strategies().dom().contains(error_type_name(*error)) {
                old(self).strategies()[error_type_name(*error)]
            } else {
                RecoveryStrategy::NoRecovery
            })),
    {
        let kind = error.kind_label();
        let count = match self.error_counts.get(kind.as_str()) {
            Some(c) => *c,
            None => 0,
        };
        let next = if count < u64::MAX { count + 1 } else { count };
        self.error_counts.insert(kind.clone(), next);
        let record = ErrorRecord {
            id,
            error_type: kind,
            message: error.to_message(),
            severity: error.severity(),
            timestamp_ms: now_ms,
            context: error.context(),
            stack_trace: None,
        };
        let ghost before = self.recent_errors@;
        self.recent_errors.push(record);
        if self.recent_errors.len() > MAX_RECENT_ERRORS {
            self.recent_errors.remove(0);
            assert(self.recent_errors@ =~= before.push(record).drop_first());
        }
        self.last_updated_ms = now_ms;
        self.get_recovery_strategy(error)
    }

    /// Records an error now, under a fresh identifier.
    pub fn handle_error(&mut self, error: &EdgeComputeError, now_ms: u64) -> (r: RecoveryStrategy)
        requires
            old(self).wf(),
        ensures
            final(self).wf(),
            final(self).strategies() == old(self).strategies(),
            records_error(*old(self), *final(self), *error, now_ms),
            same_strategy(r, (if old(self).strategies().dom().contains(error_type_name(*error)) {
                old(self).strategies()[error_type_name(*error)]
            } else {
                RecoveryStrategy::NoRecovery
            })),
    {
        let id = new_record_id();
        self.record_error(error, id, now_ms)
    }

    /// When the counts last changed.
    pub closed spec fn last_update(&self) -> u64 {
        self.last_updated_ms
    }

    /// A handler keeps at most the 100 most recent records.
    pub proof fn lemma_recent_bounded(&self)
        requires
            self.wf(),
        ensures
            self.recent().len() <= MAX_RECENT_ERRORS,
    {
    }

    /// The counts by kind and copies of the recent records.
    pub fn get_stats(&self) -> (st: ErrorStats)
        requires
            self.wf(),
        ensures
            st.error_counts.wf(),
            st.error_counts@ == self.counts(),
            st.recent_errors@.len() == self.recent().len(),
            forall|i: int| 0 <= i < self.recent().len() ==> same_record(#[trigger] st.recent_errors@[i], self.recent()[i]),
            st.last_updated_ms == self.last_update(),
    {
        let mut recent: Vec<ErrorRecord> = Vec::new();
        let mut i: usize = 0;
        while i < self.recent_errors.len()
            invariant
                i <= self.recent_errors@.len(),
                recent@.len() == i,
                forall|j: int| 0 <= j < i ==> same_record(#[trigger] recent@[j], self.recent_errors@[j]),
            decreases self.recent_errors@.len() - i,
        {
            recent.push(self.recent_errors[i].duplicate());
            i += 1;
        }
        ErrorStats { error_counts: self.error_counts.copied(), recent_errors: recent, last_updated_ms: self.last_updated_ms }
    }

    /// Forgets all counts and records.
    pub fn reset_stats(&mut self, now_ms: u64)
        requires
            old(self).wf(),
        ensures
            final(self).wf(),
            final(self).counts() == Map::<Seq<char>, u64>::empty(),
            final(self).recent().len() == 0,
            final(self).strategies() == old(self).strategies(),
            final(self).last_update() == now_ms,
    {
        self.error_counts = StringMap::new();
        self.recent_errors = Vec::new();
        self.last_updated_ms = now_ms;
    }
}

/// Errors of containers.
#[derive(Debug)]
pub enum ContainerError {
    NotFound { id: String },
    CreationFailed { reason: String },
    ExecutionFailed { reason: String },
    Timeout,
    ResourceLimitExceeded,
    SecurityViolation { violation: String },
}

pub open spec fn container_error_text(e: ContainerError) -> Seq<char> {
    match e {
        ContainerError::NotFound { id } => "Container not found: "@ + id@,
        ContainerError::CreationFailed { reason } => "Container creation failed: "@ + reason@,
        ContainerError::ExecutionFailed { reason } => "Container execution failed: "@ + reason@,
        ContainerError::Timeout => "Container timeout"@,
        ContainerError::ResourceLimitExceeded => "Container resource limit exceeded"@,
        ContainerError::SecurityViolation { violation } => "Container security violation: "@ + violation@,
    }
}

impl ContainerError {
    pub fn to_message(&self) -> (s: String)
        ensures
            s@ == container_error_text(*self),
    {
        match self {
            ContainerError::NotFound { id } => concat2("Container not found: ", id.as_str()),
            ContainerError::CreationFailed { reason } => concat2("Container creation failed: ", reason.as_str()),
            ContainerError::ExecutionFailed { reason } => concat2("Container execution failed: ", reason.as_str()),
            ContainerError::Timeout => String::from_str("Container timeout"),
            ContainerError::ResourceLimitExceeded => String::from_str("Container resource limit exceeded"),
            ContainerError::SecurityViolation { violation } => concat2(
                "Container security violation: ",
                violation.as_str(),
            ),
        }
    }

    /// The framework error of a container error.
    pub fn into_edge_error(self) -> (e: EdgeComputeError)
        ensures
            e matches EdgeComputeError::Container { message, container_id, operation }
                && message@ == container_error_text(self) && container_id is None && operation is None,
    {
        EdgeComputeError::Container { message: self.to_message(), container_id: None, operation: None }
    }
}

/// Errors of foreign-function calls.
#[derive(Debug)]
pub enum FfiError {
    FunctionNotFound { function: String },
    ParameterConversion { param: String },
    CppException { message: String },
    MemoryAllocationFailed,
    BridgeInitFailed,
}

pub open spec fn ffi_error_text(e: FfiError) -> Seq<char> {
    match e {
        FfiError::FunctionNotFound { function } => "Function not found: "@ + function@,
        FfiError::ParameterConversion { param } => "Parameter conversion error: "@ + param@,
        FfiError::CppException { message } => "C++ exception: "@ + message@,
        FfiError::MemoryAllocationFailed => "Memory allocation failed"@,
        FfiError::BridgeInitFailed => "Bridge initialization failed"@,
    }
}

impl FfiError {
    pub fn to_message(&self) -> (s: String)
        ensures
            s@ == ffi_error_text(*self),
    {
        match self {
            FfiError::FunctionNotFound { function } => concat2("Function not found: ", function.as_str()),
            FfiError::ParameterConversion { param } => concat2("Parameter conversion error: ", param.as_str()),
            FfiError::CppException { message } => concat2("C++ exception: ", message.as_str()),
            FfiError::MemoryAllocationFailed => String::from_str("Memory allocation failed"),
            FfiError::BridgeInitFailed => String::from_str("Bridge initialization failed"),
        }
    }

    /// The framework error of an FFI error.
    pub fn into_edge_error(self) -> (e: EdgeComputeError)
        ensures
            e matches EdgeComputeError::FfiCall { message, function, language } && message@
                == ffi_error_text(self) && function is None && language is None,
    {
        EdgeComputeError::FfiCall { message: self.to_message(), function: None, language: None }
    }
}

/// Errors of task scheduling.
#[derive(Debug)]
pub enum TaskError {
    QueueFull,
    Cancelled,
    DependencyNotSatisfied { dependency: String },
    InvalidPriority,
    Timeout,
}

pub open spec fn task_error_text(e: TaskError) -> Seq<char> {
    match e {
        TaskError::QueueFull => "Task queue full"@,
        TaskError::Cancelled => "Task cancelled"@,
        TaskError::DependencyNotSatisfied { dependency } => "Task dependency not satisfied: "@
            + dependency@,
        TaskError::InvalidPriority => "Task priority invalid"@,
        TaskError::Timeout => "Task timeout"@,
    }
}

impl TaskError {
    pub fn to_message(&self) -> (s: String)
        ensures
            s@ == task_error_text(*self),
    {
        match self {
            TaskError::QueueFull => String::from_str("Task queue full"),
            TaskError::Cancelled => String::from_str("Task cancelled"),
            TaskError::DependencyNotSatisfied { dependency } => concat2(
                "Task dependency not satisfied: ",
                dependency.as_str(),
            ),
            TaskError::InvalidPriority => String::from_str("Task priority invalid"),
            TaskError::Timeout => String::from_str("Task timeout"),
        }
    }

    /// The framework error of a scheduling error.
    pub fn into_edge_error(self) -> (e: EdgeComputeError)
        ensures
            e matches EdgeComputeError::TaskScheduling { message, task_id, queue_size } && message@
                == task_error_text(self) && task_id is None && queue_size is None,
    {
        EdgeComputeError::TaskScheduling { message: self.to_message(), task_id: None, queue_size: None }
    }
}

/// The framework error of a bare message.
pub fn error_from_message(message: String) -> (e: EdgeComputeError)
    ensures
        e == (EdgeComputeError::Unknown { message, context: None }),
{
    EdgeComputeError::Unknown { message, context: None }
}

} // verus!
