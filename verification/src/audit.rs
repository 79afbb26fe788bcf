//! The audit trail: typed security events, the masking of sensitive fields, the
//! buffer that is written out in batches, and its statistics.
use vstd::prelude::*;
use crate::string_map::{chars_of, StringMap};
use crate::task_spawn::LogLevel;
use crate::time::unix_time_ms;
use crate::text::{concat2, decimal, decimal_string};

verus! {

/// What an audit event is about.
#[derive(Debug, Clone, Copy, PartialEq, Eq, Structural)]
pub enum AuditEventType {
    Authentication,
    Authorization,
    AccessControl,
    DataAccess,
    ConfigurationChange,
    SystemEvent,
    SecurityEvent,
    ErrorEvent,
}

/// How serious an audit event is.
#[derive(Debug, Clone, Copy, PartialEq, Eq, Structural)]
pub enum AuditSeverity {
    Low,
    Medium,
    High,
    Critical,
}

/// How the audited operation ended.
#[derive(Debug, Clone)]
pub enum AuditResult {
    Success,
    Failure(String),
    Denied,
    Warning(String),
}

/// The short name of an event type, as written in log lines.
pub open spec fn event_type_label(t: AuditEventType) -> Seq<char> {
    match t {
        AuditEventType::Authentication => "authentication"@,
        AuditEventType::Authorization => "authorization"@,
        AuditEventType::AccessControl => "access_control"@,
        AuditEventType::DataAccess => "data_access"@,
        AuditEventType::ConfigurationChange => "config_change"@,
        AuditEventType::SystemEvent => "system_event"@,
        AuditEventType::SecurityEvent => "security_event"@,
        AuditEventType::ErrorEvent => "error_event"@,
    }
}

/// The name of an event type, as statistics count it.
pub open spec fn event_type_name(t: AuditEventType) -> Seq<char> {
    match t {
        AuditEventType::Authentication => "Authentication"@,
        AuditEventType::Authorization => "Authorization"@,
        AuditEventType::AccessControl => "AccessControl"@,
        AuditEventType::DataAccess => "DataAccess"@,
        AuditEventType::ConfigurationChange => "ConfigurationChange"@,
        AuditEventType::SystemEvent => "SystemEvent"@,
        AuditEventType::SecurityEvent => "SecurityEvent"@,
        AuditEventType::ErrorEvent => "ErrorEvent"@,
    }
}

/// The name of a severity, as statistics count it.
pub open spec fn severity_name(s: AuditSeverity) -> Seq<char> {
    match s {
        AuditSeverity::Low => "Low"@,
        AuditSeverity::Medium => "Medium"@,
        AuditSeverity::High => "High"@,
        AuditSeverity::Critical => "Critical"@,
    }
}

impl AuditEventType {
    /// The short name of the type.
    pub fn label(&self) -> (s: &'static str)
        ensures
            s@ == event_type_label(*self),
    {
        match self {
            AuditEventType::Authentication => "authentication",
            AuditEventType::Authorization => "authorization",
            AuditEventType::AccessControl => "access_control",
            AuditEventType::DataAccess => "data_access",
            AuditEventType::ConfigurationChange => "config_change",
            AuditEventType::SystemEvent => "system_event",
            AuditEventType::SecurityEvent => "security_event",
            AuditEventType::ErrorEvent => "error_event",
        }
    }

    /// The name of the type.
    pub fn name(&self) -> (s: &'static str)
        ensures
            s@ == event_type_name(*self),
    {
        match self {
            AuditEventType::Authentication => "Authentication",
            AuditEventType::Authorization => "Authorization",
            AuditEventType::AccessControl => "AccessControl",
            AuditEventType::DataAccess => "DataAccess",
            AuditEventType::ConfigurationChange => "ConfigurationChange",
            AuditEventType::SystemEvent => "SystemEvent",
            AuditEventType::SecurityEvent => "SecurityEvent",
            AuditEventType::ErrorEvent => "ErrorEvent",
        }
    }
}

impl AuditSeverity {
    /// The name of the severity.
    pub fn name(&self) -> (s: &'static str)
        ensures
            s@ == severity_name(*self),
    {
        match self {
            AuditSeverity::Low => "Low",
            AuditSeverity::Medium => "Medium",
            AuditSeverity::High => "High",
            AuditSeverity::Critical => "Critical",
        }
    }

    /// The log level of events of this severity.
    pub fn log_level(&self) -> (l: LogLevel)
        ensures
            l == (match *self {
                AuditSeverity::Low => LogLevel::Debug,
                AuditSeverity::Medium => LogLevel::Info,
                AuditSeverity::High => LogLevel::Warn,
                AuditSeverity::Critical => LogLevel::Error,
            }),
    {
        match self {
            AuditSeverity::Low => LogLevel::Debug,
            AuditSeverity::Medium => LogLevel::Info,
            AuditSeverity::High => LogLevel::Warn,
            AuditSeverity::Critical => LogLevel::Error,
        }
    }
}

impl AuditResult {
    /// A copy of this result.
    pub fn duplicate(&self) -> (r: AuditResult)
        ensures
            r == *self,
    {
        match self {
            AuditResult::Success => AuditResult::Success,
            AuditResult::Failure(m) => AuditResult::Failure(m.clone()),
            AuditResult::Denied => AuditResult::Denied,
            AuditResult::Warning(m) => AuditResult::Warning(m.clone()),
        }
    }
}

/// The text of a result in log lines.
pub open spec fn result_text(r: AuditResult) -> Seq<char> {
    match r {
        AuditResult::Success => "SUCCESS"@,
        AuditResult::Failure(m) => "FAILURE: "@ + m@,
        AuditResult::Denied => "DENIED"@,
        AuditResult::Warning(m) => "WARNING: "@ + m@,
    }
}

/// Settings of the audit trail.
#[derive(Debug, Clone)]
pub struct AuditConfig {
    pub enabled: bool,
    pub log_file_path: Option<String>,
    pub max_file_size_mb: u64,
    pub max_backup_files: usize,
    pub log_success_events: bool,
    pub log_failure_events: bool,
    pub log_warning_events: bool,
    /// Keys whose values are masked in event details and metadata.
    pub sensitive_fields: Vec<String>,
}

/// The default audit settings: enabled, written to logs/audit.log (100 MB, ten
/// backups), every outcome logged, masking password, token, secret, key and
/// authorization.
pub open spec fn is_default_audit_config(c: AuditConfig) -> bool {
    &&& c.enabled
    &&& c.log_file_path matches Some(p) && p@ == "logs/audit.log"@
    &&& c.max_file_size_mb == 100
    &&& c.max_backup_files == 10
    &&& c.log_success_events
    &&& c.log_failure_events
    &&& c.log_warning_events
    &&& chars_of(c.sensitive_fields@) == seq!["password"@, "token"@, "secret"@, "key"@, "authorization"@]
}

impl AuditConfig {
    /// Enabled, written to logs/audit.log (100 MB, ten backups), every outcome
    /// logged, masking password, token, secret, key and authorization.
    pub fn default() -> (c: AuditConfig)
        ensures
            is_default_audit_config(c),
    {
        let mut fields: Vec<String> = Vec::new();
        fields.push(String::from_str("password"));
        fields.push(String::from_str("token"));
        fields.push(String::from_str("secret"));
        fields.push(String::from_str("key"));
        fields.push(String::from_str("authorization"));
        let c = AuditConfig {
            enabled: true,
            log_file_path: Some(String::from_str("logs/audit.log")),
            max_file_size_mb: 100,
            max_backup_files: 10,
            log_success_events: true,
            log_failure_events: true,
            log_warning_events: true,
            sensitive_fields: fields,
        };
        assert(chars_of(c.sensitive_fields@) =~= seq!["password"@, "token"@, "secret"@, "key"@, "authorization"@]);
        c
    }
}

/// An audit record.
#[derive(Debug)]
pub struct AuditEvent {
    pub id: String,
    pub event_type: AuditEventType,
    pub severity: AuditSeverity,
    /// Milliseconds since the epoch.
    pub timestamp_ms: i64,
    pub user_id: Option<String>,
    pub session_id: Option<String>,
    pub client_ip: Option<String>,
    pub user_agent: Option<String>,
    pub action: String,
    pub resource: String,
    pub result: AuditResult,
    pub details: StringMap<String>,
    pub metadata: StringMap<String>,
}

impl AuditEvent {
    pub open spec fn wf(&self) -> bool {
        self.details.wf() && self.metadata.wf()
    }
}

/// The value masked fields get.
pub open spec fn masked() -> Seq<char> {
    "***FILTERED***"@
}

/// `after` is `before` with the values of the keys in `fields` masked.
pub open spec fn masks(before: Map<Seq<char>, String>, after: Map<Seq<char>, String>, fields: Seq<Seq<char>>) -> bool {
    &&& after.dom() == before.dom()
    &&& forall|k: Seq<char>| #[trigger]
        before.contains_key(k) ==> if fields.contains(k) {
            after[k]@ == masked()
        } else {
            after[k] == before[k]
        }
}

/// Masks, in `m`, the values of the keys in `fields`.
pub fn mask_fields(m: &mut StringMap<String>, fields: &Vec<String>)
    requires
        old(m).wf(),
    ensures
        final(m).wf(),
        masks(old(m)@, final(m)@, chars_of(fields@)),
{
    let ghost before = m@;
    let mut i: usize = 0;
    while i < fields.len()
        invariant
            m.wf(),
            i <= fields@.len(),
            masks(before, m@, chars_of(fields@).take(i as int)),
        decreases fields@.len() - i,
    {
        let ghost prev = m@;
        if m.contains_key(fields[i].as_str()) {
            m.insert(fields[i].clone(), String::from_str("***FILTERED***"));
        }
        proof {
            let fs = chars_of(fields@);
            assert(fs[i as int] == fields@[i as int]@);
            let fi = fs.take(i + 1);
            let f0 = fs.take(i as int);
            assert forall|k: Seq<char>| #[trigger] before.contains_key(k) implies (if fi.contains(k) {
                m@[k]@ == masked()
            } else {
                m@[k] == before[k]
            }) by {
                if fi.contains(k) {
                    let j = choose|j: int| 0 <= j < fi.len() && #[trigger] fi[j] == k;
                    if j < i {
                        assert(f0[j] == k);
                    }
                } else {
                    assert(!f0.contains(k)) by {
                        if f0.contains(k) {
                            let j = choose|j: int| 0 <= j < f0.len() && #[trigger] f0[j] == k;
                            assert(fi[j] == k);
                        }
                    }
                    assert(k != fs[i as int]) by {
                        assert(fi[i as int] == fs[i as int]);
                    }
                }
            }
            assert(m@.dom() =~= before.dom());
        }
        i += 1;
    }
    assert(chars_of(fields@).take(fields@.len() as int) =~= chars_of(fields@));
}

/// Whether `after` is `before` with its details and metadata masked.
pub open spec fn masked_event(before: AuditEvent, after: AuditEvent, fields: Seq<Seq<char>>) -> bool {
    &&& after.id == before.id
    &&& after.event_type == before.event_type
    &&& after.severity == before.severity
    &&& after.timestamp_ms == before.timestamp_ms
    &&& after.user_id == before.user_id
    &&& after.session_id == before.session_id
    &&& after.client_ip == before.client_ip
    &&& after.user_agent == before.user_agent
    &&& after.action == before.action
    &&& after.resource == before.resource
    &&& after.result == before.result
    &&& masks(before.details@, after.details@, fields)
    &&& masks(before.metadata@, after.metadata@, fields)
}


/// The text of an optional string.
pub open spec fn opt_view(o: Option<String>) -> Option<Seq<char>> {
    match o {
        Some(s) => Some(s@),
        None => None,
    }
}

/// The text of an optional string slice.
pub open spec fn opt_str_view(o: Option<&str>) -> Option<Seq<char>> {
    match o {
        Some(s) => Some(s@),
        None => None,
    }
}

/// The value of `key` in a detail map, as text.
pub open spec fn detail(m: Map<Seq<char>, String>, key: Seq<char>) -> Option<Seq<char>> {
    if m.contains_key(key) {
        Some(m[key]@)
    } else {
        None
    }
}

fn text_of(o: Option<&str>) -> (r: Option<String>)
    ensures
        opt_view(r) == opt_str_view(o),
{
    match o {
        Some(s) => Some(String::from_str(s)),
        None => None,
    }
}

fn detail_of(m: &StringMap<String>, key: &str) -> (r: Option<String>)
    requires
        m.wf(),
    ensures
        opt_view(r) == detail(m@, key@),
{
    match m.get(key) {
        Some(v) => Some(v.clone()),
        None => None,
    }
}

/// Severity of an authentication outcome: refusals and failures are high.
pub open spec fn authentication_severity(r: AuditResult) -> AuditSeverity {
    match r {
        AuditResult::Success => AuditSeverity::Low,
        AuditResult::Failure(_) => AuditSeverity::High,
        AuditResult::Denied => AuditSeverity::High,
        AuditResult::Warning(_) => AuditSeverity::Medium,
    }
}

/// Severity of an authorization outcome: failures are high, refusals medium.
pub open spec fn authorization_severity(r: AuditResult) -> AuditSeverity {
    match r {
        AuditResult::Success => AuditSeverity::Low,
        AuditResult::Failure(_) => AuditSeverity::High,
        AuditResult::Denied => AuditSeverity::Medium,
        AuditResult::Warning(_) => AuditSeverity::Medium,
    }
}

/// What recording `event` does: when auditing is on, its sensitive fields are
/// masked, it joins the buffer, a full buffer is emptied (its events to be written
/// when a log file is configured), and the masked event's log line is returned;
/// when auditing is off, nothing.
pub open spec fn logging_effect(before: AuditLogger, after: AuditLogger, event: AuditEvent, r: AuditOutcome) -> bool {
    &&& after.configuration() == before.configuration()
    &&& !before.configuration().enabled ==> after.buffered() == before.buffered() && r.to_write@.len() == 0
        && r.line is None
    &&& before.configuration().enabled ==> exists|m: AuditEvent|
        #![trigger masked_event(event, m, chars_of(before.configuration().sensitive_fields@))]
        {
            &&& masked_event(event, m, chars_of(before.configuration().sensitive_fields@))
            &&& r.line matches Some(l) && l.summary@ == event_summary(m)
            &&& if before.buffered().len() + 1 >= AUDIT_BUFFER_LIMIT {
                &&& after.buffered().len() == 0
                &&& before.configuration().log_file_path is Some ==> r.to_write@ == before.buffered().push(m)
                &&& before.configuration().log_file_path is None ==> r.to_write@.len() == 0
            } else {
                &&& after.buffered() == before.buffered().push(m)
                &&& r.to_write@.len() == 0
            }
        }
}

/// An authentication event of this user with this result and these details.
pub open spec fn is_authentication_event(
    e: AuditEvent,
    user_id: Option<Seq<char>>,
    result: AuditResult,
    details: Map<Seq<char>, String>,
) -> bool {
    &&& e.wf()
    &&& e.event_type == AuditEventType::Authentication
    &&& e.severity == authentication_severity(result)
    &&& opt_view(e.user_id) == user_id
    &&& opt_view(e.session_id) == detail(details, "session_id"@)
    &&& opt_view(e.client_ip) == detail(details, "client_ip"@)
    &&& opt_view(e.user_agent) == detail(details, "user_agent"@)
    &&& e.action@ == "authentication"@
    &&& e.resource@ == "auth"@
    &&& e.result == result
    &&& e.details@ == details
    &&& e.metadata@ == Map::<Seq<char>, String>::empty()
}

/// A failed or refused authentication is a high-severity event; only a
/// successful one is low.
pub proof fn lemma_failed_authentication_is_high(
    e: AuditEvent,
    user_id: Option<Seq<char>>,
    result: AuditResult,
    details: Map<Seq<char>, String>,
)
    requires
        is_authentication_event(e, user_id, result, details),
    ensures
        result is Failure ==> e.severity == AuditSeverity::High,
        result is Denied ==> e.severity == AuditSeverity::High,
        result is Success ==> e.severity == AuditSeverity::Low,
        e.severity == AuditSeverity::Low ==> result is Success,
{
}

/// What the logger keeps of an authentication attempt has the severity of its
/// outcome: after logging a failed or refused attempt with auditing on, the
/// buffered event (or, when the buffer was full and a log file is configured,
/// the last event to be written) is of high severity; a successful one is low.
pub proof fn lemma_logged_authentication_severity(
    before: AuditLogger,
    after: AuditLogger,
    e: AuditEvent,
    user_id: Option<Seq<char>>,
    result: AuditResult,
    details: Map<Seq<char>, String>,
    r: AuditOutcome,
)
    requires
        before.configuration().enabled,
        is_authentication_event(e, user_id, result, details),
        logging_effect(before, after, e, r),
    ensures
        before.buffered().len() + 1 < AUDIT_BUFFER_LIMIT ==> after.buffered().len() == before.buffered().len() + 1
            && (result is Failure || result is Denied ==> after.buffered().last().severity == AuditSeverity::High)
            && (result is Success ==> after.buffered().last().severity == AuditSeverity::Low),
        before.buffered().len() + 1 >= AUDIT_BUFFER_LIMIT && before.configuration().log_file_path is Some
            ==> r.to_write@.len() == before.buffered().len() + 1 && (result is Failure || result is Denied
            ==> r.to_write@.last().severity == AuditSeverity::High) && (result is Success
            ==> r.to_write@.last().severity == AuditSeverity::Low),
{
    let m = choose|m: AuditEvent|
        #![trigger masked_event(e, m, chars_of(before.configuration().sensitive_fields@))]
        {
            &&& masked_event(e, m, chars_of(before.configuration().sensitive_fields@))
            &&& r.line matches Some(l) && l.summary@ == event_summary(m)
            &&& if before.buffered().len() + 1 >= AUDIT_BUFFER_LIMIT {
                &&& after.buffered().len() == 0
                &&& before.configuration().log_file_path is Some ==> r.to_write@ == before.buffered().push(m)
                &&& before.configuration().log_file_path is None ==> r.to_write@.len() == 0
            } else {
                &&& after.buffered() == before.buffered().push(m)
                &&& r.to_write@.len() == 0
            }
        };
    assert(m.severity == e.severity);
}

/// An authorization event of this user, resource, action and result.
pub open spec fn is_authorization_event(
    e: AuditEvent,
    user_id: Seq<char>,
    resource: Seq<char>,
    action: Seq<char>,
    result: AuditResult,
) -> bool {
    &&& e.wf()
    &&& e.event_type == AuditEventType::Authorization
    &&& e.severity == authorization_severity(result)
    &&& opt_view(e.user_id) == Some(user_id)
    &&& e.session_id is None && e.client_ip is None && e.user_agent is None
    &&& e.action@ == action
    &&& e.resource@ == resource
    &&& e.result == result
    &&& e.details@ == Map::<Seq<char>, String>::empty()
    &&& e.metadata@ == Map::<Seq<char>, String>::empty()
}

/// The event of an API call by this user and client, answered with `status_code`.
pub open spec fn is_api_access_event(
    e: AuditEvent,
    user_id: Option<Seq<char>>,
    method: Seq<char>,
    path: Seq<char>,
    status_code: u16,
    client_ip: Option<Seq<char>>,
) -> bool {
    &&& e.wf()
    &&& e.event_type == AuditEventType::AccessControl
    &&& e.severity == (if status_code >= 400 { AuditSeverity::Medium } else { AuditSeverity::Low })
    &&& opt_view(e.user_id) == user_id
    &&& opt_view(e.client_ip) == client_ip
    &&& e.session_id is None && e.user_agent is None
    &&& e.action@ == method
    &&& e.resource@ == path
    &&& is_status_result(e.result, status_code)
    &&& e.details@ == Map::<Seq<char>, String>::empty()
    &&& e.metadata@ == Map::<Seq<char>, String>::empty()
}

/// The event of a change of `config_key` by this user between these values.
pub open spec fn is_config_change_event(
    e: AuditEvent,
    user_id: Seq<char>,
    config_key: Seq<char>,
    old_value: Option<Seq<char>>,
    new_value: Option<Seq<char>>,
) -> bool {
    &&& e.wf()
    &&& e.event_type == AuditEventType::ConfigurationChange
    &&& e.severity == AuditSeverity::Medium
    &&& opt_view(e.user_id) == Some(user_id)
    &&& e.session_id is None && e.client_ip is None && e.user_agent is None
    &&& e.action@ == "config_change"@
    &&& e.resource@ == config_key
    &&& e.result is Success
    &&& detail(e.details@, "old_value"@) == old_value
    &&& detail(e.details@, "new_value"@) == new_value
    &&& e.details@.dom().subset_of(set!["old_value"@, "new_value"@])
    &&& e.metadata@ == Map::<Seq<char>, String>::empty()
}

/// The event of a security incident of this kind and severity with these details.
pub open spec fn is_security_event(
    e: AuditEvent,
    event_type: Seq<char>,
    severity: AuditSeverity,
    details: Map<Seq<char>, String>,
) -> bool {
    &&& e.wf()
    &&& e.event_type == AuditEventType::SecurityEvent
    &&& e.severity == severity
    &&& opt_view(e.user_id) == detail(details, "user_id"@)
    &&& opt_view(e.session_id) == detail(details, "session_id"@)
    &&& opt_view(e.client_ip) == detail(details, "client_ip"@)
    &&& opt_view(e.user_agent) == detail(details, "user_agent"@)
    &&& e.action@ == event_type
    &&& e.resource@ == (match detail(details, "resource"@) {
        Some(r) => r,
        None => "unknown"@,
    })
    &&& e.result is Success
    &&& e.details@ == details
    &&& e.metadata@ == Map::<Seq<char>, String>::empty()
}

/// The event of an authentication attempt; session, client address and user
/// agent come from the details.
pub fn authentication_event(
    id: String,
    now_ms: i64,
    user_id: Option<&str>,
    result: &AuditResult,
    details: StringMap<String>,
) -> (e: AuditEvent)
    requires
        details.wf(),
    ensures
        e.wf(),
        e.id == id,
        e.event_type == AuditEventType::Authentication,
        e.severity == authentication_severity(*result),
        e.timestamp_ms == now_ms,
        opt_view(e.user_id) == opt_str_view(user_id),
        opt_view(e.session_id) == detail(details@, "session_id"@),
        opt_view(e.client_ip) == detail(details@, "client_ip"@),
        opt_view(e.user_agent) == detail(details@, "user_agent"@),
        e.action@ == "authentication"@,
        e.resource@ == "auth"@,
        e.result == *result,
        e.details@ == details@,
        e.metadata@ == Map::<Seq<char>, String>::empty(),
{
    let severity = match result {
        AuditResult::Success => AuditSeverity::Low,
        AuditResult::Failure(_) => AuditSeverity::High,
        AuditResult::Denied => AuditSeverity::High,
        AuditResult::Warning(_) => AuditSeverity::Medium,
    };
    AuditEvent {
        id,
        event_type: AuditEventType::Authentication,
        severity,
        timestamp_ms: now_ms,
        user_id: text_of(user_id),
        session_id: detail_of(&details, "session_id"),
        client_ip: detail_of(&details, "client_ip"),
        user_agent: detail_of(&details, "user_agent"),
        action: String::from_str("authentication"),
        resource: String::from_str("auth"),
        result: result.duplicate(),
        details,
        metadata: StringMap::new(),
    }
}

/// The event of an authorization decision.
pub fn authorization_event(
    id: String,
    now_ms: i64,
    user_id: &str,
    resource: &str,
    action: &str,
    result: &AuditResult,
) -> (e: AuditEvent)
    ensures
        e.wf(),
        e.id == id,
        e.event_type == AuditEventType::Authorization,
        e.severity == authorization_severity(*result),
        e.timestamp_ms == now_ms,
        opt_view(e.user_id) == Some(user_id@),
        e.session_id is None && e.client_ip is None && e.user_agent is None,
        e.action@ == action@,
        e.resource@ == resource@,
        e.result == *result,
        e.details@ == Map::<Seq<char>, String>::empty(),
        e.metadata@ == Map::<Seq<char>, String>::empty(),
{
    let severity = match result {
        AuditResult::Success => AuditSeverity::Low,
        AuditResult::Failure(_) => AuditSeverity::High,
        AuditResult::Denied => AuditSeverity::Medium,
        AuditResult::Warning(_) => AuditSeverity::Medium,
    };
    AuditEvent {
        id,
        event_type: AuditEventType::Authorization,
        severity,
        timestamp_ms: now_ms,
        user_id: Some(String::from_str(user_id)),
        session_id: None,
        client_ip: None,
        user_agent: None,
        action: String::from_str(action),
        resource: String::from_str(resource),
        result: result.duplicate(),
        details: StringMap::new(),
        metadata: StringMap::new(),
    }
}

/// Whether `r` is the outcome an HTTP status stands for: success for 2xx, a
/// client or server failure for 4xx and 5xx, a warning otherwise.
pub open spec fn is_status_result(r: AuditResult, status: u16) -> bool {
    if 200 <= status && status < 300 {
        r is Success
    } else if 400 <= status && status < 500 {
        r matches AuditResult::Failure(m) && m@ == "Client error: "@ + decimal(status as nat)
    } else if status >= 500 {
        r matches AuditResult::Failure(m) && m@ == "Server error: "@ + decimal(status as nat)
    } else {
        r matches AuditResult::Warning(m) && m@ == "Unexpected status: "@ + decimal(status as nat)
    }
}

/// The event of an API call answered with `status_code`.
pub fn api_access_event(
    id: String,
    now_ms: i64,
    user_id: Option<&str>,
    method: &str,
    path: &str,
    status_code: u16,
    client_ip: Option<&str>,
) -> (e: AuditEvent)
    ensures
        e.wf(),
        e.id == id,
        e.event_type == AuditEventType::AccessControl,
        e.severity == (if status_code >= 400 { AuditSeverity::Medium } else { AuditSeverity::Low }),
        e.timestamp_ms == now_ms,
        opt_view(e.user_id) == opt_str_view(user_id),
        opt_view(e.client_ip) == opt_str_view(client_ip),
        e.session_id is None && e.user_agent is None,
        e.action@ == method@,
        e.resource@ == path@,
        is_status_result(e.result, status_code),
        e.details@ == Map::<Seq<char>, String>::empty(),
        e.metadata@ == Map::<Seq<char>, String>::empty(),
{
    let severity = if status_code >= 400 { AuditSeverity::Medium } else { AuditSeverity::Low };
    let code = decimal_string(status_code as u64);
    let result = if status_code >= 200 && status_code < 300 {
        AuditResult::Success
    } else if status_code >= 400 && status_code < 500 {
        AuditResult::Failure(concat2("Client error: ", code.as_str()))
    } else if status_code >= 500 {
        AuditResult::Failure(concat2("Server error: ", code.as_str()))
    } else {
        AuditResult::Warning(concat2("Unexpected status: ", code.as_str()))
    };
    AuditEvent {
        id,
        event_type: AuditEventType::AccessControl,
        severity,
        timestamp_ms: now_ms,
        user_id: text_of(user_id),
        session_id: None,
        client_ip: text_of(client_ip),
        user_agent: None,
        action: String::from_str(method),
        resource: String::from_str(path),
        result,
        details: StringMap::new(),
        metadata: StringMap::new(),
    }
}

/// The event of a configuration change; the old and new values, when given, are
/// the details.
pub fn config_change_event(
    id: String,
    now_ms: i64,
    user_id: &str,
    config_key: &str,
    old_value: Option<&str>,
    new_value: Option<&str>,
) -> (e: AuditEvent)
    ensures
        e.wf(),
        e.id == id,
        e.event_type == AuditEventType::ConfigurationChange,
        e.severity == AuditSeverity::Medium,
        e.timestamp_ms == now_ms,
        opt_view(e.user_id) == Some(user_id@),
        e.session_id is None && e.client_ip is None && e.user_agent is None,
        e.action@ == "config_change"@,
        e.resource@ == config_key@,
        e.result is Success,
        detail(e.details@, "old_value"@) == opt_str_view(old_value),
        detail(e.details@, "new_value"@) == opt_str_view(new_value),
        e.details@.dom().subset_of(set!["old_value"@, "new_value"@]),
        e.metadata@ == Map::<Seq<char>, String>::empty(),
{
    let mut details: StringMap<String> = StringMap::new();
    if let Some(old) = old_value {
        details.insert(String::from_str("old_value"), String::from_str(old));
    }
    if let Some(new) = new_value {
        details.insert(String::from_str("new_value"), String::from_str(new));
    }
    proof {
        reveal_strlit("old_value");
        reveal_strlit("new_value");
        assert("old_value"@[0] == 'o' && "new_value"@[0] == 'n');
    }
    AuditEvent {
        id,
        event_type: AuditEventType::ConfigurationChange,
        severity: AuditSeverity::Medium,
        timestamp_ms: now_ms,
        user_id: Some(String::from_str(user_id)),
        session_id: None,
        client_ip: None,
        user_agent: None,
        action: String::from_str("config_change"),
        resource: String::from_str(config_key),
        result: AuditResult::Success,
        details,
        metadata: StringMap::new(),
    }
}

/// The event of a security incident; user, session, client address, user agent
/// and resource (else "unknown") come from the details.
pub fn security_event(
    id: String,
    now_ms: i64,
    event_type: &str,
    severity: AuditSeverity,
    details: StringMap<String>,
) -> (e: AuditEvent)
    requires
        details.wf(),
    ensures
        e.wf(),
        e.id == id,
        e.event_type == AuditEventType::SecurityEvent,
        e.severity == severity,
        e.timestamp_ms == now_ms,
        opt_view(e.user_id) == detail(details@, "user_id"@),
        opt_view(e.session_id) == detail(details@, "session_id"@),
        opt_view(e.client_ip) == detail(details@, "client_ip"@),
        opt_view(e.user_agent) == detail(details@, "user_agent"@),
        e.action@ == event_type@,
        e.resource@ == (match detail(details@, "resource"@) {
            Some(r) => r,
            None => "unknown"@,
        }),
        e.result is Success,
        e.details@ == details@,
        e.metadata@ == Map::<Seq<char>, String>::empty(),
{
    let resource = match detail_of(&details, "resource") {
        Some(r) => r,
        None => String::from_str("unknown"),
    };
    AuditEvent {
        id,
        event_type: AuditEventType::SecurityEvent,
        severity,
        timestamp_ms: now_ms,
        user_id: detail_of(&details, "user_id"),
        session_id: detail_of(&details, "session_id"),
        client_ip: detail_of(&details, "client_ip"),
        user_agent: detail_of(&details, "user_agent"),
        action: String::from_str(event_type),
        resource,
        result: AuditResult::Success,
        details,
        metadata: StringMap::new(),
    }
}


/// Events buffered before they are written out.
pub const AUDIT_BUFFER_LIMIT: usize = 100;

/// A log line about an event: its level, its summary, and the (masked) details
/// that follow the summary.
#[derive(Debug)]
pub struct AuditLogLine {
    pub level: LogLevel,
    pub summary: String,
    pub details: Vec<(String, String)>,
}

/// The summary of an event in log lines: type, user (or "anonymous"), action,
/// resource and outcome.
pub open spec fn event_summary(e: AuditEvent) -> Seq<char> {
    "AUDIT ["@ + event_type_label(e.event_type) + "] "@ + (match e.user_id {
        Some(u) => u@,
        None => "anonymous"@,
    }) + " "@ + e.action@ + " "@ + e.resource@ + " "@ + result_text(e.result) + " - "@
}

/// The log line of an event.
pub fn event_log_line(e: &AuditEvent) -> (l: AuditLogLine)
    requires
        e.wf(),
    ensures
        l.level == (match e.severity {
            AuditSeverity::Low => LogLevel::Debug,
            AuditSeverity::Medium => LogLevel::Info,
            AuditSeverity::High => LogLevel::Warn,
            AuditSeverity::Critical => LogLevel::Error,
        }),
        l.summary@ == event_summary(*e),
        l.details@.len() == e.details.key_seq().len(),
        forall|i: int|
            0 <= i < l.details@.len() ==> (#[trigger] l.details@[i]).0@ == e.details.key_seq()[i]
                && l.details@[i].1 == e.details@[e.details.key_seq()[i]],
{
    let mut s = String::from_str("AUDIT [");
    s.append(e.event_type.label());
    s.append("] ");
    match &e.user_id {
        Some(u) => s.append(u.as_str()),
        None => s.append("anonymous"),
    }
    s.append(" ");
    s.append(e.action.as_str());
    s.append(" ");
    s.append(e.resource.as_str());
    s.append(" ");
    match &e.result {
        AuditResult::Success => s.append("SUCCESS"),
        AuditResult::Failure(m) => {
            s.append("FAILURE: ");
            s.append(m.as_str());
        },
        AuditResult::Denied => s.append("DENIED"),
        AuditResult::Warning(m) => {
            s.append("WARNING: ");
            s.append(m.as_str());
        },
    }
    s.append(" - ");
    AuditLogLine { level: e.severity.log_level(), summary: s, details: e.details.entries() }
}

/// What logging an event produced: the events to append to the log file (a full
/// buffer, when a file is configured) and the log line.
#[derive(Debug)]
pub struct AuditOutcome {
    pub to_write: Vec<AuditEvent>,
    pub line: Option<AuditLogLine>,
}

/// The buffered audit trail.
pub struct AuditLogger {
    config: AuditConfig,
    events: Vec<AuditEvent>,
}

impl AuditLogger {
    pub closed spec fn wf(&self) -> bool {
        &&& self.events@.len() < AUDIT_BUFFER_LIMIT
        &&& forall|i: int| 0 <= i < self.events@.len() ==> (#[trigger] self.events@[i]).wf()
    }

    pub closed spec fn configuration(&self) -> AuditConfig {
        self.config
    }

    /// The buffered events, oldest first.
    pub closed spec fn buffered(&self) -> Seq<AuditEvent> {
        self.events@
    }

    pub fn new(config: AuditConfig) -> (l: AuditLogger)
        ensures
            l.wf(),
            l.configuration() == config,
            l.buffered().len() == 0,
    {
        AuditLogger { config, events: Vec::new() }
    }

    /// Records an event: when auditing is on, its sensitive fields are masked, it
    /// joins the buffer, and a buffer of 100 events is emptied (to be written when
    /// a log file is configured); the masked event's log line is returned.
    pub fn log_event(&mut self, event: AuditEvent) -> (r: AuditOutcome)
        requires
            old(self).wf(),
            event.wf(),
        ensures
            final(self).wf(),
            logging_effect(*old(self), *final(self), event, r),
    {
        if !self.config.enabled {
            return AuditOutcome { to_write: Vec::new(), line: None };
        }
        let ghost original = event;
        let mut event = event;
        mask_fields(&mut event.details, &self.config.sensitive_fields);
        mask_fields(&mut event.metadata, &self.config.sensitive_fields);
        let line = event_log_line(&event);
        let ghost m = event;
        self.events.push(event);
        let mut to_write: Vec<AuditEvent> = Vec::new();
        if self.events.len() >= AUDIT_BUFFER_LIMIT {
            let mut drained: Vec<AuditEvent> = Vec::new();
            std::mem::swap(&mut drained, &mut self.events);
            if self.config.log_file_path.is_some() {
                to_write = drained;
            }
        }
        assert(masked_event(original, m, chars_of(self.config.sensitive_fields@)));
        AuditOutcome { to_write, line: Some(line) }
    }

    /// Empties the buffer; its events are returned for writing when a log file is
    /// configured.
    pub fn flush_events(&mut self) -> (to_write: Vec<AuditEvent>)
        requires
            old(self).wf(),
        ensures
            final(self).wf(),
            final(self).configuration() == old(self).configuration(),
            final(self).buffered().len() == 0,
            old(self).configuration().log_file_path is Some ==> to_write@ == old(self).buffered(),
            old(self).configuration().log_file_path is None ==> to_write@.len() == 0,
    {
        let mut drained: Vec<AuditEvent> = Vec::new();
        std::mem::swap(&mut drained, &mut self.events);
        if self.config.log_file_path.is_some() {
            drained
        } else {
            Vec::new()
        }
    }
}

/// The line that stands for an event that could not be written as JSON.
pub fn serialization_failure_line(id: &str) -> (s: String)
    ensures
        s@ == "{\"error\": \"serialization_failed\", \"id\": \""@ + id@ + "\"}"@,
{
    let mut s = String::from_str("{\"error\": \"serialization_failed\", \"id\": \"");
    s.append(id);
    s.append("\"}");
    s
}

/// Lines joined with newlines between them.
pub open spec fn joined_lines(lines: Seq<Seq<char>>) -> Seq<char>
    decreases lines.len(),
{
    if lines.len() == 0 {
        Seq::empty()
    } else if lines.len() == 1 {
        lines[0]
    } else {
        joined_lines(lines.drop_last()) + "\n"@ + lines.last()
    }
}

/// What is appended to the log file for some lines: the lines joined with
/// newlines, and a final newline.
pub fn file_content(lines: &Vec<String>) -> (s: String)
    ensures
        s@ == joined_lines(chars_of(lines@)) + "\n"@,
{
    let mut s = String::new();
    let mut i: usize = 0;
    while i < lines.len()
        invariant
            i <= lines@.len(),
            s@ == joined_lines(chars_of(lines@).take(i as int)),
        decreases lines@.len() - i,
    {
        proof {
            let c = chars_of(lines@);
            assert(c.take(i + 1).drop_last() =~= c.take(i as int));
            assert(c.take(i + 1).last() == lines@[i as int]@);
            if i == 0 {
                assert(c.take(1) =~= seq![lines@[0]@]);
            }
        }
        if i > 0 {
            s.append("\n");
        }
        s.append(lines[i].as_str());
        i += 1;
    }
    assert(chars_of(lines@).take(lines@.len() as int) =~= chars_of(lines@));
    s.append("\n");
    s
}


/// Whether `a` is a copy of `b`.
pub open spec fn same_event(a: AuditEvent, b: AuditEvent) -> bool {
    &&& a.id == b.id
    &&& a.event_type == b.event_type
    &&& a.severity == b.severity
    &&& a.timestamp_ms == b.timestamp_ms
    &&& a.user_id == b.user_id
    &&& a.session_id == b.session_id
    &&& a.client_ip == b.client_ip
    &&& a.user_agent == b.user_agent
    &&& a.action == b.action
    &&& a.resource == b.resource
    &&& a.result == b.result
    &&& a.details@ == b.details@
    &&& a.metadata@ == b.metadata@
}

fn copy_text(o: &Option<String>) -> (r: Option<String>)
    ensures
        r == *o,
{
    match o {
        Some(s) => Some(s.clone()),
        None => None,
    }
}

impl AuditEvent {
    /// A copy of this event.
    pub fn duplicate(&self) -> (r: AuditEvent)
        requires
            self.wf(),
        ensures
            r.wf(),
            same_event(r, *self),
    {
        AuditEvent {
            id: self.id.clone(),
            event_type: self.event_type,
            severity: self.severity,
            timestamp_ms: self.timestamp_ms,
            user_id: copy_text(&self.user_id),
            session_id: copy_text(&self.session_id),
            client_ip: copy_text(&self.client_ip),
            user_agent: copy_text(&self.user_agent),
            action: self.action.clone(),
            resource: self.resource.clone(),
            result: self.result.duplicate(),
            details: self.details.duplicate(),
            metadata: self.metadata.duplicate(),
        }
    }
}

/// Number of events of the type with this name.
pub open spec fn type_count(events: Seq<AuditEvent>, name: Seq<char>) -> nat
    decreases events.len(),
{
    if events.len() == 0 {
        0
    } else {
        type_count(events.drop_last(), name) + (if event_type_name(events.last().event_type) == name {
            1nat
        } else {
            0
        })
    }
}

/// Number of events of the severity with this name.
pub open spec fn severity_count(events: Seq<AuditEvent>, name: Seq<char>) -> nat
    decreases events.len(),
{
    if events.len() == 0 {
        0
    } else {
        severity_count(events.drop_last(), name) + (if severity_name(events.last().severity) == name {
            1nat
        } else {
            0
        })
    }
}

proof fn lemma_counts_bounded(events: Seq<AuditEvent>, name: Seq<char>)
    ensures
        type_count(events, name) <= events.len(),
        severity_count(events, name) <= events.len(),
    decreases events.len(),
{
    if events.len() > 0 {
        lemma_counts_bounded(events.drop_last(), name);
    }
}

/// Statistics of the buffered events.
#[derive(Debug)]
pub struct AuditStats {
    pub total_events: usize,
    /// Events per type name.
    pub type_counts: StringMap<usize>,
    /// Events per severity name.
    pub severity_counts: StringMap<usize>,
    /// The ten most recent events, newest first.
    pub recent_events: Vec<AuditEvent>,
}

impl AuditLogger {
    /// Records an authentication attempt, now, under a fresh id.
    pub fn log_authentication(&mut self, user_id: Option<&str>, result: &AuditResult, details: StringMap<
        String,
    >) -> (r: AuditOutcome)
        requires
            old(self).wf(),
            details.wf(),
        ensures
            final(self).wf(),
            final(self).configuration() == old(self).configuration(),
            exists|e: AuditEvent|
                #![trigger is_authentication_event(e, opt_str_view(user_id), *result, details@)]
                is_authentication_event(e, opt_str_view(user_id), *result, details@) && logging_effect(
                    *old(self),
                    *final(self),
                    e,
                    r,
                ),
    {
        let ghost d = details@;
        let e = authentication_event(crate::error::new_record_id(), unix_time_ms(), user_id, result, details);
        let ghost ev = e;
        let r = self.log_event(e);
        assert(is_authentication_event(ev, opt_str_view(user_id), *result, d));
        r
    }

    /// Records an authorization decision, now, under a fresh id.
    pub fn log_authorization(&mut self, user_id: &str, resource: &str, action: &str, result: &AuditResult) -> (r:
        AuditOutcome)
        requires
            old(self).wf(),
        ensures
            final(self).wf(),
            final(self).configuration() == old(self).configuration(),
            exists|e: AuditEvent|
                #![trigger is_authorization_event(e, user_id@, resource@, action@, *result)]
                is_authorization_event(e, user_id@, resource@, action@, *result) && logging_effect(
                    *old(self),
                    *final(self),
                    e,
                    r,
                ),
    {
        let e = authorization_event(crate::error::new_record_id(), unix_time_ms(), user_id, resource, action, result);
        let ghost ev = e;
        let r = self.log_event(e);
        assert(is_authorization_event(ev, user_id@, resource@, action@, *result));
        r
    }

    /// Records an API call, now, under a fresh id.
    pub fn log_api_access(
        &mut self,
        user_id: Option<&str>,
        method: &str,
        path: &str,
        status_code: u16,
        client_ip: Option<&str>,
    ) -> (r: AuditOutcome)
        requires
            old(self).wf(),
        ensures
            final(self).wf(),
            final(self).configuration() == old(self).configuration(),
            exists|e: AuditEvent|
                #![trigger is_api_access_event(e, opt_str_view(user_id), method@, path@, status_code, opt_str_view(client_ip))]
                is_api_access_event(e, opt_str_view(user_id), method@, path@, status_code, opt_str_view(client_ip))
                    && logging_effect(*old(self), *final(self), e, r),
    {
        let e = api_access_event(
            crate::error::new_record_id(),
            unix_time_ms(),
            user_id,
            method,
            path,
            status_code,
            client_ip,
        );
        let ghost ev = e;
        let r = self.log_event(e);
        assert(is_api_access_event(ev, opt_str_view(user_id), method@, path@, status_code, opt_str_view(client_ip)));
        r
    }

    /// Records a configuration change, now, under a fresh id.
    pub fn log_config_change(
        &mut self,
        user_id: &str,
        config_key: &str,
        old_value: Option<&str>,
        new_value: Option<&str>,
    ) -> (r: AuditOutcome)
        requires
            old(self).wf(),
        ensures
            final(self).wf(),
            final(self).configuration() == old(self).configuration(),
            exists|e: AuditEvent|
                #![trigger is_config_change_event(e, user_id@, config_key@, opt_str_view(old_value), opt_str_view(new_value))]
                is_config_change_event(e, user_id@, config_key@, opt_str_view(old_value), opt_str_view(new_value))
                    && logging_effect(*old(self), *final(self), e, r),
    {
        let e = config_change_event(
            crate::error::new_record_id(),
            unix_time_ms(),
            user_id,
            config_key,
            old_value,
            new_value,
        );
        let ghost ev = e;
        let r = self.log_event(e);
        assert(is_config_change_event(ev, user_id@, config_key@, opt_str_view(old_value), opt_str_view(new_value)));
        r
    }

    /// Records a security incident, now, under a fresh id.
    pub fn log_security_event(&mut self, event_type: &str, severity: AuditSeverity, details: StringMap<String>) -> (r:
        AuditOutcome)
        requires
            old(self).wf(),
            details.wf(),
        ensures
            final(self).wf(),
            final(self).configuration() == old(self).configuration(),
            exists|e: AuditEvent|
                #![trigger is_security_event(e, event_type@, severity, details@)]
                is_security_event(e, event_type@, severity, details@) && logging_effect(*old(self), *final(self), e, r),
    {
        let ghost d = details@;
        let e = security_event(crate::error::new_record_id(), unix_time_ms(), event_type, severity, details);
        let ghost ev = e;
        let r = self.log_event(e);
        assert(is_security_event(ev, event_type@, severity, d));
        r
    }

    /// Counts the buffered events by type and severity, and copies the ten most
    /// recent ones, newest first.
    pub fn get_stats(&self) -> (st: AuditStats)
        requires
            self.wf(),
        ensures
            st.total_events == self.buffered().len(),
            st.type_counts.wf(),
            st.severity_counts.wf(),
            forall|k: Seq<char>|
                #![trigger st.type_counts@.contains_key(k)]
                (st.type_counts@.contains_key(k) <==> type_count(self.buffered(), k) > 0)
                    && (st.type_counts@.contains_key(k) ==> st.type_counts@[k] == type_count(self.buffered(), k)),
            forall|k: Seq<char>|
                #![trigger st.severity_counts@.contains_key(k)]
                (st.severity_counts@.contains_key(k) <==> severity_count(self.buffered(), k) > 0)
                    && (st.severity_counts@.contains_key(k) ==> st.severity_counts@[k] == severity_count(
                    self.buffered(),
                    k,
                )),
            st.recent_events@.len() == (if self.buffered().len() < 10 { self.buffered().len() as int } else { 10 }),
            forall|j: int|
                0 <= j < st.recent_events@.len() ==> same_event(
                    #[trigger] st.recent_events@[j],
                    self.buffered()[self.buffered().len() - 1 - j],
                ),
    {
        let n = self.events.len();
        let mut types: StringMap<usize> = StringMap::new();
        let mut severities: StringMap<usize> = StringMap::new();
        let mut i: usize = 0;
        while i < n
            invariant
                n == self.events@.len(),
                n < AUDIT_BUFFER_LIMIT,
                i <= n,
                types.wf(),
                severities.wf(),
                forall|k: Seq<char>|
                    #![trigger types@.contains_key(k)]
                    (types@.contains_key(k) <==> type_count(self.events@.take(i as int), k) > 0) && (
                    types@.contains_key(k) ==> types@[k] == type_count(self.events@.take(i as int), k)),
                forall|k: Seq<char>|
                    #![trigger severities@.contains_key(k)]
                    (severities@.contains_key(k) <==> severity_count(self.events@.take(i as int), k) > 0) && (
                    severities@.contains_key(k) ==> severities@[k] == severity_count(self.events@.take(i as int), k)),
            decreases n - i,
        {
            let e = &self.events[i];
            let tn = e.event_type.name();
            let sn = e.severity.name();
            proof {
                let pre = self.events@.take(i as int);
                let post = self.events@.take(i + 1);
                assert(post.drop_last() =~= pre);
                assert(post.last() == self.events@[i as int]);
                lemma_counts_bounded(pre, tn@);
                lemma_counts_bounded(pre, sn@);
            }
            let tc = match types.get(tn) {
                Some(c) => *c,
                None => 0,
            };
            types.insert(String::from_str(tn), tc + 1);
            let sc = match severities.get(sn) {
                Some(c) => *c,
                None => 0,
            };
            severities.insert(String::from_str(sn), sc + 1);
            i += 1;
        }
        assert(self.events@.take(n as int) =~= self.events@);
        let mut recent: Vec<AuditEvent> = Vec::new();
        let mut j: usize = 0;
        while j < n && j < 10
            invariant
                n == self.events@.len(),
                self.wf(),
                j <= n,
                j <= 10,
                recent@.len() == j,
                forall|t: int| 0 <= t < j ==> same_event(#[trigger] recent@[t], self.events@[n - 1 - t]),
            decreases 10 - j,
        {
            assert(self.events@[n - 1 - j].wf());
            recent.push(self.events[n - 1 - j].duplicate());
            j += 1;
        }
        AuditStats { total_events: n, type_counts: types, severity_counts: severities, recent_events: recent }
    }

    /// Drops the buffered events not newer than `max_age_hours` before clock
    /// reading `now_ms`.
    pub fn cleanup_old_events(&mut self, max_age_hours: i64, now_ms: i64)
        requires
            old(self).wf(),
            -2562047788015 <= max_age_hours <= 2562047788015,
            i64::MIN <= now_ms - max_age_hours * 3600000 <= i64::MAX,
        ensures
            final(self).wf(),
            final(self).configuration() == old(self).configuration(),
            final(self).buffered() == old(self).buffered().filter(
                |e: AuditEvent| e.timestamp_ms > now_ms - max_age_hours * 3600000,
            ),
    {
        let cutoff: i64 = now_ms - max_age_hours * 3600000;
        let ghost keep = |e: AuditEvent| e.timestamp_ms > cutoff;
        let mut rest: Vec<AuditEvent> = Vec::new();
        std::mem::swap(&mut rest, &mut self.events);
        let ghost all = rest@;
        let mut kept: Vec<AuditEvent> = Vec::new();
        let mut i: usize = 0;
        while rest.len() > 0
            invariant
                all.len() < AUDIT_BUFFER_LIMIT,
                forall|t: int| 0 <= t < all.len() ==> (#[trigger] all[t]).wf(),
                i <= all.len(),
                rest@ == all.skip(i as int),
                kept@ == all.take(i as int).filter(keep),
                keep == (|e: AuditEvent| e.timestamp_ms > cutoff),
                kept@.len() <= i,
                forall|t: int| 0 <= t < kept@.len() ==> (#[trigger] kept@[t]).wf(),
            decreases rest@.len(),
        {
            let e = rest.remove(0);
            proof {
                assert(e == all[i as int]);
                assert(all.take(i + 1).drop_last() =~= all.take(i as int));
                assert(all.take(i + 1).last() == e);
                reveal_with_fuel(Seq::filter, 1);
                assert(all.skip(i + 1) =~= all.skip(i as int).drop_first());
            }
            if e.timestamp_ms > cutoff {
                kept.push(e);
            }
            proof {
                all.take(i as int).filter_lemma(keep);
            }
            i += 1;
        }
        assert(all.take(i as int) =~= all);
        self.events = kept;
    }
}

impl AuditLogger {
    /// A logger with the default settings.
    pub fn default() -> (l: AuditLogger)
        ensures
            l.wf(),
            l.buffered().len() == 0,
            is_default_audit_config(l.configuration()),
    {
        AuditLogger::new(AuditConfig::default())
    }
}

} // verus!
