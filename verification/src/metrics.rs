//! Metrics and health: metric kinds, the text exposition of samples, the
//! standard health checks and how their answers combine.
use vstd::prelude::*;
use crate::text::{decimal, decimal_string};

verus! {

/// The kind of a metric.
#[derive(Debug, Clone, Copy, PartialEq, Eq, Structural)]
pub enum MetricType {
    /// Only grows.
    Counter,
    /// Goes up and down.
    Gauge,
    /// Counts observations in buckets.
    Histogram,
    /// Quantiles of observations.
    Summary,
}

/// The name of a kind in the text exposition format.
pub open spec fn metric_type_name(t: MetricType) -> Seq<char> {
    match t {
        MetricType::Counter => "counter"@,
        MetricType::Gauge => "gauge"@,
        MetricType::Histogram => "histogram"@,
        MetricType::Summary => "summary"@,
    }
}

impl MetricType {
    pub fn exposition_name(&self) -> (s: &'static str)
        ensures
            s@ == metric_type_name(*self),
    {
        match self {
            MetricType::Counter => "counter",
            MetricType::Gauge => "gauge",
            MetricType::Histogram => "histogram",
            MetricType::Summary => "summary",
        }
    }
}

/// The `# HELP` and `# TYPE` lines of a metric.
pub fn metric_header(name: &str, description: &str, metric_type: MetricType) -> (s: String)
    ensures
        s@ == "# HELP "@ + name@ + " "@ + description@ + "\n"@ + "# TYPE "@ + name@ + " "@ + metric_type_name(
            metric_type,
        ) + "\n"@,
{
    let mut s = String::from_str("# HELP ");
    s.append(name);
    s.append(" ");
    s.append(description);
    s.append("\n");
    s.append("# TYPE ");
    s.append(name);
    s.append(" ");
    s.append(metric_type.exposition_name());
    s.append("\n");
    s
}

/// `k="v"` pairs joined with commas.
pub open spec fn label_pairs(labels: Seq<(Seq<char>, Seq<char>)>) -> Seq<char>
    decreases labels.len(),
{
    if labels.len() == 0 {
        Seq::empty()
    } else if labels.len() == 1 {
        labels[0].0 + "=\""@ + labels[0].1 + "\""@
    } else {
        label_pairs(labels.drop_last()) + ","@ + labels.last().0 + "=\""@ + labels.last().1 + "\""@
    }
}

/// The label set of a sample: nothing for no labels, else the pairs in braces.
pub open spec fn label_set(labels: Seq<(Seq<char>, Seq<char>)>) -> Seq<char> {
    if labels.len() == 0 {
        Seq::empty()
    } else {
        "{"@ + label_pairs(labels) + "}"@
    }
}

/// The texts of label pairs.
pub open spec fn label_views(labels: Seq<(String, String)>) -> Seq<(Seq<char>, Seq<char>)> {
    labels.map_values(|p: (String, String)| (p.0@, p.1@))
}

/// The label set of a sample, in the given order.
pub fn labels_text(labels: &Vec<(String, String)>) -> (s: String)
    ensures
        s@ == label_set(label_views(labels@)),
{
    if labels.len() == 0 {
        return String::new();
    }
    let mut inner = String::new();
    let mut i: usize = 0;
    while i < labels.len()
        invariant
            i <= labels@.len(),
            inner@ == label_pairs(label_views(labels@).take(i as int)),
        decreases labels@.len() - i,
    {
        proof {
            let v = label_views(labels@);
            assert(v.take(i + 1).drop_last() =~= v.take(i as int));
            assert(v.take(i + 1).last() == (labels@[i as int].0@, labels@[i as int].1@));
            if i == 0 {
                assert(v.take(1).len() == 1);
            }
        }
        if i > 0 {
            inner.append(",");
        }
        inner.append(labels[i].0.as_str());
        inner.append("=\"");
        inner.append(labels[i].1.as_str());
        inner.append("\"");
        i += 1;
    }
    assert(label_views(labels@).take(labels@.len() as int) =~= label_views(labels@));
    let mut s = String::from_str("{");
    s.append(inner.as_str());
    s.append("}");
    s
}

/// The decimal text of a signed number.
pub open spec fn signed_decimal(v: i64) -> Seq<char> {
    if v < 0 {
        "-"@ + decimal((-(v as int)) as nat)
    } else {
        decimal(v as nat)
    }
}

/// The decimal text of a signed number.
pub fn signed_decimal_string(v: i64) -> (s: String)
    ensures
        s@ == signed_decimal(v),
{
    if v < 0 {
        let magnitude: u64 = if v == i64::MIN { 9223372036854775808u64 } else { (-v) as u64 };
        let d = decimal_string(magnitude);
        let mut s = String::from_str("-");
        s.append(d.as_str());
        s
    } else {
        decimal_string(v as u64)
    }
}

/// The sample line of an integer metric.
pub fn integer_sample(name: &str, labels: &str, value: i64) -> (s: String)
    ensures
        s@ == name@ + labels@ + " "@ + signed_decimal(value) + "\n"@,
{
    let mut s = String::from_str(name);
    s.append(labels);
    s.append(" ");
    let v = signed_decimal_string(value);
    s.append(v.as_str());
    s.append("\n");
    s
}

/// How healthy a component is.
#[derive(Debug, Clone, Copy, PartialEq, Eq, Structural)]
pub enum HealthState {
    Healthy,
    Unhealthy,
    Warning,
}

/// The answer of a health check.
#[derive(Debug, Clone)]
pub struct HealthStatus {
    pub name: String,
    pub status: HealthState,
    pub details: Option<String>,
    /// When the check ran, in milliseconds since the epoch.
    pub checked_at_ms: i64,
}

/// The overall state of several answers: unhealthy if any is, else warning if
/// any is, else healthy.
pub open spec fn combined_state(states: Seq<HealthState>) -> HealthState {
    if exists|i: int| 0 <= i < states.len() && states[i] == HealthState::Unhealthy {
        HealthState::Unhealthy
    } else if exists|i: int| 0 <= i < states.len() && states[i] == HealthState::Warning {
        HealthState::Warning
    } else {
        HealthState::Healthy
    }
}

/// The overall state of several answers.
pub fn overall_state(states: &Vec<HealthState>) -> (s: HealthState)
    ensures
        s == combined_state(states@),
{
    let mut unhealthy = false;
    let mut warning = false;
    let mut i: usize = 0;
    while i < states.len()
        invariant
            i <= states@.len(),
            unhealthy == exists|j: int| 0 <= j < i && states@[j] == HealthState::Unhealthy,
            warning == exists|j: int| 0 <= j < i && states@[j] == HealthState::Warning,
        decreases states@.len() - i,
    {
        if states[i] == HealthState::Unhealthy {
            unhealthy = true;
        }
        if states[i] == HealthState::Warning {
            warning = true;
        }
        i += 1;
    }
    if unhealthy {
        HealthState::Unhealthy
    } else if warning {
        HealthState::Warning
    } else {
        HealthState::Healthy
    }
}

/// Whether `h` is a healthy answer named `name` with `details`, checked at `now_ms`.
pub open spec fn healthy_answer(h: HealthStatus, name: Seq<char>, details: Seq<char>, now_ms: i64) -> bool {
    &&& h.name@ == name
    &&& h.status == HealthState::Healthy
    &&& h.details matches Some(d) && d@ == details
    &&& h.checked_at_ms == now_ms
}

fn healthy(name: &str, details: &str, now_ms: i64) -> (h: HealthStatus)
    ensures
        healthy_answer(h, name@, details@, now_ms),
{
    HealthStatus {
        name: String::from_str(name),
        status: HealthState::Healthy,
        details: Some(String::from_str(details)),
        checked_at_ms: now_ms,
    }
}

/// The database check.
pub struct DatabaseHealthCheck;

impl DatabaseHealthCheck {
    pub fn new() -> (c: DatabaseHealthCheck) {
        DatabaseHealthCheck
    }

    /// Reports the database healthy.
    pub fn check(&self, now_ms: i64) -> (h: HealthStatus)
        ensures
            healthy_answer(h, "database"@, "Database connection is healthy"@, now_ms),
    {
        healthy("database", "Database connection is healthy", now_ms)
    }

    pub fn name(&self) -> (s: &'static str)
        ensures
            s@ == "database"@,
    {
        "database"
    }

    pub fn description(&self) -> (s: &'static str)
        ensures
            s@ == "Checks database connectivity and performance"@,
    {
        "Checks database connectivity and performance"
    }
}

/// The API check.
pub struct ApiHealthCheck;

impl ApiHealthCheck {
    pub fn new() -> (c: ApiHealthCheck) {
        ApiHealthCheck
    }

    /// Reports the API healthy.
    pub fn check(&self, now_ms: i64) -> (h: HealthStatus)
        ensures
            healthy_answer(h, "api"@, "API endpoints are responding"@, now_ms),
    {
        healthy("api", "API endpoints are responding", now_ms)
    }

    pub fn name(&self) -> (s: &'static str)
        ensures
            s@ == "api"@,
    {
        "api"
    }

    pub fn description(&self) -> (s: &'static str)
        ensures
            s@ == "Checks API endpoint responsiveness"@,
    {
        "Checks API endpoint responsiveness"
    }
}

/// The system resource check.
pub struct SystemHealthCheck;

impl SystemHealthCheck {
    pub fn new() -> (c: SystemHealthCheck) {
        SystemHealthCheck
    }

    /// Reports the system healthy.
    pub fn check(&self, now_ms: i64) -> (h: HealthStatus)
        ensures
            healthy_answer(h, "system"@, "System resources are within normal limits"@, now_ms),
    {
        healthy("system", "System resources are within normal limits", now_ms)
    }

    pub fn name(&self) -> (s: &'static str)
        ensures
            s@ == "system"@,
    {
        "system"
    }

    pub fn description(&self) -> (s: &'static str)
        ensures
            s@ == "Checks system resource usage"@,
    {
        "Checks system resource usage"
    }
}

} // verus!
