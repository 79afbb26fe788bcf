//! Requests, responses and the small shared types of the framework.
use vstd::prelude::*;
use crate::json::{json_compact_text, json_to_string, json_tree};

verus! {

/// A computation request.
#[derive(Debug, Clone)]
pub struct ComputeRequest {
    pub id: String,
    pub algorithm: String,
    /// Parameters, as JSON text.
    pub parameters: String,
}

impl ComputeRequest {
    /// A copy of this request.
    pub fn duplicate(&self) -> (r: ComputeRequest)
        ensures
            r == *self,
    {
        ComputeRequest {
            id: self.id.clone(),
            algorithm: self.algorithm.clone(),
            parameters: self.parameters.clone(),
        }
    }
}

/// The answer to a computation request.
#[derive(Debug, Clone)]
pub struct ComputeResponse {
    pub success: bool,
    /// Result as JSON text on success, the error message otherwise.
    pub result: String,
}

/// The compact JSON text of a value.
pub(crate) fn json_text(v: &serde_json::Value) -> (s: String)
    ensures
        s@ == json_compact_text(json_tree(*v)),
{
    match json_to_string(v) {
        Some(s) => s,
        None => String::new(),
    }
}

impl ComputeResponse {
    /// A successful response carrying `result` as JSON text.
    pub fn success(id: String, result: serde_json::Value, execution_time: u64) -> (r: ComputeResponse)
        ensures
            r.success,
            r.result@ == json_compact_text(json_tree(result)),
    {
        ComputeResponse { success: true, result: json_text(&result) }
    }

    /// A failed response carrying the error message.
    pub fn failure(id: String, error: String) -> (r: ComputeResponse)
        ensures
            !r.success,
            r.result == error,
    {
        ComputeResponse { success: false, result: error }
    }
}

/// Life-cycle state of a task.
#[derive(Debug, Clone, Copy, PartialEq, Eq)]
pub enum TaskStatus {
    Pending,
    Running,
    Completed,
    Failed,
}

/// Occupancy of the task queue.
#[derive(Debug, Clone)]
pub struct QueueStatus {
    pub queued_tasks: usize,
    pub active_tasks: usize,
    pub max_concurrent: usize,
}

/// Resource limits of a container (none are defined; an empty struct, since Verus
/// takes no enum without variants).
#[derive(Debug, Clone, Copy)]
pub struct ResourceLimits {}

/// Configuration of a container.
#[derive(Debug, Clone)]
pub struct ContainerConfig {
    pub name: String,
}

/// A plain error carrying its message.
#[derive(Debug, Clone)]
pub struct EdgeComputeError(pub String);

impl EdgeComputeError {
    /// The message, as the error displays it.
    pub fn to_message(&self) -> (s: String)
        ensures
            s@ == self.0@,
    {
        self.0.clone()
    }
}

/// How an executor reports its health.
#[derive(Debug, Clone, Copy, PartialEq, Eq, Structural)]
pub enum HealthStatus {
    Healthy,
    Degraded,
    Unhealthy,
}

} // verus!
