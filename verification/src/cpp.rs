//! The native algorithm executor: its bridge's state, its plugin catalogue, and
//! the admission, bookkeeping and health of the executor around it.
use vstd::prelude::*;
use crate::error::EdgeComputeError;
use crate::json::{fields_tree, json_object, json_tree, report_view, JsonField, JsonTree, JsonVal};
use crate::json::json_compact_text;
use crate::types::{ComputeRequest, ComputeResponse};
use crate::text::{concat2, decimal, decimal_string, split_on, split_text};

verus! {

/// The bridge to the native executor; it must be initialized before use.
#[derive(Debug)]
pub struct CppAlgorithmExecutorBridge {
    initialized: bool,
}

/// What the catalogue says of a plugin.
#[derive(Debug, Clone)]
pub struct PluginInfo {
    pub name: String,
    pub version: String,
    pub kind: String,
    pub description: String,
}

/// The catalogue: the kind and description of each known plugin (all at version 1.0.0).
pub open spec fn plugin_entry(name: Seq<char>) -> Option<(Seq<char>, Seq<char>)> {
    if name == "vibrate31"@ {
        Some(("FEATURE"@, "vibration feature extraction plugin v31"@))
    } else if name == "motor97"@ {
        Some(("DECISION"@, "motor state recognition plugin"@))
    } else if name == "current_feature_extractor"@ {
        Some(("FEATURE"@, "current feature extraction plugin"@))
    } else if name == "temperature_feature_extractor"@ {
        Some(("FEATURE"@, "temperature feature extraction plugin"@))
    } else if name == "audio_feature_extractor"@ {
        Some(("FEATURE"@, "audio feature extraction plugin"@))
    } else if name == "universal_classify1"@ {
        Some(("DECISION"@, "universal classifier plugin"@))
    } else if name == "comp_realtime_health34"@ {
        Some(("EVALUATION"@, "realtime health evaluation plugin"@))
    } else if name == "error18"@ {
        Some(("EVALUATION"@, "error detection plugin"@))
    } else if name == "score_alarm5"@ {
        Some(("EVENT"@, "score alarm plugin"@))
    } else if name == "status_alarm4"@ {
        Some(("EVENT"@, "status alarm plugin"@))
    } else {
        None
    }
}

fn entry(name: &str, kind: &str, description: &str) -> (p: PluginInfo)
    ensures
        p.name@ == name@,
        p.version@ == "1.0.0"@,
        p.kind@ == kind@,
        p.description@ == description@,
{
    PluginInfo {
        name: String::from_str(name),
        version: String::from_str("1.0.0"),
        kind: String::from_str(kind),
        description: String::from_str(description),
    }
}

/// What the catalogue says of `name`; none for an unknown plugin.
pub fn plugin_info(name: &str) -> (r: Option<PluginInfo>)
    ensures
        match plugin_entry(name@) {
            Some((kind, description)) => r matches Some(p) && p.name@ == name@ && p.version@ == "1.0.0"@
                && p.kind@ == kind && p.description@ == description,
            None => r is None,
        },
{
    let n = String::from_str(name);
    if n == String::from_str("vibrate31") {
        Some(entry(name, "FEATURE", "vibration feature extraction plugin v31"))
    } else if n == String::from_str("motor97") {
        Some(entry(name, "DECISION", "motor state recognition plugin"))
    } else if n == String::from_str("current_feature_extractor") {
        Some(entry(name, "FEATURE", "current feature extraction plugin"))
    } else if n == String::from_str("temperature_feature_extractor") {
        Some(entry(name, "FEATURE", "temperature feature extraction plugin"))
    } else if n == String::from_str("audio_feature_extractor") {
        Some(entry(name, "FEATURE", "audio feature extraction plugin"))
    } else if n == String::from_str("universal_classify1") {
        Some(entry(name, "DECISION", "universal classifier plugin"))
    } else if n == String::from_str("comp_realtime_health34") {
        Some(entry(name, "EVALUATION", "realtime health evaluation plugin"))
    } else if n == String::from_str("error18") {
        Some(entry(name, "EVALUATION", "error detection plugin"))
    } else if n == String::from_str("score_alarm5") {
        Some(entry(name, "EVENT", "score alarm plugin"))
    } else if n == String::from_str("status_alarm4") {
        Some(entry(name, "EVENT", "status alarm plugin"))
    } else {
        None
    }
}

/// The fields of a plugin's description as JSON: name, version, type and
/// description; for an unknown plugin, an error field.
pub fn plugin_info_fields(name: &str) -> (r: Vec<(String, String)>)
    ensures
        match plugin_entry(name@) {
            Some((kind, description)) => r@.len() == 4 && r@[0].0@ == "name"@ && r@[0].1@ == name@
                && r@[1].0@ == "version"@ && r@[1].1@ == "1.0.0"@ && r@[2].0@ == "type"@ && r@[2].1@ == kind
                && r@[3].0@ == "description"@ && r@[3].1@ == description,
            None => r@.len() == 1 && r@[0].0@ == "error"@ && r@[0].1@ == "Unknown plugin"@,
        },
{
    let mut fields: Vec<(String, String)> = Vec::new();
    match plugin_info(name) {
        Some(p) => {
            fields.push((String::from_str("name"), p.name));
            fields.push((String::from_str("version"), p.version));
            fields.push((String::from_str("type"), p.kind));
            fields.push((String::from_str("description"), p.description));
        },
        None => {
            fields.push((String::from_str("error"), String::from_str("Unknown plugin")));
        },
    }
    fields
}

/// The JSON description of a plugin: its name, version, type and description; for
/// an unknown plugin, an error.
pub open spec fn plugin_info_tree(name: Seq<char>) -> Map<Seq<char>, JsonTree> {
    match plugin_entry(name) {
        Some((kind, description)) => map![
            "name"@ => JsonTree::Str(name),
            "version"@ => JsonTree::Str("1.0.0"@),
            "type"@ => JsonTree::Str(kind),
            "description"@ => JsonTree::Str(description),
        ],
        None => map!["error"@ => JsonTree::Str("Unknown plugin"@)],
    }
}

/// The plugin names of a comma-separated listing; none when there is no listing.
pub fn plugins_from_listing(listing: Option<String>) -> (r: Vec<String>)
    ensures
        match listing {
            Some(text) => r@.map_values(|s: String| s@) == split_on(text@, ','),
            None => r@.len() == 0,
        },
{
    match listing {
        None => Vec::new(),
        Some(text) => split_text(text.as_str(), ','),
    }
}

impl CppAlgorithmExecutorBridge {
    /// A bridge, not yet initialized.
    pub fn new() -> (r: Result<CppAlgorithmExecutorBridge, String>)
        ensures
            r matches Ok(b) && !b.is_initialized_spec(),
    {
        Ok(CppAlgorithmExecutorBridge { initialized: false })
    }

    pub closed spec fn is_initialized_spec(&self) -> bool {
        self.initialized
    }

    pub fn is_initialized(&self) -> (b: bool)
        ensures
            b == self.is_initialized_spec(),
    {
        self.initialized
    }

    /// Records the status code of the native initialization: the bridge is
    /// initialized exactly when the code is 0, which is what is returned.
    pub fn initialize_with_code(&mut self, code: i32) -> (r: Result<bool, String>)
        ensures
            final(self).is_initialized_spec() == (code == 0),
            r == Ok::<bool, String>(code == 0),
    {
        self.initialized = code == 0;
        Ok(self.initialized)
    }

    /// Running an algorithm needs an initialized bridge.
    pub fn check_ready(&self) -> (r: Result<(), String>)
        ensures
            self.is_initialized_spec() ==> r is Ok,
            !self.is_initialized_spec() ==> (r matches Err(m) && m@ == "CppAlgorithmExecutor not initialized"@),
    {
        if !self.initialized {
            return Err(String::from_str("CppAlgorithmExecutor not initialized"));
        }
        Ok(())
    }

    /// The plugin names of the native listing (none without a listing).
    pub fn get_available_plugins(&self, listing: Option<String>) -> (r: Result<Vec<String>, String>)
        ensures
            r matches Ok(v) && match listing {
                Some(text) => v@.map_values(|s: String| s@) == split_on(text@, ','),
                None => v@.len() == 0,
            },
    {
        Ok(plugins_from_listing(listing))
    }

    /// The description of a plugin as a JSON object; see `plugin_info_fields`.
    pub fn get_plugin_info(&self, plugin_name: &str) -> (r: Result<serde_json::Value, String>)
        ensures
            r matches Ok(v) && json_tree(v) == JsonTree::Object(plugin_info_tree(plugin_name@)),
    {
        let fields = plugin_info_fields(plugin_name);
        let mut object: Vec<(String, JsonField)> = Vec::new();
        let mut i: usize = 0;
        while i < fields.len()
            invariant
                i <= fields@.len(),
                object@.len() == i,
                forall|j: int|
                    0 <= j < i ==> (#[trigger] object@[j]).0@ == fields@[j].0@ && object@[j].1.view()
                        == JsonVal::Text(fields@[j].1@),
            decreases fields@.len() - i,
        {
            let k = fields[i].0.clone();
            let v = fields[i].1.clone();
            object.push((k, JsonField::Text(v)));
            assert(object@[i as int].1.view() == JsonVal::Text(fields@[i as int].1@));
            i += 1;
        }
        proof {
            let rv = report_view(object@);
            assert(rv.len() == fields@.len());
            assert forall|j: int| 0 <= j < rv.len() implies #[trigger] rv[j] == (fields@[j].0@, JsonVal::Text(
                fields@[j].1@,
            )) by {}
            reveal_with_fuel(fields_tree, 5);
            assert(fields_tree(rv) =~= plugin_info_tree(plugin_name@));
        }
        Ok(json_object(&object))
    }
}


/// Settings of the native executor.
#[derive(Debug, Clone)]
pub struct CppExecutorConfig {
    pub max_concurrent_tasks: usize,
    pub task_timeout_ms: u64,
    pub enable_resource_monitoring: bool,
    pub memory_limit_mb: Option<u64>,
}

impl CppExecutorConfig {
    /// Ten tasks at once, 30 s per task, monitoring on, 512 MB of memory.
    pub fn default() -> (c: CppExecutorConfig)
        ensures
            c.max_concurrent_tasks == 10,
            c.task_timeout_ms == 30000,
            c.enable_resource_monitoring,
            c.memory_limit_mb == Some(512u64),
    {
        CppExecutorConfig {
            max_concurrent_tasks: 10,
            task_timeout_ms: 30000,
            enable_resource_monitoring: true,
            memory_limit_mb: Some(512),
        }
    }
}

/// Resource use and task counts of the executor.
#[derive(Debug, Clone, Copy, PartialEq, Eq, Structural)]
pub struct ResourceStats {
    pub current_memory_bytes: u64,
    pub peak_memory_bytes: u64,
    pub total_tasks: u64,
    pub successful_tasks: u64,
    pub failed_tasks: u64,
    pub total_execution_time_ms: u64,
}

/// Bytes in a mebibyte.
pub const MIB: u64 = 1048576;

/// A health report.
#[derive(Debug, Clone)]
pub struct HealthStatus {
    pub healthy: bool,
    pub message: String,
    /// Named figures, in a fixed order.
    pub details: Vec<(String, String)>,
}

/// The native executor: admission within the memory and concurrency limits, and
/// the statistics of the tasks it ran.
pub struct CppExecutor {
    name: String,
    version: String,
    supported_algorithms: Vec<String>,
    config: CppExecutorConfig,
    resource_stats: ResourceStats,
    active_tasks: usize,
    initialized: bool,
}

/// Whether the memory limit of a configuration can be counted in bytes.
pub open spec fn limit_in_range(config: CppExecutorConfig) -> bool {
    config.memory_limit_mb matches Some(m) ==> m * MIB <= u64::MAX
}

/// Why a task is refused at admission, if it is.
pub open spec fn admission_refusal(
    initialized: bool,
    config: CppExecutorConfig,
    stats: ResourceStats,
    active: usize,
) -> Option<int> {
    if !initialized {
        Some(0)
    } else if config.memory_limit_mb is Some && stats.current_memory_bytes > config.memory_limit_mb->0 * MIB {
        Some(1)
    } else if active >= config.max_concurrent_tasks {
        Some(2)
    } else {
        None
    }
}

/// What admitting `request` does: an executor that is not initialized, whose
/// memory in use is over its limit, or that runs as many tasks as allowed refuses
/// with the matching error and changes nothing; otherwise the task is counted and
/// becomes active.
pub open spec fn admits_task(
    before: CppExecutor,
    after: CppExecutor,
    request: ComputeRequest,
    r: Result<(), EdgeComputeError>,
) -> bool {

                let refusal = admission_refusal(
                    before.ready(),
                    before.configuration(),
                    before.stats(),
                    before.active(),
                );
                &&& refusal is None ==> r is Ok && after.active() == before.active() + 1
                    && after.stats() == (ResourceStats {
                    total_tasks: (before.stats().total_tasks + 1) as u64,
                    ..before.stats()
                })
                &&& refusal is Some ==> after.active() == before.active() && after.stats()
                    == before.stats()
                &&& refusal == Some(0int) ==> (r matches Err(EdgeComputeError::AlgorithmExecution {
                    message,
                    algorithm,
                    input_size,
                }) && message@ == "C++ Executor not initialized: "@ + before.executor_name()
                    && algorithm == Some(request.algorithm) && input_size is None)
                &&& refusal == Some(1int) ==> (r matches Err(EdgeComputeError::ResourceExhausted {
                    resource,
                    requested,
                    available,
                }) && resource@ == "memory"@ && requested == Some(
                    (before.configuration().memory_limit_mb->0 * MIB) as u64,
                ) && available == Some(before.stats().current_memory_bytes))
                &&& refusal == Some(2int) ==> (r matches Err(EdgeComputeError::ResourceExhausted {
                    resource,
                    requested,
                    available,
                }) && resource@ == "concurrency"@ && requested == Some(
                    before.configuration().max_concurrent_tasks as u64,
                ) && available == Some(before.active() as u64))
    &&& after.configuration() == before.configuration()
    &&& after.ready() == before.ready()
}

/// What recording the end of a task that ran `elapsed_ms` does: its time is added,
/// it counts as a success or a failure, and one task fewer is active.
pub open spec fn completes_task(before: CppExecutor, after: CppExecutor, succeeded: bool, elapsed_ms: u64) -> bool {
    &&& after.configuration() == before.configuration()
    &&& after.ready() == before.ready()
    &&& after.active() == (if before.active() > 0 { before.active() - 1 } else { 0 })
    &&& after.stats() == (ResourceStats {
        total_execution_time_ms: (before.stats().total_execution_time_ms + elapsed_ms) as u64,
        successful_tasks: (before.stats().successful_tasks + if succeeded { 1int } else { 0 }) as u64,
        failed_tasks: (before.stats().failed_tasks + if succeeded { 0int } else { 1 }) as u64,
        ..before.stats()
    })
}

/// A task admitted and then finished leaves the executor as busy as before; the
/// task is counted once in the total and once as a success or a failure.  A
/// refused task changes nothing, and an executor that is not initialized refuses.
pub proof fn lemma_admitted_task_round_trip(
    e0: CppExecutor,
    e1: CppExecutor,
    e2: CppExecutor,
    request: ComputeRequest,
    r: Result<(), EdgeComputeError>,
    succeeded: bool,
    elapsed_ms: u64,
)
    requires
        admits_task(e0, e1, request, r),
        completes_task(e1, e2, succeeded, elapsed_ms),
        e0.stats().total_tasks < u64::MAX,
        e0.stats().total_execution_time_ms + elapsed_ms <= u64::MAX,
        e0.stats().successful_tasks < u64::MAX,
        e0.stats().failed_tasks < u64::MAX,
    ensures
        r is Ok ==> e2.active() == e0.active() && e2.stats().total_tasks == e0.stats().total_tasks + 1
            && e2.stats().successful_tasks == e0.stats().successful_tasks + (if succeeded { 1int } else { 0 })
            && e2.stats().failed_tasks == e0.stats().failed_tasks + (if succeeded { 0int } else { 1 })
            && e2.stats().total_execution_time_ms == e0.stats().total_execution_time_ms + elapsed_ms,
        r is Err ==> e1.active() == e0.active() && e1.stats() == e0.stats(),
        !e0.ready() ==> r is Err,
{
}

impl CppExecutor {
    pub closed spec fn wf(&self) -> bool {
        limit_in_range(self.config)
    }

    pub closed spec fn configuration(&self) -> CppExecutorConfig {
        self.config
    }

    pub closed spec fn stats(&self) -> ResourceStats {
        self.resource_stats
    }

    pub closed spec fn active(&self) -> usize {
        self.active_tasks
    }

    pub closed spec fn ready(&self) -> bool {
        self.initialized
    }

    pub closed spec fn executor_name(&self) -> Seq<char> {
        self.name@
    }

    pub closed spec fn executor_version(&self) -> Seq<char> {
        self.version@
    }

    pub closed spec fn algorithms(&self) -> Seq<Seq<char>> {
        self.supported_algorithms@.map_values(|s: String| s@)
    }

    /// An executor with the default configuration.
    pub fn new() -> (e: CppExecutor)
        ensures
            e.wf(),
            e.configuration() == CppExecutorConfig::default_spec(),
            e.executor_name() == "cpp"@,
            e.executor_version() == "1.0.0"@,
            e.algorithms() == seq!["add"@, "multiply"@, "complex_math"@, "vibrate31"@],
            !e.ready(),
            e.active() == 0,
            e.stats() == ResourceStats::zero(),
    {
        Self::with_config(CppExecutorConfig::default())
    }

    /// An executor named "cpp", version 1.0.0, for the algorithms add,
    /// multiply, complex_math and vibrate31; not yet initialized, idle, with no
    /// statistics.
    pub fn with_config(config: CppExecutorConfig) -> (e: CppExecutor)
        requires
            limit_in_range(config),
        ensures
            e.wf(),
            e.configuration() == config,
            e.executor_name() == "cpp"@,
            e.executor_version() == "1.0.0"@,
            e.algorithms() == seq!["add"@, "multiply"@, "complex_math"@, "vibrate31"@],
            !e.ready(),
            e.active() == 0,
            e.stats() == ResourceStats::zero(),
    {
        let mut algorithms: Vec<String> = Vec::new();
        algorithms.push(String::from_str("add"));
        algorithms.push(String::from_str("multiply"));
        algorithms.push(String::from_str("complex_math"));
        algorithms.push(String::from_str("vibrate31"));
        let e = CppExecutor {
            name: String::from_str("cpp"),
            version: String::from_str("1.0.0"),
            supported_algorithms: algorithms,
            config,
            resource_stats: ResourceStats {
                current_memory_bytes: 0,
                peak_memory_bytes: 0,
                total_tasks: 0,
                successful_tasks: 0,
                failed_tasks: 0,
                total_execution_time_ms: 0,
            },
            active_tasks: 0,
            initialized: false,
        };
        assert(e.algorithms() =~= seq!["add"@, "multiply"@, "complex_math"@, "vibrate31"@]);
        e
    }

    pub fn name(&self) -> (s: &str)
        ensures
            s@ == self.executor_name(),
    {
        self.name.as_str()
    }

    pub fn version(&self) -> (s: &str)
        ensures
            s@ == self.executor_version(),
    {
        self.version.as_str()
    }

    pub fn supported_algorithms(&self) -> (v: Vec<String>)
        ensures
            v@.map_values(|s: String| s@) == self.algorithms(),
    {
        let v = crate::error::clone_strings(&self.supported_algorithms);
        assert(v@.map_values(|s: String| s@) =~= self.algorithms());
        v
    }

    pub fn is_initialized(&self) -> (b: bool)
        ensures
            b == self.ready(),
    {
        self.initialized
    }

    /// Finishes initialization with the outcome of starting the native side: an
    /// initialized executor stays so; a failure is an algorithm-execution error
    /// carrying its text; otherwise the executor becomes ready.
    pub fn complete_initialization(&mut self, started: Result<(), String>) -> (r: Result<(), EdgeComputeError>)
        requires
            old(self).wf(),
        ensures
            final(self).wf(),
            final(self).configuration() == old(self).configuration(),
            final(self).stats() == old(self).stats(),
            final(self).active() == old(self).active(),
            old(self).ready() ==> r is Ok && final(self).ready(),
            !old(self).ready() ==> match started {
                Ok(()) => r is Ok && final(self).ready(),
                Err(m) => r matches Err(EdgeComputeError::AlgorithmExecution {
                    message,
                    algorithm,
                    input_size,
                }) && message@ == m@ && algorithm is None && input_size is None && !final(self).ready(),
            },
    {
        if self.initialized {
            return Ok(());
        }
        match started {
            Ok(()) => {
                self.initialized = true;
                Ok(())
            },
            Err(m) => Err(EdgeComputeError::AlgorithmExecution { message: m, algorithm: None, input_size: None }),
        }
    }

    /// Admits a task: refused when the executor is not initialized, when the
    /// memory in use is over the limit, or when as many tasks as allowed are
    /// running; an admitted task is counted and becomes active.
    pub fn begin_task(&mut self, request: &ComputeRequest) -> (r: Result<(), EdgeComputeError>)
        requires
            old(self).wf(),
            old(self).stats().total_tasks < u64::MAX,
        ensures
            final(self).wf(),
            final(self).configuration() == old(self).configuration(),
            final(self).ready() == old(self).ready(),
            admits_task(*old(self), *final(self), *request, r),
    {
        if !self.initialized {
            return Err(
                EdgeComputeError::AlgorithmExecution {
                    message: concat2("C++ Executor not initialized: ", self.name.as_str()),
                    algorithm: Some(request.algorithm.clone()),
                    input_size: None,
                },
            );
        }
        if let Some(limit) = self.config.memory_limit_mb {
            let bytes = limit * MIB;
            if self.resource_stats.current_memory_bytes > bytes {
                return Err(
                    EdgeComputeError::ResourceExhausted {
                        resource: String::from_str("memory"),
                        requested: Some(bytes),
                        available: Some(self.resource_stats.current_memory_bytes),
                    },
                );
            }
        }
        if self.active_tasks >= self.config.max_concurrent_tasks {
            return Err(
                EdgeComputeError::ResourceExhausted {
                    resource: String::from_str("concurrency"),
                    requested: Some(self.config.max_concurrent_tasks as u64),
                    available: Some(self.active_tasks as u64),
                },
            );
        }
        self.active_tasks = self.active_tasks + 1;
        self.resource_stats.total_tasks = self.resource_stats.total_tasks + 1;
        Ok(())
    }

    /// Records the end of an admitted task that ran `elapsed_ms`: its time, whether
    /// it succeeded, and one task fewer active.
    pub fn finish_task(&mut self, succeeded: bool, elapsed_ms: u64)
        requires
            old(self).wf(),
            old(self).stats().total_execution_time_ms + elapsed_ms <= u64::MAX,
            succeeded ==> old(self).stats().successful_tasks < u64::MAX,
            !succeeded ==> old(self).stats().failed_tasks < u64::MAX,
        ensures
            final(self).wf(),
            completes_task(*old(self), *final(self), succeeded, elapsed_ms),
    {
        self.resource_stats.total_execution_time_ms = self.resource_stats.total_execution_time_ms + elapsed_ms;
        if succeeded {
            self.resource_stats.successful_tasks = self.resource_stats.successful_tasks + 1;
        } else {
            self.resource_stats.failed_tasks = self.resource_stats.failed_tasks + 1;
        }
        self.active_tasks = if self.active_tasks > 0 { self.active_tasks - 1 } else { 0 };
    }

    pub fn get_resource_stats(&self) -> (s: ResourceStats)
        ensures
            s == self.stats(),
    {
        self.resource_stats
    }

    pub fn get_active_tasks_count(&self) -> (n: usize)
        ensures
            n == self.active(),
    {
        self.active_tasks
    }

    /// Healthy when initialized and below the concurrency limit; the details
    /// name the state and the counts (memory in whole mebibytes).
    pub fn health_check(&self) -> (h: HealthStatus)
        ensures
            h.healthy == (self.ready() && self.active() < self.configuration().max_concurrent_tasks),
            h.healthy ==> h.message@ == "C++ Executor is healthy"@,
            !h.healthy ==> h.message@ == "C++ Executor health check failed: "@ + decimal(self.active() as nat)
                + " active tasks"@,
            h.details@.len() == 7,
            h.details@[0].0@ == "initialized"@ && h.details@[0].1@ == (if self.ready() { "true"@ } else { "false"@ }),
            h.details@[1].0@ == "active_tasks"@ && h.details@[1].1@ == decimal(self.active() as nat),
            h.details@[2].0@ == "total_tasks"@ && h.details@[2].1@ == decimal(self.stats().total_tasks as nat),
            h.details@[3].0@ == "successful_tasks"@ && h.details@[3].1@ == decimal(
                self.stats().successful_tasks as nat,
            ),
            h.details@[4].0@ == "failed_tasks"@ && h.details@[4].1@ == decimal(self.stats().failed_tasks as nat),
            h.details@[5].0@ == "current_memory_mb"@ && h.details@[5].1@ == decimal(
                (self.stats().current_memory_bytes / MIB) as nat,
            ),
            h.details@[6].0@ == "peak_memory_mb"@ && h.details@[6].1@ == decimal(
                (self.stats().peak_memory_bytes / MIB) as nat,
            ),
    {
        let healthy = self.initialized && self.active_tasks < self.config.max_concurrent_tasks;
        let mut details: Vec<(String, String)> = Vec::new();
        details.push(
            (String::from_str("initialized"), String::from_str(if self.initialized { "true" } else { "false" })),
        );
        details.push((String::from_str("active_tasks"), decimal_string(self.active_tasks as u64)));
        details.push((String::from_str("total_tasks"), decimal_string(self.resource_stats.total_tasks)));
        details.push((String::from_str("successful_tasks"), decimal_string(self.resource_stats.successful_tasks)));
        details.push((String::from_str("failed_tasks"), decimal_string(self.resource_stats.failed_tasks)));
        details.push(
            (String::from_str("current_memory_mb"), decimal_string(self.resource_stats.current_memory_bytes / MIB)),
        );
        details.push(
            (String::from_str("peak_memory_mb"), decimal_string(self.resource_stats.peak_memory_bytes / MIB)),
        );
        let message = if healthy {
            String::from_str("C++ Executor is healthy")
        } else {
            let mut m = String::from_str("C++ Executor health check failed: ");
            let n = decimal_string(self.active_tasks as u64);
            m.append(n.as_str());
            m.append(" active tasks");
            m
        };
        HealthStatus { healthy, message, details }
    }

    /// The response to a request from the native result: a success carrying the
    /// result, or an algorithm-execution error naming the failure.
    pub fn response_from(request: &ComputeRequest, outcome: Result<serde_json::Value, String>) -> (r: Result<
        ComputeResponse,
        EdgeComputeError,
    >)
        ensures
            match outcome {
                Ok(v) => r matches Ok(resp) && resp.success && resp.result@ == json_compact_text(json_tree(v)),
                Err(m) => r matches Err(EdgeComputeError::AlgorithmExecution {
                    message,
                    algorithm,
                    input_size,
                }) && message@ == "C++ algorithm execution failed: "@ + m@ && algorithm == Some(request.algorithm)
                    && input_size is None,
            },
    {
        match outcome {
            Ok(v) => Ok(ComputeResponse::success(request.id.clone(), v, 0)),
            Err(m) => Err(
                EdgeComputeError::AlgorithmExecution {
                    message: concat2("C++ algorithm execution failed: ", m.as_str()),
                    algorithm: Some(request.algorithm.clone()),
                    input_size: None,
                },
            ),
        }
    }
}

impl ResourceStats {
    pub open spec fn zero() -> ResourceStats {
        ResourceStats {
            current_memory_bytes: 0,
            peak_memory_bytes: 0,
            total_tasks: 0,
            successful_tasks: 0,
            failed_tasks: 0,
            total_execution_time_ms: 0,
        }
    }
}

impl CppExecutorConfig {
    pub open spec fn default_spec() -> CppExecutorConfig {
        CppExecutorConfig {
            max_concurrent_tasks: 10,
            task_timeout_ms: 30000,
            enable_resource_monitoring: true,
            memory_limit_mb: Some(512),
        }
    }
}

} // verus!
