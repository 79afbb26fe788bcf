//! Containers that run algorithms: their bookkeeping and life cycle, the
//! algorithm registry, and the bodies of the container endpoints.
use vstd::prelude::*;
use crate::json::{fields_tree, json_object, json_tree, report_view, JsonField, JsonTree, JsonVal};
use crate::string_map::StringMap;
use crate::text::concat2;
use crate::types::ContainerConfig;

verus! {

/// Where a container stands.
#[derive(Debug, Clone, PartialEq)]
pub enum ContainerStatus {
    Creating,
    Running,
    Stopped,
    Destroyed,
    Error(String),
}

impl ContainerStatus {
    /// A copy of this status.
    pub fn duplicate(&self) -> (r: ContainerStatus)
        ensures
            r == *self,
    {
        match self {
            ContainerStatus::Creating => ContainerStatus::Creating,
            ContainerStatus::Running => ContainerStatus::Running,
            ContainerStatus::Stopped => ContainerStatus::Stopped,
            ContainerStatus::Destroyed => ContainerStatus::Destroyed,
            ContainerStatus::Error(m) => ContainerStatus::Error(m.clone()),
        }
    }
}

/// What is known of a container.
#[derive(Debug, Clone)]
pub struct YoukiContainerInfo {
    pub id: String,
    pub name: String,
    pub status: ContainerStatus,
    pub created_at: std::time::Instant,
    /// The handle of the running container.
    pub container: Option<String>,
    pub algorithm: String,
    /// The container's bundle directory.
    pub bundle_path: String,
    pub pid: Option<u32>,
}

impl YoukiContainerInfo {
    /// A copy of this record.
    pub fn duplicate(&self) -> (r: YoukiContainerInfo)
        ensures
            r == *self,
    {
        YoukiContainerInfo {
            id: self.id.clone(),
            name: self.name.clone(),
            status: self.status.duplicate(),
            created_at: self.created_at,
            container: match &self.container {
                Some(c) => Some(c.clone()),
                None => None,
            },
            algorithm: self.algorithm.clone(),
            bundle_path: self.bundle_path.clone(),
            pid: self.pid,
        }
    }
}

/// A path joined with a name: separated by one `/` unless the path is empty or
/// already ends with one.
pub open spec fn joined_path(dir: Seq<char>, name: Seq<char>) -> Seq<char> {
    if dir.len() == 0 {
        name
    } else if dir.last() == '/' {
        dir + name
    } else {
        dir + "/"@ + name
    }
}

/// A path joined with a name.
pub fn join_path(dir: &str, name: &str) -> (s: String)
    ensures
        s@ == joined_path(dir@, name@),
{
    let n = dir.unicode_len();
    if n == 0 {
        return String::from_str(name);
    }
    let mut s = String::from_str(dir);
    if dir.get_char(n - 1) != '/' {
        s.append("/");
    }
    s.append(name);
    s
}

/// The containers of this node.
pub struct YoukiContainerManager {
    active_containers: StringMap<YoukiContainerInfo>,
    runtime_dir: String,
    default_memory_limit: u64,
    /// Thousandths of a CPU.
    default_cpu_limit_millis: u64,
}

/// A new container's id for a unique suffix.
pub open spec fn container_id_for(suffix: Seq<char>) -> Seq<char> {
    "edge-compute-"@ + suffix
}

impl YoukiContainerManager {
    pub closed spec fn wf(&self) -> bool {
        &&& self.active_containers.wf()
        &&& forall|k: Seq<char>| #[trigger]
            self.active_containers@.contains_key(k) ==> self.active_containers@[k].id@ == k
    }

    /// The known containers by id.
    pub closed spec fn containers(&self) -> Map<Seq<char>, YoukiContainerInfo> {
        self.active_containers@
    }

    pub closed spec fn runtime_directory(&self) -> Seq<char> {
        self.runtime_dir@
    }

    pub closed spec fn memory_limit(&self) -> u64 {
        self.default_memory_limit
    }

    pub closed spec fn cpu_limit_millis(&self) -> u64 {
        self.default_cpu_limit_millis
    }

    /// A manager for `runtime_dir` with 1 GiB and two CPUs by default.  The
    /// directory itself is created by the caller.
    pub fn new(runtime_dir: String) -> (m: YoukiContainerManager)
        ensures
            m.wf(),
            m.containers() == Map::<Seq<char>, YoukiContainerInfo>::empty(),
            m.runtime_directory() == runtime_dir@,
            m.memory_limit() == 1073741824,
            m.cpu_limit_millis() == 2000,
    {
        Self::with_limits(runtime_dir, 1073741824, 2000)
    }

    pub fn with_limits(runtime_dir: String, default_memory_limit: u64, default_cpu_limit_millis: u64) -> (m:
        YoukiContainerManager)
        ensures
            m.wf(),
            m.containers() == Map::<Seq<char>, YoukiContainerInfo>::empty(),
            m.runtime_directory() == runtime_dir@,
            m.memory_limit() == default_memory_limit,
            m.cpu_limit_millis() == default_cpu_limit_millis,
    {
        YoukiContainerManager {
            active_containers: StringMap::new(),
            runtime_dir,
            default_memory_limit,
            default_cpu_limit_millis,
        }
    }

    /// Records a new container for `algorithm`, being created, under a fresh id
    /// with its bundle directory in the runtime directory; the id is returned.
    pub fn register_container(&mut self, config: &ContainerConfig, algorithm: String) -> (id: String)
        requires
            old(self).wf(),
        ensures
            final(self).wf(),
            final(self).runtime_directory() == old(self).runtime_directory(),
            exists|suffix: Seq<char>| #[trigger] container_id_for(suffix) == id@,
            final(self).containers().dom() == old(self).containers().dom().insert(id@),
            forall|k: Seq<char>| k != id@ && #[trigger] old(self).containers().contains_key(k) ==> final(self).containers()[k]
                == old(self).containers()[k],
            ({
                let c = final(self).containers()[id@];
                &&& c.id == id
                &&& c.name@ == config.name@
                &&& c.status == ContainerStatus::Creating
                &&& c.container is None
                &&& c.algorithm == algorithm
                &&& c.bundle_path@ == joined_path(old(self).runtime_directory(), id@)
                &&& c.pid is None
            }),
    {
        let suffix = crate::error::new_record_id();
        let id = concat2("edge-compute-", suffix.as_str());
        let bundle = join_path(self.runtime_dir.as_str(), id.as_str());
        let info = YoukiContainerInfo {
            id: id.clone(),
            name: config.name.clone(),
            status: ContainerStatus::Creating,
            created_at: std::time::Instant::now(),
            container: None,
            algorithm,
            bundle_path: bundle,
            pid: None,
        };
        self.active_containers.insert(id.clone(), info);
        assert(container_id_for(suffix@) == id@);
        id
    }

    /// The container's directories are in place: it runs.
    pub fn container_started(&mut self, container_id: &str)
        requires
            old(self).wf(),
        ensures
            final(self).wf(),
            final(self).runtime_directory() == old(self).runtime_directory(),
            !old(self).containers().contains_key(container_id@) ==> final(self).containers() == old(self).containers(),
            old(self).containers().contains_key(container_id@) ==> final(self).containers() == old(self).containers().insert(
                container_id@,
                YoukiContainerInfo {
                    status: ContainerStatus::Running,
                    container: Some(final(self).containers()[container_id@].container->0),
                    ..old(self).containers()[container_id@]
                },
            ),
            old(self).containers().contains_key(container_id@) ==> (final(self).containers()[container_id@].container matches Some(
                h,
            ) && h@ == container_id@),
    {
        match self.active_containers.take(container_id) {
            Some(info) => {
                let updated = YoukiContainerInfo {
                    status: ContainerStatus::Running,
                    container: Some(String::from_str(container_id)),
                    ..info
                };
                self.active_containers.insert(String::from_str(container_id), updated);
            },
            None => {},
        }
    }

    /// Stops a container.
    pub fn stop_container(&mut self, container_id: &str) -> (r: Result<(), String>)
        requires
            old(self).wf(),
        ensures
            final(self).wf(),
            final(self).runtime_directory() == old(self).runtime_directory(),
            !old(self).containers().contains_key(container_id@) ==> (r matches Err(e) && e@ == "Container not found"@),
            !old(self).containers().contains_key(container_id@) ==> final(self).containers() == old(self).containers(),
            old(self).containers().contains_key(container_id@) ==> r is Ok && final(self).containers()
                == old(self).containers().insert(
                container_id@,
                YoukiContainerInfo { status: ContainerStatus::Stopped, ..old(self).containers()[container_id@] },
            ),
    {
        match self.active_containers.take(container_id) {
            Some(info) => {
                let updated = YoukiContainerInfo { status: ContainerStatus::Stopped, ..info };
                self.active_containers.insert(String::from_str(container_id), updated);
                Ok(())
            },
            None => Err(String::from_str("Container not found")),
        }
    }

    /// Forgets a container; its bundle directory is returned for removal.
    pub fn destroy_container(&mut self, container_id: &str) -> (r: Result<String, String>)
        requires
            old(self).wf(),
        ensures
            final(self).wf(),
            final(self).runtime_directory() == old(self).runtime_directory(),
            final(self).containers() == old(self).containers().remove(container_id@),
            old(self).containers().contains_key(container_id@) ==> (r matches Ok(p) && p
                == old(self).containers()[container_id@].bundle_path),
            !old(self).containers().contains_key(container_id@) ==> (r matches Err(e) && e@ == "Container not found"@),
    {
        let _ = self.stop_container(container_id);
        match self.active_containers.take(container_id) {
            Some(info) => Ok(info.bundle_path),
            None => Err(String::from_str("Container not found")),
        }
    }

    pub fn get_container_status(&self, container_id: &str) -> (r: Result<ContainerStatus, String>)
        requires
            self.wf(),
        ensures
            self.containers().contains_key(container_id@) ==> r == Ok::<ContainerStatus, String>(
                self.containers()[container_id@].status,
            ),
            !self.containers().contains_key(container_id@) ==> (r matches Err(e) && e@ == "Container not found"@),
    {
        match self.active_containers.get(container_id) {
            Some(info) => Ok(info.status.duplicate()),
            None => Err(String::from_str("Container not found")),
        }
    }

    /// The known containers.
    pub fn list_containers(&self) -> (v: Vec<YoukiContainerInfo>)
        requires
            self.wf(),
        ensures
            v@.len() == self.containers().dom().len(),
            forall|i: int| 0 <= i < v@.len() ==> self.containers().contains_key(#[trigger] v@[i].id@)
                && self.containers()[v@[i].id@] == v@[i],
    {
        proof {
            self.active_containers.lemma_enumeration();
        }
        let n = self.active_containers.len();
        let mut v: Vec<YoukiContainerInfo> = Vec::new();
        let mut i: usize = 0;
        while i < n
            invariant
                self.active_containers.wf(),
                n == self.active_containers.key_seq().len(),
                i <= n,
                v@.len() == i,
                forall|j: int| 0 <= j < i ==> #[trigger] v@[j] == self.active_containers@[self.active_containers.key_seq()[j]],
                forall|j: int| 0 <= j < i ==> (#[trigger] v@[j]).id@ == self.active_containers.key_seq()[j],
                forall|k: Seq<char>| #[trigger] self.active_containers@.contains_key(k) ==> self.active_containers@[k].id@
                    == k,
            decreases n - i,
        {
            let info = self.active_containers.value_at(i);
            v.push(info.duplicate());
            proof {
                self.active_containers.lemma_enumeration();
                assert(self.active_containers.key_seq().contains(self.active_containers.key_seq()[i as int]));
                assert(self.active_containers@.contains_key(self.active_containers.key_seq()[i as int]));
            }
            i += 1;
        }
        v
    }
}


/// Builds a container manager.
pub struct YoukiContainerManagerBuilder {
    pub runtime_dir: String,
    pub memory_limit: Option<u64>,
    /// Thousandths of a CPU.
    pub cpu_limit_millis: Option<u64>,
}

impl YoukiContainerManagerBuilder {
    /// Runtime directory ./runtime, no limits set.
    pub fn new() -> (b: YoukiContainerManagerBuilder)
        ensures
            b.runtime_dir@ == "./runtime"@,
            b.memory_limit is None,
            b.cpu_limit_millis is None,
    {
        YoukiContainerManagerBuilder { runtime_dir: String::from_str("./runtime"), memory_limit: None, cpu_limit_millis: None }
    }

    pub fn runtime_dir(self, dir: String) -> (b: YoukiContainerManagerBuilder)
        ensures
            b == (YoukiContainerManagerBuilder { runtime_dir: dir, ..self }),
    {
        YoukiContainerManagerBuilder { runtime_dir: dir, ..self }
    }

    pub fn memory_limit(self, limit: u64) -> (b: YoukiContainerManagerBuilder)
        ensures
            b == (YoukiContainerManagerBuilder { memory_limit: Some(limit), ..self }),
    {
        YoukiContainerManagerBuilder { memory_limit: Some(limit), ..self }
    }

    pub fn cpu_limit(self, limit_millis: u64) -> (b: YoukiContainerManagerBuilder)
        ensures
            b == (YoukiContainerManagerBuilder { cpu_limit_millis: Some(limit_millis), ..self }),
    {
        YoukiContainerManagerBuilder { cpu_limit_millis: Some(limit_millis), ..self }
    }

    /// A manager for the chosen directory with the limits set here; a limit left
    /// unset is the default (1 GiB, two CPUs).
    pub fn build(self) -> (m: YoukiContainerManager)
        ensures
            m.wf(),
            m.containers() == Map::<Seq<char>, YoukiContainerInfo>::empty(),
            m.runtime_directory() == self.runtime_dir@,
            m.memory_limit() == (match self.memory_limit {
                Some(l) => l,
                None => 1073741824u64,
            }),
            m.cpu_limit_millis() == (match self.cpu_limit_millis {
                Some(l) => l,
                None => 2000u64,
            }),
    {
        let memory = match self.memory_limit {
            Some(l) => l,
            None => 1073741824,
        };
        let cpu = match self.cpu_limit_millis {
            Some(l) => l,
            None => 2000,
        };
        YoukiContainerManager::with_limits(self.runtime_dir, memory, cpu)
    }
}

/// A registered algorithm.
#[derive(Debug, Clone)]
pub struct AlgorithmInfo {
    pub name: String,
    pub version: String,
}

/// The algorithms that can run in containers, by name.
#[derive(Debug)]
pub struct AlgorithmRegistry {
    pub algorithms: StringMap<AlgorithmInfo>,
}

/// Runs registered algorithms in containers.
pub struct ContainerizedAlgorithmExecutor {
    algorithm_registry: AlgorithmRegistry,
}

impl ContainerizedAlgorithmExecutor {
    pub closed spec fn wf(&self) -> bool {
        self.algorithm_registry.algorithms.wf()
    }

    pub closed spec fn algorithms(&self) -> Map<Seq<char>, AlgorithmInfo> {
        self.algorithm_registry.algorithms@
    }

    pub fn new() -> (e: ContainerizedAlgorithmExecutor)
        ensures
            e.wf(),
            e.algorithms() == Map::<Seq<char>, AlgorithmInfo>::empty(),
    {
        ContainerizedAlgorithmExecutor { algorithm_registry: AlgorithmRegistry { algorithms: StringMap::new() } }
    }

    /// Registers (or replaces) an algorithm under its name.
    pub fn register_algorithm(&mut self, info: AlgorithmInfo) -> (r: Result<(), String>)
        requires
            old(self).wf(),
        ensures
            final(self).wf(),
            r is Ok,
            final(self).algorithms() == old(self).algorithms().insert(info.name@, info),
    {
        let name = info.name.clone();
        self.algorithm_registry.algorithms.insert(name, info);
        Ok(())
    }

    /// Runs an algorithm; every run reports success, as the object
    /// `{"status": "success"}`.
    pub fn execute(&self, algorithm_name: &str, input: serde_json::Value) -> (r: Result<serde_json::Value, String>)
        ensures
            r matches Ok(v) && json_tree(v) == JsonTree::Object(map!["status"@ => JsonTree::Str("success"@)]),
    {
        let mut fields: Vec<(String, JsonField)> = Vec::new();
        fields.push((String::from_str("status"), JsonField::Text(String::from_str("success"))));
        proof {
            reveal_with_fuel(fields_tree, 2);
            assert(report_view(fields@).drop_last() =~= Seq::<(Seq<char>, JsonVal)>::empty());
            assert(fields_tree(report_view(fields@)) =~= map!["status"@ => JsonTree::Str("success"@)]);
        }
        Ok(json_object(&fields))
    }
}

/// A request to create a container.
#[derive(Debug, Clone)]
pub struct CreateContainerRequest {
    pub algorithm: String,
    pub config: ContainerConfig,
}

fn field(key: &str, value: &str) -> (f: (String, JsonField))
    ensures
        f.0@ == key@,
        f.1.view() == JsonVal::Text(value@),
{
    (String::from_str(key), JsonField::Text(String::from_str(value)))
}

/// The body answering a container request that was accepted: the container,
/// what it is doing, and a message.
pub fn container_action_report(container_id: &str, status: &str, message: &str) -> (r: Vec<(String, JsonField)>)
    ensures
        report_view(r@) == seq![
            ("container_id"@, JsonVal::Text(container_id@)),
            ("status"@, JsonVal::Text(status@)),
            ("message"@, JsonVal::Text(message@)),
        ],
{
    let mut r: Vec<(String, JsonField)> = Vec::new();
    r.push(field("container_id", container_id));
    r.push(field("status", status));
    r.push(field("message", message));
    assert(report_view(r@) =~= seq![
        ("container_id"@, JsonVal::Text(container_id@)),
        ("status"@, JsonVal::Text(status@)),
        ("message"@, JsonVal::Text(message@)),
    ]);
    r
}

/// The body describing a container: its id, state, creation time and algorithm.
pub fn container_status_report(container_id: &str, status: &str, created_at: &str, algorithm: &str) -> (r: Vec<
    (String, JsonField),
>)
    ensures
        report_view(r@) == seq![
            ("container_id"@, JsonVal::Text(container_id@)),
            ("status"@, JsonVal::Text(status@)),
            ("created_at"@, JsonVal::Text(created_at@)),
            ("algorithm"@, JsonVal::Text(algorithm@)),
        ],
{
    let mut r: Vec<(String, JsonField)> = Vec::new();
    r.push(field("container_id", container_id));
    r.push(field("status", status));
    r.push(field("created_at", created_at));
    r.push(field("algorithm", algorithm));
    assert(report_view(r@) =~= seq![
        ("container_id"@, JsonVal::Text(container_id@)),
        ("status"@, JsonVal::Text(status@)),
        ("created_at"@, JsonVal::Text(created_at@)),
        ("algorithm"@, JsonVal::Text(algorithm@)),
    ]);
    r
}

} // verus!
