//! Machine-learning execution: devices, the model cache, input preparation
//! that works on whole numbers, and the admission and routing of inferences.
use vstd::prelude::*;
use crate::error::EdgeComputeError;
use crate::string_map::{chars_of, StringMap};
use crate::text::{concat2, concat3, decimal, decimal_string};
use crate::time::{elapsed_between, elapsed_ms};
use crate::encryption::base64_decode;
use crate::security::base64_standard_decoded;

verus! {

/// A compute device as candle knows it.
#[verifier::external_type_specification]
#[verifier::external_body]
pub struct ExCandleDevice(candle_core::Device);

/// Whether a candle device is the processor (`Device::Cpu`).
pub uninterp spec fn is_cpu_device(d: candle_core::Device) -> bool;

/// `candle_core::Device::Cpu`: the processor.
#[verifier::external_body]
fn candle_cpu() -> (d: candle_core::Device)
    ensures
        is_cpu_device(d),
{
    candle_core::Device::Cpu
}

/// A kind of compute device.
#[derive(Debug, Clone, Copy, PartialEq, Eq, Structural)]
pub enum DeviceType {
    Cpu,
    Cuda(usize),
    Metal(usize),
}

/// A configuration error with this message, raised by this component.
pub open spec fn is_config_error(e: EdgeComputeError, message: Seq<char>, source: Seq<char>) -> bool {
    match e {
        EdgeComputeError::Config { message: m, source: Some(s) } => m@ == message && s@ == source,
        _ => false,
    }
}

/// The error of asking for a device of this kind: GPU support is not built in.
pub open spec fn device_error(d: DeviceType, e: EdgeComputeError) -> bool {
    match d {
        DeviceType::Cpu => false,
        DeviceType::Cuda(_) => is_config_error(e, "CUDA support not enabled"@, "candle-ml"@),
        DeviceType::Metal(_) => is_config_error(e, "Metal support not enabled"@, "candle-ml"@),
    }
}

impl DeviceType {
    /// The candle device: the processor; GPU support is not built in.
    pub fn to_candle_device(&self) -> (r: Result<candle_core::Device, EdgeComputeError>)
        ensures
            match r {
                Ok(d) => *self == DeviceType::Cpu && is_cpu_device(d),
                Err(e) => device_error(*self, e),
            },
    {
        match self {
            DeviceType::Cpu => Ok(candle_cpu()),
            DeviceType::Cuda(_) => Err(
                EdgeComputeError::Config {
                    message: String::from_str("CUDA support not enabled"),
                    source: Some(String::from_str("candle-ml")),
                },
            ),
            DeviceType::Metal(_) => Err(
                EdgeComputeError::Config {
                    message: String::from_str("Metal support not enabled"),
                    source: Some(String::from_str("candle-ml")),
                },
            ),
        }
    }
}

/// What is known of a device.
#[derive(Debug, Clone)]
pub struct DeviceInfo {
    pub device_type: DeviceType,
    pub name: String,
    pub available: bool,
    pub memory_mb: Option<u64>,
    pub compute_capability: Option<String>,
}

impl DeviceInfo {
    pub fn duplicate(&self) -> (r: DeviceInfo)
        ensures
            r == *self,
    {
        DeviceInfo {
            device_type: self.device_type,
            name: self.name.clone(),
            available: self.available,
            memory_mb: self.memory_mb,
            compute_capability: match &self.compute_capability {
                Some(c) => Some(c.clone()),
                None => None,
            },
        }
    }
}

/// Settings of the device manager.
#[derive(Debug, Clone, Copy)]
pub struct DeviceManagerConfig {
    pub default_device: DeviceType,
    pub auto_select_device: bool,
    pub max_concurrent_devices: usize,
}

impl DeviceManagerConfig {
    /// The processor by default, automatic selection, four devices at once.
    pub fn default() -> (c: DeviceManagerConfig)
        ensures
            c.default_device == DeviceType::Cpu,
            c.auto_select_device,
            c.max_concurrent_devices == 4,
    {
        DeviceManagerConfig { default_device: DeviceType::Cpu, auto_select_device: true, max_concurrent_devices: 4 }
    }
}

/// The devices of this node and how many jobs use each.
pub struct DeviceManager {
    config: DeviceManagerConfig,
    devices: StringMap<DeviceInfo>,
    device_usage: StringMap<usize>,
}

impl DeviceManager {
    pub closed spec fn wf(&self) -> bool {
        &&& self.devices.wf()
        &&& self.device_usage.wf()
        &&& forall|k: Seq<char>| #[trigger] self.device_usage@.contains_key(k) ==> self.device_usage@[k] > 0
    }

    pub closed spec fn configuration(&self) -> DeviceManagerConfig {
        self.config
    }

    pub closed spec fn devices(&self) -> Map<Seq<char>, DeviceInfo> {
        self.devices@
    }

    /// Jobs using each device; devices in no use are absent.
    pub closed spec fn usage(&self) -> Map<Seq<char>, usize> {
        self.device_usage@
    }

    /// A manager knowing the processor, named "cpu".
    pub fn new(config: DeviceManagerConfig) -> (m: DeviceManager)
        ensures
            m.wf(),
            m.configuration() == config,
            m.devices().dom() == set!["cpu"@],
            m.devices()["cpu"@].device_type == DeviceType::Cpu,
            m.devices()["cpu"@].name@ == "CPU"@,
            m.devices()["cpu"@].available,
            m.devices()["cpu"@].memory_mb is None,
            m.devices()["cpu"@].compute_capability is None,
            m.usage() == Map::<Seq<char>, usize>::empty(),
    {
        let mut devices: StringMap<DeviceInfo> = StringMap::new();
        devices.insert(
            String::from_str("cpu"),
            DeviceInfo {
                device_type: DeviceType::Cpu,
                name: String::from_str("CPU"),
                available: true,
                memory_mb: None,
                compute_capability: None,
            },
        );
        assert(devices@.dom() =~= set!["cpu"@]);
        DeviceManager { config, devices, device_usage: StringMap::new() }
    }

    /// The kind of the configured default device.
    pub fn default_device_type(&self) -> (d: DeviceType)
        ensures
            d == self.configuration().default_device,
    {
        self.config.default_device
    }

    /// The configured default device.
    pub fn get_default_device(&self) -> (r: Result<candle_core::Device, EdgeComputeError>)
        ensures
            match r {
                Ok(_) => self.configuration().default_device == DeviceType::Cpu,
                Err(e) => device_error(self.configuration().default_device, e),
            },
    {
        self.config.default_device.to_candle_device()
    }

    /// The best device: without GPU support built in, the default one.
    pub fn select_best_device(&self) -> (r: Result<candle_core::Device, EdgeComputeError>)
        ensures
            match r {
                Ok(_) => self.configuration().default_device == DeviceType::Cpu,
                Err(e) => device_error(self.configuration().default_device, e),
            },
    {
        self.get_default_device()
    }

    pub fn get_device_info(&self, device_name: &str) -> (r: Option<DeviceInfo>)
        requires
            self.wf(),
        ensures
            match r {
                Some(d) => self.devices().contains_key(device_name@) && d == self.devices()[device_name@],
                None => !self.devices().contains_key(device_name@),
            },
    {
        match self.devices.get(device_name) {
            Some(d) => Some(d.duplicate()),
            None => None,
        }
    }

    pub fn list_devices(&self) -> (v: Vec<DeviceInfo>)
        requires
            self.wf(),
        ensures
            v@.len() == self.devices().dom().len(),
            forall|i: int| 0 <= i < v@.len() ==> self.devices().contains_value(#[trigger] v@[i]),
    {
        proof {
            self.devices.lemma_enumeration();
        }
        let n = self.devices.len();
        let mut v: Vec<DeviceInfo> = Vec::new();
        let mut i: usize = 0;
        while i < n
            invariant
                self.devices.wf(),
                n == self.devices.key_seq().len(),
                self.devices@.dom() == self.devices.key_seq().to_set(),
                i <= n,
                v@.len() == i,
                forall|j: int| 0 <= j < i ==> #[trigger] v@[j] == self.devices@[self.devices.key_seq()[j]],
            decreases n - i,
        {
            v.push(self.devices.value_at(i).duplicate());
            i += 1;
        }
        proof {
            assert forall|j: int| 0 <= j < v@.len() implies self.devices().contains_value(#[trigger] v@[j]) by {
                let k = self.devices.key_seq()[j];
                assert(self.devices.key_seq().contains(k));
                assert(self.devices().contains_key(k));
            }
        }
        v
    }

    /// Jobs using a device.
    pub fn get_device_usage(&self, device_name: &str) -> (n: usize)
        requires
            self.wf(),
        ensures
            n == (if self.usage().contains_key(device_name@) { self.usage()[device_name@] } else { 0 }),
    {
        match self.device_usage.get(device_name) {
            Some(c) => *c,
            None => 0,
        }
    }

    /// One more job uses a device.
    pub fn increment_device_usage(&mut self, device_name: &str)
        requires
            old(self).wf(),
            old(self).usage().contains_key(device_name@) ==> old(self).usage()[device_name@] < usize::MAX,
        ensures
            final(self).wf(),
            final(self).configuration() == old(self).configuration(),
            final(self).devices() == old(self).devices(),
            final(self).usage() == old(self).usage().insert(
                device_name@,
                (if old(self).usage().contains_key(device_name@) {
                    old(self).usage()[device_name@] + 1
                } else {
                    1
                }) as usize,
            ),
    {
        let c = match self.device_usage.get(device_name) {
            Some(c) => *c,
            None => 0,
        };
        self.device_usage.insert(String::from_str(device_name), c + 1);
    }

    /// One job fewer uses a device; a device in no use is forgotten.
    pub fn decrement_device_usage(&mut self, device_name: &str)
        requires
            old(self).wf(),
        ensures
            final(self).wf(),
            final(self).configuration() == old(self).configuration(),
            final(self).devices() == old(self).devices(),
            !old(self).usage().contains_key(device_name@) ==> final(self).usage() == old(self).usage(),
            old(self).usage().contains_key(device_name@) && old(self).usage()[device_name@] == 1
                ==> final(self).usage() == old(self).usage().remove(device_name@),
            old(self).usage().contains_key(device_name@) && old(self).usage()[device_name@] > 1
                ==> final(self).usage() == old(self).usage().insert(
                device_name@,
                (old(self).usage()[device_name@] - 1) as usize,
            ),
    {
        let c = match self.device_usage.get(device_name) {
            Some(c) => *c,
            None => {
                return;
            },
        };
        if c <= 1 {
            let _ = self.device_usage.take(device_name);
        } else {
            self.device_usage.insert(String::from_str(device_name), c - 1);
        }
    }
}

/// A job using a device and ending leaves its use count as before.
pub proof fn lemma_usage_round_trip(before: Map<Seq<char>, usize>, name: Seq<char>)
    requires
        forall|k: Seq<char>| #[trigger] before.contains_key(k) ==> before[k] > 0,
        before.contains_key(name) ==> before[name] < usize::MAX,
    ensures
        ({
            let mid = before.insert(
                name,
                (if before.contains_key(name) { before[name] + 1 } else { 1 }) as usize,
            );
            let after = if mid[name] == 1 {
                mid.remove(name)
            } else {
                mid.insert(name, (mid[name] - 1) as usize)
            };
            after == before
        }),
{
    let mid = before.insert(name, (if before.contains_key(name) { before[name] + 1 } else { 1 }) as usize);
    if mid[name] == 1 {
        assert(mid.remove(name) =~= before);
    } else {
        assert(mid.insert(name, (mid[name] - 1) as usize) =~= before);
    }
}

/// What a model does.
#[derive(Debug, Clone)]
pub enum ModelType {
    TextGeneration,
    ImageClassification,
    SpeechRecognition,
    Multimodal,
    Other(String),
}

/// The name under which a model type is counted.
pub open spec fn model_type_label(t: ModelType) -> Seq<char> {
    match t {
        ModelType::TextGeneration => "text_generation"@,
        ModelType::ImageClassification => "image_classification"@,
        ModelType::SpeechRecognition => "speech_recognition"@,
        ModelType::Multimodal => "multimodal"@,
        ModelType::Other(name) => name@,
    }
}

impl ModelType {
    pub fn duplicate(&self) -> (r: ModelType)
        ensures
            r == *self,
    {
        match self {
            ModelType::TextGeneration => ModelType::TextGeneration,
            ModelType::ImageClassification => ModelType::ImageClassification,
            ModelType::SpeechRecognition => ModelType::SpeechRecognition,
            ModelType::Multimodal => ModelType::Multimodal,
            ModelType::Other(name) => ModelType::Other(name.clone()),
        }
    }

    pub fn label(&self) -> (s: String)
        ensures
            s@ == model_type_label(*self),
    {
        match self {
            ModelType::TextGeneration => String::from_str("text_generation"),
            ModelType::ImageClassification => String::from_str("image_classification"),
            ModelType::SpeechRecognition => String::from_str("speech_recognition"),
            ModelType::Multimodal => String::from_str("multimodal"),
            ModelType::Other(name) => name.clone(),
        }
    }
}

/// A model held in the cache.  Times are milliseconds of the monotonic clock.
#[derive(Debug)]
pub struct ModelInfo {
    pub model_id: String,
    pub model_name: String,
    pub model_path: String,
    pub model_type: ModelType,
    pub device: DeviceType,
    pub loaded_at_ms: u64,
    pub last_used_ms: u64,
    pub usage_count: u64,
}

impl ModelInfo {
    pub fn duplicate(&self) -> (r: ModelInfo)
        ensures
            r == *self,
    {
        ModelInfo {
            model_id: self.model_id.clone(),
            model_name: self.model_name.clone(),
            model_path: self.model_path.clone(),
            model_type: self.model_type.duplicate(),
            device: self.device,
            loaded_at_ms: self.loaded_at_ms,
            last_used_ms: self.last_used_ms,
            usage_count: self.usage_count,
        }
    }
}

/// Settings of the model cache.
#[derive(Debug, Clone, Copy)]
pub struct ModelCacheConfig {
    pub max_cached_models: usize,
    pub model_ttl_seconds: u64,
    pub enable_auto_cleanup: bool,
    pub cleanup_interval_seconds: u64,
}

impl ModelCacheConfig {
    /// Ten models, kept for an hour, swept every five minutes.
    pub fn default() -> (c: ModelCacheConfig)
        ensures
            c.max_cached_models == 10,
            c.model_ttl_seconds == 3600,
            c.enable_auto_cleanup,
            c.cleanup_interval_seconds == 300,
    {
        ModelCacheConfig {
            max_cached_models: 10,
            model_ttl_seconds: 3600,
            enable_auto_cleanup: true,
            cleanup_interval_seconds: 300,
        }
    }
}

/// The last component of a file path, as `std::path::Path::file_name` gives it.
pub uninterp spec fn path_file_name(path: Seq<char>) -> Option<Seq<char>>;

/// `std::path::Path::file_name` on a path given as text, the name turned back
/// into text.  Claimed: the result is `path_file_name` of the path.
#[verifier::external_body]
fn file_name_of(path: &str) -> (r: Option<String>)
    ensures
        match r {
            Some(n) => path_file_name(path@) == Some(n@),
            None => path_file_name(path@) is None,
        },
{
    std::path::Path::new(path).file_name().map(|n| n.to_string_lossy().into_owned())
}

/// The name a model is listed under: its file's name, else "unknown".
pub fn model_name_from(file_name: Option<String>) -> (s: String)
    ensures
        s@ == match file_name {
            Some(n) => n@,
            None => "unknown"@,
        },
{
    match file_name {
        Some(n) => n,
        None => String::from_str("unknown"),
    }
}

/// The name a model stored at `path` is listed under.
pub open spec fn model_name_of(path: Seq<char>) -> Seq<char> {
    match path_file_name(path) {
        Some(n) => n,
        None => "unknown"@,
    }
}

/// `k` is a model that was used least recently.
pub open spec fn is_oldest(m: Map<Seq<char>, ModelInfo>, k: Seq<char>) -> bool {
    &&& m.contains_key(k)
    &&& forall|j: Seq<char>| #[trigger] m.contains_key(j) ==> m[k].last_used_ms <= m[j].last_used_ms
}

/// The models that `now_ms` finds unused for longer than `ttl_seconds`.
pub open spec fn is_expired(info: ModelInfo, ttl_seconds: u64, now_ms: u64) -> bool {
    elapsed_ms(now_ms, info.last_used_ms) > ttl_seconds * 1000
}

/// How often the models of a cache were used, in all.
pub open spec fn usage_total(m: Map<Seq<char>, ModelInfo>) -> int {
    m.dom().fold(0int, |acc: int, k: Seq<char>| acc + m[k].usage_count)
}

/// The models of a cache whose type carries this label.
pub open spec fn models_of_type(m: Map<Seq<char>, ModelInfo>, label: Seq<char>) -> Set<Seq<char>> {
    m.dom().filter(|k: Seq<char>| model_type_label(m[k].model_type) == label)
}

/// The error of loading a model from a file that is not there.
pub open spec fn missing_model_error(e: EdgeComputeError, path: Seq<char>) -> bool {
    match e {
        EdgeComputeError::Io { message, operation: Some(op), path: Some(p) } => {
            &&& message@ == "Model file not found: \""@ + path + "\""@
            &&& op@ == "load_model"@
            &&& p@ == path
        },
        _ => false,
    }
}

/// Statistics of the model cache.
#[derive(Debug)]
pub struct ModelManagerStats {
    pub total_models: usize,
    pub total_usage: u64,
    /// Models per type label.
    pub models_by_type: StringMap<usize>,
}

/// The model cache: models by id, the least recently used one giving way when it is full.
pub struct ModelManager {
    config: ModelCacheConfig,
    models: StringMap<ModelInfo>,
}

impl ModelManager {
    pub closed spec fn wf(&self) -> bool {
        self.models.wf()
    }

    pub closed spec fn configuration(&self) -> ModelCacheConfig {
        self.config
    }

    pub closed spec fn models(&self) -> Map<Seq<char>, ModelInfo> {
        self.models@
    }

    pub fn new(config: ModelCacheConfig) -> (m: ModelManager)
        ensures
            m.wf(),
            m.configuration() == config,
            m.models() == Map::<Seq<char>, ModelInfo>::empty(),
    {
        ModelManager { config, models: StringMap::new() }
    }

    /// The key of a least recently used model, if there is any.
    fn oldest_model(&self) -> (r: Option<String>)
        requires
            self.wf(),
        ensures
            match r {
                Some(k) => is_oldest(self.models(), k@),
                None => self.models().dom().is_empty(),
            },
    {
        proof {
            self.models.lemma_enumeration();
        }
        let n = self.models.len();
        if n == 0 {
            proof {
                assert(self.models@.dom() =~= Set::empty());
            }
            return None;
        }
        let mut best: usize = 0;
        let mut i: usize = 1;
        while i < n
            invariant
                self.models.wf(),
                n == self.models.key_seq().len(),
                n == self.models.val_seq().len(),
                forall|j: int| 0 <= j < n ==> #[trigger] self.models@[self.models.key_seq()[j]]
                    == self.models.val_seq()[j],
                1 <= i <= n,
                best < i,
                forall|j: int| 0 <= j < i ==> self.models.val_seq()[best as int].last_used_ms
                    <= #[trigger] self.models.val_seq()[j].last_used_ms,
            decreases n - i,
        {
            if self.models.value_at(i).last_used_ms < self.models.value_at(best).last_used_ms {
                best = i;
            }
            i += 1;
        }
        let k = self.models.key_at(best).clone();
        proof {
            let ks = self.models.key_seq();
            assert(ks[best as int] == k@);
            assert(ks.contains(k@));
            assert forall|j: Seq<char>| #[trigger] self.models@.contains_key(j) implies self.models@[k@].last_used_ms
                <= self.models@[j].last_used_ms by {
                let x = ks.index_of(j);
                assert(ks.contains(j));
                assert(ks[x] == j);
                assert(self.models@[ks[x]] == self.models.val_seq()[x]);
            }
        }
        Some(k)
    }

    /// Loads the model stored at `model_path` (which `file_exists` says is there) on
    /// the best device, at time `now_ms`.  A full cache first drops a least recently
    /// used model.
    pub fn load_model(
        &mut self,
        devices: &DeviceManager,
        model_id: String,
        model_path: String,
        model_type: ModelType,
        file_exists: bool,
        now_ms: u64,
    ) -> (r: Result<(), EdgeComputeError>)
        requires
            old(self).wf(),
        ensures
            final(self).wf(),
            final(self).configuration() == old(self).configuration(),
            match r {
                Err(e) => {
                    &&& final(self).models() == old(self).models()
                    &&& if !file_exists {
                        missing_model_error(e, model_path@)
                    } else {
                        device_error(devices.configuration().default_device, e)
                    }
                },
                Ok(_) => {
                    let info = ModelInfo {
                        model_id,
                        model_name: final(self).models()[model_id@].model_name,
                        model_path,
                        model_type,
                        device: DeviceType::Cpu,
                        loaded_at_ms: now_ms,
                        last_used_ms: now_ms,
                        usage_count: 0,
                    };
                    &&& file_exists
                    &&& devices.configuration().default_device == DeviceType::Cpu
                    &&& 1 <= old(self).configuration().max_cached_models && old(self).models().dom().len()
                        <= old(self).configuration().max_cached_models ==> final(self).models().dom().len()
                        <= old(self).configuration().max_cached_models
                    &&& info.model_name@ == model_name_of(model_path@)
                    &&& if old(self).models().dom().len() >= old(self).configuration().max_cached_models
                        && !old(self).models().dom().is_empty() {
                        exists|k: Seq<char>|
                            is_oldest(old(self).models(), k) && final(self).models() == #[trigger] old(
                                self,
                            ).models().remove(k).insert(model_id@, info)
                    } else {
                        final(self).models() == old(self).models().insert(model_id@, info)
                    }
                },
            },
    {
        if !file_exists {
            let message = concat3("Model file not found: \"", model_path.as_str(), "\"");
            return Err(
                EdgeComputeError::Io {
                    message,
                    operation: Some(String::from_str("load_model")),
                    path: Some(model_path),
                },
            );
        }
        match devices.select_best_device() {
            Err(e) => {
                return Err(e);
            },
            Ok(_) => {},
        }
        let model_name = model_name_from(file_name_of(model_path.as_str()));
        let info = ModelInfo {
            model_id: model_id.clone(),
            model_name,
            model_path,
            model_type,
            device: devices.default_device_type(),
            loaded_at_ms: now_ms,
            last_used_ms: now_ms,
            usage_count: 0,
        };
        let ghost before = self.models@;
        proof {
            self.models.lemma_enumeration();
        }
        if self.models.len() >= self.config.max_cached_models {
            match self.oldest_model() {
                Some(k) => {
                    let _ = self.models.take(k.as_str());
                    self.models.insert(model_id, info);
                    proof {
                        assert(is_oldest(before, k@));
                        assert(self.models@ == before.remove(k@).insert(model_id@, self.models@[model_id@]));
                        assert(before.remove(k@).dom() =~= before.dom().remove(k@));
                        assert(self.models@.dom() =~= before.dom().remove(k@).insert(model_id@));
                    }
                },
                None => {
                    self.models.insert(model_id, info);
                    proof {
                        assert(self.models@.dom() =~= before.dom().insert(model_id@));
                    }
                },
            }
        } else {
            self.models.insert(model_id, info);
            proof {
                assert(self.models@.dom() =~= before.dom().insert(model_id@));
            }
        }
        Ok(())
    }

    /// The model with this id, marked as used at `now_ms`.
    pub fn get_model(&mut self, model_id: &str, now_ms: u64) -> (r: Option<ModelInfo>)
        requires
            old(self).wf(),
            old(self).models().contains_key(model_id@) ==> old(self).models()[model_id@].usage_count < u64::MAX,
        ensures
            final(self).wf(),
            final(self).configuration() == old(self).configuration(),
            match r {
                Some(m) => {
                    let was = old(self).models()[model_id@];
                    &&& old(self).models().contains_key(model_id@)
                    &&& m == ModelInfo { last_used_ms: now_ms, usage_count: (was.usage_count + 1) as u64, ..was }
                    &&& final(self).models() == old(self).models().insert(model_id@, m)
                },
                None => !old(self).models().contains_key(model_id@) && final(self).models() == old(
                    self,
                ).models(),
            },
    {
        match self.models.take(model_id) {
            None => None,
            Some(m) => {
                let mut m = m;
                m.last_used_ms = now_ms;
                m.usage_count = m.usage_count + 1;
                let copy = m.duplicate();
                self.models.insert(String::from_str(model_id), m);
                proof {
                    assert(self.models@ =~= old(self).models@.insert(model_id@, copy));
                }
                Some(copy)
            },
        }
    }

    /// How often the model with this id was used, if it is cached.
    pub fn usage_of(&self, model_id: &str) -> (r: Option<u64>)
        requires
            self.wf(),
        ensures
            match r {
                Some(n) => self.models().contains_key(model_id@) && n == self.models()[model_id@].usage_count,
                None => !self.models().contains_key(model_id@),
            },
    {
        match self.models.get(model_id) {
            Some(m) => Some(m.usage_count),
            None => None,
        }
    }

    /// Drops the model with this id, if it is there.
    pub fn unload_model(&mut self, model_id: &str) -> (r: Result<(), EdgeComputeError>)
        requires
            old(self).wf(),
        ensures
            final(self).wf(),
            final(self).configuration() == old(self).configuration(),
            final(self).models() == old(self).models().remove(model_id@),
            r is Ok,
    {
        let _ = self.models.take(model_id);
        Ok(())
    }

    /// Copies of all cached models.
    pub fn list_models(&self) -> (v: Vec<ModelInfo>)
        requires
            self.wf(),
        ensures
            v@.len() == self.models().dom().len(),
            forall|i: int| 0 <= i < v@.len() ==> self.models().contains_value(#[trigger] v@[i]),
    {
        proof {
            self.models.lemma_enumeration();
        }
        let n = self.models.len();
        let mut v: Vec<ModelInfo> = Vec::new();
        let mut i: usize = 0;
        while i < n
            invariant
                self.models.wf(),
                n == self.models.key_seq().len(),
                n == self.models.val_seq().len(),
                forall|j: int| 0 <= j < n ==> #[trigger] self.models@[self.models.key_seq()[j]]
                    == self.models.val_seq()[j],
                i <= n,
                v@.len() == i,
                forall|j: int| 0 <= j < i ==> #[trigger] v@[j] == self.models.val_seq()[j],
            decreases n - i,
        {
            v.push(self.models.value_at(i).duplicate());
            i += 1;
        }
        proof {
            assert forall|j: int| 0 <= j < v@.len() implies self.models().contains_value(#[trigger] v@[j]) by {
                let k = self.models.key_seq()[j];
                assert(self.models.key_seq().contains(k));
                assert(self.models@[k] == v@[j]);
            }
        }
        v
    }

    /// Drops every model unused for longer than the time to live, as seen at `now_ms`.
    pub fn cleanup_expired_models(&mut self, now_ms: u64)
        requires
            old(self).wf(),
        ensures
            final(self).wf(),
            final(self).configuration() == old(self).configuration(),
            final(self).models() == old(self).models().restrict(
                old(self).models().dom().filter(
                    |k: Seq<char>| !is_expired(old(self).models()[k], old(self).configuration().model_ttl_seconds, now_ms),
                ),
            ),
    {
        let ghost before = self.models@;
        let ttl = self.config.model_ttl_seconds;
        let keys = self.models.keys();
        proof {
            self.models.lemma_enumeration();
        }
        let mut i: usize = 0;
        while i < keys.len()
            invariant
                self.models.wf(),
                self.config == old(self).config,
                ttl == self.config.model_ttl_seconds,
                before == old(self).models@,
                chars_of(keys@) == old(self).models.key_seq(),
                before.dom() == old(self).models.key_seq().to_set(),
                i <= keys.len(),
                self.models@ == before.restrict(
                    before.dom().filter(
                        |k: Seq<char>| !(is_expired(before[k], ttl, now_ms) && chars_of(keys@).take(i as int).contains(k)),
                    ),
                ),
            decreases keys.len() - i,
        {
            let ghost prev = self.models@;
            let key = &keys[i];
            proof {
                assert(chars_of(keys@)[i as int] == key@);
                assert(old(self).models.key_seq().contains(key@));
            }
            let expired = match self.models.get(key.as_str()) {
                Some(m) => {
                    let d = elapsed_between(now_ms, m.last_used_ms);
                    (d as u128) > (ttl as u128) * 1000
                },
                None => false,
            };
            if expired {
                let _ = self.models.take(key.as_str());
            }
            proof {
                let t0 = chars_of(keys@).take(i as int);
                let t1 = chars_of(keys@).take(i as int + 1);
                assert(t1 =~= t0.push(key@));
                assert(prev.contains_key(key@) ==> prev[key@] == before[key@]);
                assert(self.models@ =~= before.restrict(
                    before.dom().filter(
                        |k: Seq<char>| !(is_expired(before[k], ttl, now_ms) && t1.contains(k)),
                    ),
                )) by {
                    assert forall|k: Seq<char>| t1.contains(k) <==> (t0.contains(k) || k == key@) by {
                        if t1.contains(k) {
                            let x = choose|x: int| 0 <= x < t1.len() && t1[x] == k;
                            if x < t0.len() {
                                assert(t0[x] == k);
                            }
                        }
                        if t0.contains(k) {
                            let x = choose|x: int| 0 <= x < t0.len() && t0[x] == k;
                            assert(t1[x] == k);
                        }
                        if k == key@ {
                            assert(t1[i as int] == k);
                        }
                    }
                }
            }
            i += 1;
        }
        proof {
            let ks = chars_of(keys@);
            assert(ks.take(keys@.len() as int) =~= ks);
            assert(self.models@ =~= before.restrict(
                before.dom().filter(|k: Seq<char>| !is_expired(before[k], ttl, now_ms)),
            )) by {
                assert forall|k: Seq<char>| before.contains_key(k) implies ks.contains(k) by {
                    assert(before.dom().contains(k));
                }
            }
        }
    }

    /// How many models are cached, how often they were used in all (at most
    /// `u64::MAX`), and how many there are of each type.
    pub fn get_stats(&self) -> (st: ModelManagerStats)
        requires
            self.wf(),
        ensures
            st.total_models == self.models().dom().len(),
            st.total_usage == (if usage_total(self.models()) <= u64::MAX {
                usage_total(self.models())
            } else {
                u64::MAX as int
            }),
            st.models_by_type.wf(),
            forall|l: Seq<char>|
                #![trigger st.models_by_type@.contains_key(l)]
                (st.models_by_type@.contains_key(l) <==> models_of_type(self.models(), l).len() > 0) && (
                st.models_by_type@.contains_key(l) ==> st.models_by_type@[l] == models_of_type(
                    self.models(),
                    l,
                ).len()),
    {
        proof {
            self.models.lemma_enumeration();
        }
        let ghost m = self.models@;
        let ghost ks = self.models.key_seq();
        let ghost f = |acc: int, k: Seq<char>| acc + m[k].usage_count;
        let n = self.models.len();
        let mut total: u64 = 0;
        let mut by_type: StringMap<usize> = StringMap::new();
        let mut i: usize = 0;
        proof {
            assert(ks.take(0).to_set() =~= Set::empty());
            vstd::set::fold::lemma_fold_empty(0int, f);
            assert forall|l: Seq<char>| #[trigger] models_of_type(m.restrict(ks.take(0).to_set()), l) =~= Set::empty() by {}
        }
        while i < n
            invariant
                self.models.wf(),
                m == self.models@,
                ks == self.models.key_seq(),
                ks.no_duplicates(),
                n == ks.len(),
                n == self.models.val_seq().len(),
                forall|j: int| 0 <= j < n ==> #[trigger] m[ks[j]] == self.models.val_seq()[j],
                f == (|acc: int, k: Seq<char>| acc + m[k].usage_count),
                i <= n,
                total == (if ks.take(i as int).to_set().fold(0int, f) <= u64::MAX {
                    ks.take(i as int).to_set().fold(0int, f)
                } else {
                    u64::MAX as int
                }),
                by_type.wf(),
                forall|l: Seq<char>|
                    #![trigger by_type@.contains_key(l)]
                    (by_type@.contains_key(l) <==> models_of_type(m.restrict(ks.take(i as int).to_set()), l).len() > 0)
                        && (by_type@.contains_key(l) ==> by_type@[l] == models_of_type(
                        m.restrict(ks.take(i as int).to_set()),
                        l,
                    ).len()),
            decreases n - i,
        {
            let info = self.models.value_at(i);
            let label = info.model_type.label();
            let ghost k = ks[i as int];
            let ghost s0 = ks.take(i as int).to_set();
            let ghost s1 = ks.take(i as int + 1).to_set();
            proof {
                assert(ks.take(i as int + 1) =~= ks.take(i as int).push(k));
                ks.take(i as int).lemma_push_to_set_commute(k);
                assert(s1 =~= s0.insert(k));
                assert(!s0.contains(k)) by {
                    if s0.contains(k) {
                        let x = choose|x: int| 0 <= x < i && ks.take(i as int)[x] == k;
                        assert(ks[x] == ks[i as int]);
                    }
                }
                assert(vstd::set::fold::is_fun_commutative(f)) by {
                    assert forall|a1: Seq<char>, a2: Seq<char>, b: int| #[trigger] f(f(b, a2), a1) == f(f(b, a1), a2) by {}
                }
                vstd::set::fold::lemma_fold_insert(s0, 0int, f, k);
                assert(m[k] == *info);
            }
            total = total.saturating_add(info.usage_count);
            let c = match by_type.get(label.as_str()) {
                Some(c) => *c,
                None => 0,
            };
            proof {
                let m0 = m.restrict(s0);
                let m1 = m.restrict(s1);
                assert forall|l: Seq<char>| #[trigger] models_of_type(m1, l) =~= (if l == label@ {
                    models_of_type(m0, l).insert(k)
                } else {
                    models_of_type(m0, l)
                }) by {}
                assert(models_of_type(m0, label@).subset_of(s0));
                s0.lemma_len_filter(|j: Seq<char>| true);
                assert(ks.take(i as int).to_set().len() == i) by {
                    ks.take(i as int).unique_seq_to_set();
                }
                vstd::set_lib::lemma_len_subset(models_of_type(m0, label@), s0);
                assert(c == models_of_type(m0, label@).len());
            }
            by_type.insert(label, c + 1);
            i += 1;
        }
        proof {
            assert(ks.take(n as int) =~= ks);
            assert(m.restrict(ks.to_set()) =~= m);
        }
        ModelManagerStats { total_models: n, total_usage: total, models_by_type: by_type }
    }
}

/// Settings of audio preparation.
#[derive(Debug, Clone, Copy)]
pub struct AudioPreprocessingConfig {
    pub target_sample_rate: u32,
    pub normalize: bool,
    pub convert_to_mel: bool,
    pub n_mels: usize,
    pub n_fft: usize,
    pub hop_length: usize,
}

impl AudioPreprocessingConfig {
    /// 16 kHz, normalized, as an 80-band mel spectrogram of 400-sample windows every 160 samples.
    pub fn default() -> (c: AudioPreprocessingConfig)
        ensures
            c.target_sample_rate == 16000,
            c.normalize,
            c.convert_to_mel,
            c.n_mels == 80,
            c.n_fft == 400,
            c.hop_length == 160,
    {
        AudioPreprocessingConfig {
            target_sample_rate: 16000,
            normalize: true,
            convert_to_mel: true,
            n_mels: 80,
            n_fft: 400,
            hop_length: 160,
        }
    }
}

/// Side of the square images that models take.
pub const IMAGE_SIDE: usize = 224;

/// Preparation of images.
pub struct ImagePreprocessor;

impl ImagePreprocessor {
    /// The decoded pixels: without an image decoder built in, a black 224 by 224 RGB image.
    pub fn decode_image(data: &[u8], format: &str) -> (r: Vec<u8>)
        ensures
            r@.len() == IMAGE_SIDE * IMAGE_SIDE * 3,
            forall|i: int| 0 <= i < r@.len() ==> r@[i] == 0,
    {
        vec![0u8; IMAGE_SIDE * IMAGE_SIDE * 3]
    }

    /// The image brought to `width` by `height`: without a scaler built in, black RGB pixels.
    pub fn resize_image(image: &[u8], width: usize, height: usize) -> (r: Vec<u8>)
        requires
            width * height * 3 <= usize::MAX,
        ensures
            r@.len() == width * height * 3,
            forall|i: int| 0 <= i < r@.len() ==> r@[i] == 0,
    {
        proof {
            assert(0 <= width * height <= width * height * 3) by (nonlinear_arith);
        }
        vec![0u8; width * height * 3]
    }

    /// The image as RGB: the pixels are taken as they are.
    pub fn convert_to_rgb(image: &[u8]) -> (r: Vec<u8>)
        ensures
            r@ == image@,
    {
        let mut r: Vec<u8> = Vec::new();
        let mut i: usize = 0;
        while i < image.len()
            invariant
                i <= image@.len(),
                r@ == image@.take(i as int),
            decreases image@.len() - i,
        {
            r.push(image[i]);
            proof {
                assert(image@.take(i as int + 1) =~= image@.take(i as int).push(image@[i as int]));
            }
            i += 1;
        }
        proof {
            assert(image@.take(image@.len() as int) =~= image@);
        }
        r
    }
}

/// The sample that two bytes of 16-bit little-endian PCM hold.
pub open spec fn pcm16_sample(lo: u8, hi: u8) -> int {
    let v = hi * 256 + lo;
    if v >= 32768 {
        v - 65536
    } else {
        v
    }
}

/// Preparation of audio.
pub struct AudioPreprocessor;

impl AudioPreprocessor {
    /// The samples of 16-bit little-endian PCM; a trailing odd byte is ignored.
    pub fn decode_pcm16(data: &[u8]) -> (r: Vec<i16>)
        ensures
            r@.len() == data@.len() / 2,
            forall|i: int| 0 <= i < r@.len() ==> r@[i] == pcm16_sample(#[trigger] data@[2 * i], data@[2 * i + 1]),
    {
        let len = data.len();
        let n = len / 2;
        let mut r: Vec<i16> = Vec::new();
        let mut i: usize = 0;
        while i < n
            invariant
                len == data@.len(),
                n == data@.len() / 2,
                2 * n <= data@.len(),
                i <= n,
                r@.len() == i,
                forall|j: int| 0 <= j < i ==> r@[j] == pcm16_sample(#[trigger] data@[2 * j], data@[2 * j + 1]),
            decreases n - i,
        {
            let lo = data[2 * i];
            let hi = data[2 * i + 1];
            let v: u32 = (hi as u32) * 256 + (lo as u32);
            let s: i16 = if v >= 32768 {
                (v as i32 - 65536) as i16
            } else {
                v as i16
            };
            r.push(s);
            i += 1;
        }
        r
    }

    /// Frames of a mel spectrogram of `n_samples` samples taken every `hop_length`.
    pub fn mel_frame_count(n_samples: usize, hop_length: usize) -> (n: usize)
        requires
            hop_length > 0,
            n_samples + hop_length - 1 <= usize::MAX,
        ensures
            n == (n_samples + hop_length - 1) / (hop_length as int),
    {
        (n_samples + (hop_length - 1)) / hop_length
    }
}

/// An error of candle.
#[verifier::external_type_specification]
#[verifier::external_body]
pub struct ExCandleError(candle_core::Error);

/// A tensor of candle.
#[verifier::external_type_specification]
#[verifier::external_body]
pub struct ExCandleTensor(candle_core::Tensor);

/// The sizes of a tensor's dimensions.
pub uninterp spec fn tensor_dims(t: candle_core::Tensor) -> Seq<usize>;

/// The elements of a tensor of 32-bit whole numbers, in row-major order; none for
/// a tensor of another element type.
pub uninterp spec fn tensor_u32_data(t: candle_core::Tensor) -> Option<Seq<u32>>;

/// `candle_core::Tensor::from_slice` on a `rows` by `cols` matrix of whole numbers,
/// its error as text.  Claimed: the tensor has that shape and holds the values in
/// order; values that do not fill the shape are refused; on the processor, values
/// that fill it are always accepted (`Device::storage_from_slice` cannot fail
/// there).  On a GPU success also rests on the device and is not claimed.  The
/// element count is a product that must not overflow.
#[verifier::external_body]
fn tensor_from_u32s(data: &Vec<u32>, rows: usize, cols: usize, device: &candle_core::Device) -> (r: Result<
    candle_core::Tensor,
    String,
>)
    requires
        rows * cols <= usize::MAX,
    ensures
        match r {
            Ok(t) => data@.len() == rows * cols && tensor_dims(t) == seq![rows, cols] && tensor_u32_data(t) == Some(
                data@,
            ),
            Err(_) => data@.len() != rows * cols || !is_cpu_device(*device),
        },
{
    candle_core::Tensor::from_slice(data.as_slice(), (rows, cols), device).map_err(|e| e.to_string())
}

/// `candle_core::Tensor::to_vec1::<u32>`: the values of a one-dimensional tensor
/// of 32-bit whole numbers, its error as text (a tensor of another rank or element
/// type is refused; a copy from the device may fail too).
#[verifier::external_body]
fn tensor_to_u32s(t: &candle_core::Tensor) -> (r: Result<Vec<u32>, String>)
    ensures
        match r {
            Ok(v) => tensor_dims(*t).len() == 1 && tensor_u32_data(*t) == Some(v@),
            Err(_) => true,
        },
{
    t.to_vec1::<u32>().map_err(|e| e.to_string())
}

/// The token of each character, cut or padded with zeros to `max_len`.
pub open spec fn text_tokens(text: Seq<char>, max_len: nat) -> Seq<u32> {
    Seq::new(max_len, |i: int| if i < text.len() { text[i] as u32 } else { 0u32 })
}

/// Preparation of text.
pub struct TextPreprocessor;

impl TextPreprocessor {
    /// The tokens of a text: each character's code, cut or padded with zeros to
    /// `max_length` (512 when none is given).
    pub fn token_ids(text: &str, max_length: Option<usize>) -> (r: Vec<u32>)
        ensures
            r@ == text_tokens(
                text@,
                match max_length {
                    Some(m) => m as nat,
                    None => 512,
                },
            ),
    {
        let max_len: usize = match max_length {
            Some(m) => m,
            None => 512,
        };
        let chars = crate::text::chars_of(text);
        let mut r: Vec<u32> = Vec::new();
        let mut i: usize = 0;
        while i < max_len
            invariant
                chars@ == text@,
                i <= max_len,
                r@ == text_tokens(text@, max_len as nat).take(i as int),
            decreases max_len - i,
        {
            let t: u32 = if i < chars.len() {
                chars[i] as u32
            } else {
                0
            };
            r.push(t);
            proof {
                assert(text_tokens(text@, max_len as nat).take(i as int + 1) =~= text_tokens(
                    text@,
                    max_len as nat,
                ).take(i as int).push(t));
            }
            i += 1;
        }
        proof {
            assert(text_tokens(text@, max_len as nat).take(max_len as int) =~= text_tokens(text@, max_len as nat));
        }
        r
    }

    /// The tokens of a text as a 1 by `max_length` tensor on `device`.
    pub fn preprocess(text: &str, max_length: Option<usize>, device: &candle_core::Device) -> (r: Result<
        candle_core::Tensor,
        EdgeComputeError,
    >)
        ensures
            match r {
                Ok(t) => {
                    let max_len: nat = match max_length {
                        Some(m) => m as nat,
                        None => 512,
                    };
                    &&& tensor_dims(t) == seq![1usize, max_len as usize]
                    &&& tensor_u32_data(t) == Some(text_tokens(text@, max_len))
                },
                Err(EdgeComputeError::AlgorithmExecution { message, algorithm, input_size }) => {
                    &&& "Failed to create text tensor: "@.is_prefix_of(message@)
                    &&& algorithm matches Some(a) && a@ == "text_preprocessing"@
                    &&& input_size == Some(text.len())
                    &&& !is_cpu_device(*device)
                },
                Err(_) => false,
            },
    {
        let tokens = Self::token_ids(text, max_length);
        let max_len: usize = match max_length {
            Some(m) => m,
            None => 512,
        };
        match tensor_from_u32s(&tokens, 1, max_len, device) {
            Ok(t) => Ok(t),
            Err(e) => Err(
                EdgeComputeError::AlgorithmExecution {
                    message: concat2("Failed to create text tensor: ", e.as_str()),
                    algorithm: Some(String::from_str("text_preprocessing")),
                    input_size: Some(text.len()),
                },
            ),
        }
    }
}

/// The text of a sequence of tokens: the vocabulary entry of each, those outside
/// the vocabulary left out.
pub open spec fn decoded_text(ids: Seq<u32>, vocab: Seq<Seq<char>>) -> Seq<char>
    decreases ids.len(),
{
    if ids.len() == 0 {
        Seq::empty()
    } else {
        decoded_text(ids.drop_last(), vocab) + (if (ids.last() as int) < vocab.len() {
            vocab[ids.last() as int]
        } else {
            Seq::empty()
        })
    }
}

/// The name of a class: its entry in `class_names`, else `class_` and its number.
pub open spec fn class_name_of(class_names: Seq<Seq<char>>, class_idx: nat) -> Seq<char> {
    if class_idx < class_names.len() {
        class_names[class_idx as int]
    } else {
        "class_"@ + decimal(class_idx)
    }
}

/// Turning model outputs into results.
pub struct Postprocessor;

impl Postprocessor {
    /// The name under which a class is reported.
    pub fn class_label(class_names: &Vec<String>, class_idx: usize) -> (s: String)
        ensures
            s@ == class_name_of(chars_of(class_names@), class_idx as nat),
    {
        if class_idx < class_names.len() {
            class_names[class_idx].clone()
        } else {
            let n = decimal_string(class_idx as u64);
            concat2("class_", n.as_str())
        }
    }

    /// The text that a sequence of token ids spells in `vocab`.
    pub fn decode_tokens(ids: &Vec<u32>, vocab: &Vec<String>) -> (s: String)
        ensures
            s@ == decoded_text(ids@, chars_of(vocab@)),
    {
        let mut s = String::new();
        let mut i: usize = 0;
        while i < ids.len()
            invariant
                i <= ids@.len(),
                s@ == decoded_text(ids@.take(i as int), chars_of(vocab@)),
            decreases ids.len() - i,
        {
            let id = ids[i];
            proof {
                assert(ids@.take(i as int + 1).drop_last() =~= ids@.take(i as int));
            }
            if (id as usize) < vocab.len() {
                s = concat2(s.as_str(), vocab[id as usize].as_str());
            } else {
                proof {
                    assert(s@ + Seq::<char>::empty() =~= s@);
                }
            }
            i += 1;
        }
        proof {
            assert(ids@.take(ids@.len() as int) =~= ids@);
        }
        s
    }

    /// The text that a tensor of token ids spells in `vocab`.  A tensor that does
    /// not hold one row of token ids is refused with candle's reason.
    pub fn decode_text_generation(token_ids: &candle_core::Tensor, vocab: &Vec<String>) -> (r: Result<
        String,
        crate::types::EdgeComputeError,
    >)
        ensures
            match r {
                Ok(s) => tensor_dims(*token_ids).len() == 1 && (tensor_u32_data(*token_ids) matches Some(ids)
                    && decoded_text(ids, chars_of(vocab@)) == s@),
                Err(e) => "Candle error: "@.is_prefix_of(e.0@),
            },
    {
        match tensor_to_u32s(token_ids) {
            Ok(ids) => {
                let s = Self::decode_tokens(&ids, vocab);
                Ok(s)
            },
            Err(e) => Err(crate::types::EdgeComputeError(concat2("Candle error: ", e.as_str()))),
        }
    }
}

/// Default devices and cache, five inferences at once, a minute each.
pub open spec fn default_ml_config() -> CandleMlExecutorConfig {
    CandleMlExecutorConfig {
        device_config: DeviceManagerConfig { default_device: DeviceType::Cpu, auto_select_device: true, max_concurrent_devices: 4 },
        model_cache_config: ModelCacheConfig {
            max_cached_models: 10,
            model_ttl_seconds: 3600,
            enable_auto_cleanup: true,
            cleanup_interval_seconds: 300,
        },
        max_concurrent_inferences: 5,
        inference_timeout_ms: 60000,
    }
}

/// Settings of the ML executor.
#[derive(Debug, Clone, Copy)]
pub struct CandleMlExecutorConfig {
    pub device_config: DeviceManagerConfig,
    pub model_cache_config: ModelCacheConfig,
    pub max_concurrent_inferences: usize,
    pub inference_timeout_ms: u64,
}

impl CandleMlExecutorConfig {
    /// Default devices and cache, five inferences at once, a minute each.
    pub fn default() -> (c: CandleMlExecutorConfig)
        ensures
            c == default_ml_config(),
    {
        CandleMlExecutorConfig {
            device_config: DeviceManagerConfig::default(),
            model_cache_config: ModelCacheConfig::default(),
            max_concurrent_inferences: 5,
            inference_timeout_ms: 60000,
        }
    }
}

/// Counts of the inferences run.
#[derive(Debug, Clone, Copy, PartialEq, Eq, Structural)]
pub struct InferenceStats {
    pub total_inferences: u64,
    pub successful_inferences: u64,
    pub failed_inferences: u64,
    pub total_inference_time_ms: u64,
}

/// The kind of inference an algorithm asks for.
#[derive(Debug, Clone, Copy, PartialEq, Eq, Structural)]
pub enum InferenceKind {
    TextGeneration,
    ImageClassification,
    SpeechRecognition,
    Multimodal,
}

/// The inference that each supported algorithm runs.
pub open spec fn inference_kind_of(algorithm: Seq<char>) -> Option<InferenceKind> {
    if algorithm == "llama"@ {
        Some(InferenceKind::TextGeneration)
    } else if algorithm == "yolo"@ {
        Some(InferenceKind::ImageClassification)
    } else if algorithm == "whisper"@ {
        Some(InferenceKind::SpeechRecognition)
    } else if algorithm == "bert"@ {
        Some(InferenceKind::Multimodal)
    } else {
        None
    }
}

/// What text generation takes.
#[derive(Debug)]
pub struct TextGenerationParams {
    pub model_id: String,
    pub prompt: String,
    pub max_tokens: Option<usize>,
}

/// What image classification takes.
#[derive(Debug)]
pub struct ImageClassificationParams {
    pub model_id: String,
    pub image_data: Vec<u8>,
    pub image_format: String,
}

/// What speech recognition takes.
#[derive(Debug)]
pub struct SpeechRecognitionParams {
    pub model_id: String,
    pub audio_data: Vec<u8>,
    pub sample_rate: u32,
}

/// What a multimodal inference takes.
#[derive(Debug)]
pub struct MultimodalParams {
    pub model_id: String,
    pub text_input: Option<String>,
    pub image_input: Option<Vec<u8>>,
    pub audio_input: Option<Vec<u8>>,
}

/// A given text, else the default.
pub open spec fn text_or(given: Option<String>, default: Seq<char>) -> Seq<char> {
    match given {
        Some(s) => s@,
        None => default,
    }
}

fn string_or(given: Option<String>, default: &str) -> (s: String)
    ensures
        s@ == text_or(given, default@),
{
    match given {
        Some(s) => s,
        None => String::from_str(default),
    }
}

/// The bytes of an optional base64 text: none when it is absent or not base64.
pub open spec fn decoded_input(given: Option<String>) -> Option<Seq<u8>> {
    match given {
        Some(t) => base64_standard_decoded(t@),
        None => None,
    }
}

fn decode_input(given: &Option<String>) -> (r: Option<Vec<u8>>)
    ensures
        match r {
            Some(v) => decoded_input(*given) == Some(v@),
            None => decoded_input(*given) is None,
        },
{
    match given {
        Some(t) => match base64_decode(t.as_str()) {
            Ok(v) => Some(v),
            Err(_) => None,
        },
        None => None,
    }
}

impl TextGenerationParams {
    /// The parameters read from a request: the model defaults to "default-llama";
    /// the prompt must be there.
    pub fn from_fields(model_id: Option<String>, prompt: Option<String>, max_tokens: Option<u64>) -> (r: Result<
        TextGenerationParams,
        crate::types::EdgeComputeError,
    >)
        ensures
            match r {
                Ok(p) => {
                    &&& prompt matches Some(t) && p.prompt@ == t@
                    &&& p.model_id@ == text_or(model_id, "default-llama"@)
                    &&& p.max_tokens == match max_tokens {
                        Some(v) => Some(v as usize),
                        None => None,
                    }
                },
                Err(e) => prompt is None && e.0@ == "Missing 'prompt' parameter"@,
            },
    {
        let model_id = string_or(model_id, "default-llama");
        let prompt = match prompt {
            Some(p) => p,
            None => {
                return Err(crate::types::EdgeComputeError(String::from_str("Missing 'prompt' parameter")));
            },
        };
        let max_tokens = match max_tokens {
            Some(v) => Some(v as usize),
            None => None,
        };
        Ok(TextGenerationParams { model_id, prompt, max_tokens })
    }
}

impl ImageClassificationParams {
    /// The parameters read from a request: the model defaults to "default-yolo",
    /// the format to "jpg"; the image must be there, in standard base64.
    pub fn from_fields(model_id: Option<String>, image_data: Option<String>, image_format: Option<String>) -> (r:
        Result<ImageClassificationParams, crate::types::EdgeComputeError>)
        ensures
            match r {
                Ok(p) => {
                    &&& decoded_input(image_data) == Some(p.image_data@)
                    &&& p.model_id@ == text_or(model_id, "default-yolo"@)
                    &&& p.image_format@ == text_or(image_format, "jpg"@)
                },
                Err(e) => decoded_input(image_data) is None && e.0@
                    == "Missing or invalid 'image_data' parameter (base64 encoded)"@,
            },
    {
        let model_id = string_or(model_id, "default-yolo");
        let image_data = match decode_input(&image_data) {
            Some(v) => v,
            None => {
                return Err(
                    crate::types::EdgeComputeError(
                        String::from_str("Missing or invalid 'image_data' parameter (base64 encoded)"),
                    ),
                );
            },
        };
        let image_format = string_or(image_format, "jpg");
        Ok(ImageClassificationParams { model_id, image_data, image_format })
    }
}

impl SpeechRecognitionParams {
    /// The parameters read from a request: the model defaults to "default-whisper",
    /// the sample rate to 16000; the audio must be there, in standard base64.
    pub fn from_fields(model_id: Option<String>, audio_data: Option<String>, sample_rate: Option<u64>) -> (r: Result<
        SpeechRecognitionParams,
        crate::types::EdgeComputeError,
    >)
        ensures
            match r {
                Ok(p) => {
                    &&& decoded_input(audio_data) == Some(p.audio_data@)
                    &&& p.model_id@ == text_or(model_id, "default-whisper"@)
                    &&& p.sample_rate == match sample_rate {
                        Some(v) => v as u32,
                        None => 16000u32,
                    }
                },
                Err(e) => decoded_input(audio_data) is None && e.0@
                    == "Missing or invalid 'audio_data' parameter (base64 encoded)"@,
            },
    {
        let model_id = string_or(model_id, "default-whisper");
        let audio_data = match decode_input(&audio_data) {
            Some(v) => v,
            None => {
                return Err(
                    crate::types::EdgeComputeError(
                        String::from_str("Missing or invalid 'audio_data' parameter (base64 encoded)"),
                    ),
                );
            },
        };
        let sample_rate: u32 = match sample_rate {
            Some(v) => v as u32,
            None => 16000,
        };
        Ok(SpeechRecognitionParams { model_id, audio_data, sample_rate })
    }
}

impl MultimodalParams {
    /// The parameters read from a request: the model defaults to "default-bert";
    /// an input that is not standard base64 counts as absent.
    pub fn from_fields(
        model_id: Option<String>,
        text_input: Option<String>,
        image_input: Option<String>,
        audio_input: Option<String>,
    ) -> (p: MultimodalParams)
        ensures
            p.model_id@ == text_or(model_id, "default-bert"@),
            p.text_input == text_input,
            match p.image_input {
                Some(v) => decoded_input(image_input) == Some(v@),
                None => decoded_input(image_input) is None,
            },
            match p.audio_input {
                Some(v) => decoded_input(audio_input) == Some(v@),
                None => decoded_input(audio_input) is None,
            },
    {
        let image = decode_input(&image_input);
        let audio = decode_input(&audio_input);
        MultimodalParams {
            model_id: string_or(model_id, "default-bert"),
            text_input,
            image_input: image,
            audio_input: audio,
        }
    }
}

/// The ML executor: its devices and model cache, the admission of inferences and
/// their counts.
pub struct CandleMlExecutor {
    name: String,
    version: String,
    supported_algorithms: Vec<String>,
    config: CandleMlExecutorConfig,
    device_manager: DeviceManager,
    model_manager: ModelManager,
    stats: InferenceStats,
    active: usize,
}

impl CandleMlExecutor {
    pub closed spec fn wf(&self) -> bool {
        &&& self.device_manager.wf()
        &&& self.model_manager.wf()
        &&& self.device_manager.configuration() == self.config.device_config
        &&& self.model_manager.configuration() == self.config.model_cache_config
    }

    pub closed spec fn configuration(&self) -> CandleMlExecutorConfig {
        self.config
    }

    pub closed spec fn stats(&self) -> InferenceStats {
        self.stats
    }

    /// Inferences admitted and not yet finished.
    pub closed spec fn active(&self) -> nat {
        self.active as nat
    }

    pub closed spec fn executor_name(&self) -> Seq<char> {
        self.name@
    }

    pub closed spec fn executor_version(&self) -> Seq<char> {
        self.version@
    }

    pub closed spec fn algorithms(&self) -> Seq<Seq<char>> {
        chars_of(self.supported_algorithms@)
    }

    pub closed spec fn devices(&self) -> DeviceManager {
        self.device_manager
    }

    pub closed spec fn models(&self) -> ModelManager {
        self.model_manager
    }

    /// An executor with the default settings.
    pub fn new() -> (r: Result<CandleMlExecutor, crate::types::EdgeComputeError>)
        ensures
            match r {
                Ok(e) => e.wf() && e.configuration() == default_ml_config() && e.executor_name()
                    == "candle-ml"@ && e.executor_version() == "1.0.0"@ && e.algorithms() == seq![
                    "llama"@,
                    "yolo"@,
                    "whisper"@,
                    "bert"@,
                ] && e.active() == 0 && e.stats() == (InferenceStats {
                    total_inferences: 0,
                    successful_inferences: 0,
                    failed_inferences: 0,
                    total_inference_time_ms: 0,
                }) && e.models().models() == Map::<Seq<char>, ModelInfo>::empty()
                    && e.devices().usage() == Map::<Seq<char>, usize>::empty(),
                Err(_) => false,
            },
    {
        Self::with_config(CandleMlExecutorConfig::default())
    }

    /// An executor with these settings: named "candle-ml", version 1.0.0, running
    /// llama, yolo, whisper and bert, with nothing loaded and nothing counted.
    pub fn with_config(config: CandleMlExecutorConfig) -> (r: Result<CandleMlExecutor, crate::types::EdgeComputeError>)
        ensures
            match r {
                Ok(e) => e.wf() && e.configuration() == config && e.executor_name() == "candle-ml"@
                    && e.executor_version() == "1.0.0"@ && e.algorithms() == seq![
                    "llama"@,
                    "yolo"@,
                    "whisper"@,
                    "bert"@,
                ] && e.active() == 0 && e.stats() == (InferenceStats {
                    total_inferences: 0,
                    successful_inferences: 0,
                    failed_inferences: 0,
                    total_inference_time_ms: 0,
                }) && e.models().models() == Map::<Seq<char>, ModelInfo>::empty()
                    && e.devices().usage() == Map::<Seq<char>, usize>::empty(),
                Err(_) => false,
            },
    {
        let mut algorithms: Vec<String> = Vec::new();
        algorithms.push(String::from_str("llama"));
        algorithms.push(String::from_str("yolo"));
        algorithms.push(String::from_str("whisper"));
        algorithms.push(String::from_str("bert"));
        let e = CandleMlExecutor {
            name: String::from_str("candle-ml"),
            version: String::from_str("1.0.0"),
            supported_algorithms: algorithms,
            config,
            device_manager: DeviceManager::new(config.device_config),
            model_manager: ModelManager::new(config.model_cache_config),
            stats: InferenceStats {
                total_inferences: 0,
                successful_inferences: 0,
                failed_inferences: 0,
                total_inference_time_ms: 0,
            },
            active: 0,
        };
        proof {
            assert(e.algorithms() =~= seq!["llama"@, "yolo"@, "whisper"@, "bert"@]);
        }
        Ok(e)
    }

    pub fn name(&self) -> (s: &str)
        ensures
            s@ == self.executor_name(),
    {
        self.name.as_str()
    }

    pub fn version(&self) -> (s: &str)
        ensures
            s@ == self.executor_version(),
    {
        self.version.as_str()
    }

    pub fn supported_algorithms(&self) -> (v: Vec<String>)
        ensures
            chars_of(v@) == self.algorithms(),
    {
        let v = crate::error::clone_strings(&self.supported_algorithms);
        v
    }

    /// Always healthy.
    pub fn health_check(&self) -> (h: crate::types::HealthStatus)
        ensures
            h == crate::types::HealthStatus::Healthy,
    {
        crate::types::HealthStatus::Healthy
    }

    /// The device manager, for loading models and placing work.
    pub fn device_manager(&self) -> (d: &DeviceManager)
        ensures
            *d == self.devices(),
    {
        &self.device_manager
    }

    /// The kind of inference an algorithm runs, or the refusal of an algorithm
    /// this executor does not run.
    pub fn route(&self, algorithm: &str) -> (r: Result<InferenceKind, crate::types::EdgeComputeError>)
        ensures
            match inference_kind_of(algorithm@) {
                Some(k) => r == Ok::<InferenceKind, crate::types::EdgeComputeError>(k),
                None => r matches Err(e) && e.0@ == "Unsupported algorithm: "@ + algorithm@,
            },
    {
        let a = String::from_str(algorithm);
        if a == String::from_str("llama") {
            Ok(InferenceKind::TextGeneration)
        } else if a == String::from_str("yolo") {
            Ok(InferenceKind::ImageClassification)
        } else if a == String::from_str("whisper") {
            Ok(InferenceKind::SpeechRecognition)
        } else if a == String::from_str("bert") {
            Ok(InferenceKind::Multimodal)
        } else {
            Err(crate::types::EdgeComputeError(concat2("Unsupported algorithm: ", algorithm)))
        }
    }

    /// Admits an inference: refused while as many as allowed are running; an
    /// admitted one is counted and becomes active.
    pub fn begin_inference(&mut self) -> (r: Result<(), crate::types::EdgeComputeError>)
        requires
            old(self).wf(),
            old(self).stats().total_inferences < u64::MAX,
        ensures
            final(self).wf(),
            final(self).configuration() == old(self).configuration(),
            final(self).devices() == old(self).devices(),
            final(self).models() == old(self).models(),
            if old(self).active() >= old(self).configuration().max_concurrent_inferences {
                &&& r matches Err(e) && e.0@ == "Max concurrent inferences limit: "@ + decimal(
                    old(self).configuration().max_concurrent_inferences as nat,
                )
                &&& final(self).active() == old(self).active()
                &&& final(self).stats() == old(self).stats()
            } else {
                &&& r is Ok
                &&& final(self).active() == old(self).active() + 1
                &&& final(self).stats() == (InferenceStats {
                    total_inferences: (old(self).stats().total_inferences + 1) as u64,
                    ..old(self).stats()
                })
            },
    {
        if self.active >= self.config.max_concurrent_inferences {
            let n = decimal_string(self.config.max_concurrent_inferences as u64);
            return Err(crate::types::EdgeComputeError(concat2("Max concurrent inferences limit: ", n.as_str())));
        }
        self.active = self.active + 1;
        self.stats.total_inferences = self.stats.total_inferences + 1;
        Ok(())
    }

    /// Ends an admitted inference that took `elapsed_ms` and succeeded or not.
    pub fn finish_inference(&mut self, succeeded: bool, elapsed_ms: u64)
        requires
            old(self).wf(),
            old(self).stats().total_inference_time_ms + elapsed_ms <= u64::MAX,
            succeeded ==> old(self).stats().successful_inferences < u64::MAX,
            !succeeded ==> old(self).stats().failed_inferences < u64::MAX,
        ensures
            final(self).wf(),
            final(self).configuration() == old(self).configuration(),
            final(self).devices() == old(self).devices(),
            final(self).models() == old(self).models(),
            final(self).active() == (if old(self).active() > 0 { old(self).active() - 1 } else { 0 }),
            final(self).stats() == (InferenceStats {
                total_inferences: old(self).stats().total_inferences,
                successful_inferences: (old(self).stats().successful_inferences + if succeeded { 1int } else { 0 }) as u64,
                failed_inferences: (old(self).stats().failed_inferences + if succeeded { 0int } else { 1 }) as u64,
                total_inference_time_ms: (old(self).stats().total_inference_time_ms + elapsed_ms) as u64,
            }),
    {
        self.stats.total_inference_time_ms = self.stats.total_inference_time_ms + elapsed_ms;
        if succeeded {
            self.stats.successful_inferences = self.stats.successful_inferences + 1;
        } else {
            self.stats.failed_inferences = self.stats.failed_inferences + 1;
        }
        self.active = self.active.saturating_sub(1);
    }

    pub fn get_inference_stats(&self) -> (s: InferenceStats)
        ensures
            s == self.stats(),
    {
        self.stats
    }

    pub fn get_active_inferences_count(&self) -> (n: usize)
        ensures
            n == self.active(),
    {
        self.active
    }

    /// How often the model with this id was used, if it is cached.
    pub fn model_usage(&self, model_id: &str) -> (r: Option<u64>)
        requires
            self.wf(),
        ensures
            match r {
                Some(n) => self.models().models().contains_key(model_id@) && n == self.models().models()[model_id@].usage_count,
                None => !self.models().models().contains_key(model_id@),
            },
    {
        self.model_manager.usage_of(model_id)
    }

    /// The model an inference runs on, marked as used at `now_ms`; a model that is
    /// not loaded is refused.
    pub fn find_model(&mut self, model_id: &str, now_ms: u64) -> (r: Result<ModelInfo, crate::types::EdgeComputeError>)
        requires
            old(self).wf(),
            old(self).models().models().contains_key(model_id@) ==> old(self).models().models()[model_id@].usage_count
                < u64::MAX,
        ensures
            final(self).wf(),
            final(self).configuration() == old(self).configuration(),
            final(self).devices() == old(self).devices(),
            final(self).stats() == old(self).stats(),
            final(self).active() == old(self).active(),
            final(self).models().configuration() == old(self).models().configuration(),
            match r {
                Ok(m) => {
                    let was = old(self).models().models()[model_id@];
                    &&& old(self).models().models().contains_key(model_id@)
                    &&& m == ModelInfo { last_used_ms: now_ms, usage_count: (was.usage_count + 1) as u64, ..was }
                    &&& final(self).models().models() == old(self).models().models().insert(model_id@, m)
                },
                Err(e) => {
                    &&& !old(self).models().models().contains_key(model_id@)
                    &&& final(self).models().models() == old(self).models().models()
                    &&& e.0@ == "Model not found: "@ + model_id@
                },
            },
    {
        match self.model_manager.get_model(model_id, now_ms) {
            Some(m) => Ok(m),
            None => Err(crate::types::EdgeComputeError(concat2("Model not found: ", model_id))),
        }
    }
}

} // verus!
