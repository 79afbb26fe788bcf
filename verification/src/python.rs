//! Python execution: package installation bookkeeping, the model file cache,
//! the WebAssembly sandbox, and the executor that admits and routes Python work.
use vstd::prelude::*;
use crate::container::{join_path, joined_path};
use crate::error::EdgeComputeError;
use crate::string_map::{chars_of, StringMap};
use crate::text::{concat2, contains_seq, decimal, decimal_string, occurs_at, string_from_chars};

verus! {

/// An error of the configuration, with its text.
pub fn config_error(message: &str) -> (e: crate::types::EdgeComputeError)
    ensures
        e.0@ == "Configuration error: "@ + message@,
{
    crate::types::EdgeComputeError(concat2("Configuration error: ", message))
}

/// An error of running an algorithm, with its text.
pub fn algorithm_execution_error(message: &str) -> (e: crate::types::EdgeComputeError)
    ensures
        e.0@ == "Algorithm execution error: "@ + message@,
{
    crate::types::EdgeComputeError(concat2("Algorithm execution error: ", message))
}

/// An error of an invalid input, with its text.
pub fn validation_error(message: &str) -> (e: crate::types::EdgeComputeError)
    ensures
        e.0@ == "Validation error: "@ + message@,
{
    crate::types::EdgeComputeError(concat2("Validation error: ", message))
}

/// An error of a resource running out, with its text.
pub fn resource_exhausted_error(message: &str) -> (e: crate::types::EdgeComputeError)
    ensures
        e.0@ == "Resource exhausted: "@ + message@,
{
    crate::types::EdgeComputeError(concat2("Resource exhausted: ", message))
}

/// Settings of package installation.
#[derive(Debug, Clone)]
pub struct DependencyManagerConfig {
    /// The package manager, such as pip.
    pub manager: String,
    pub cache_dir: String,
    pub auto_install: bool,
    pub install_timeout_seconds: u64,
    pub use_venv: bool,
    pub venv_dir: Option<String>,
}

impl DependencyManagerConfig {
    /// pip, caching in ./python_cache, five minutes per install, in the virtual
    /// environment ./python_venv.
    pub fn default() -> (c: DependencyManagerConfig)
        ensures
            c.manager@ == "pip"@,
            c.cache_dir@ == "./python_cache"@,
            c.auto_install,
            c.install_timeout_seconds == 300,
            c.use_venv,
            c.venv_dir matches Some(d) && d@ == "./python_venv"@,
    {
        DependencyManagerConfig {
            manager: String::from_str("pip"),
            cache_dir: String::from_str("./python_cache"),
            auto_install: true,
            install_timeout_seconds: 300,
            use_venv: true,
            venv_dir: Some(String::from_str("./python_venv")),
        }
    }
}

/// Counts of package installations.
#[derive(Debug, Clone, Copy, PartialEq, Eq, Structural)]
pub struct InstallStats {
    pub total_installs: u64,
    pub successful_installs: u64,
    pub failed_installs: u64,
    pub cache_hits: u64,
}

/// A package that was installed.
#[derive(Debug)]
pub struct InstalledDependency {
    pub name: String,
    /// The version asked for, or "latest".
    pub version: String,
    /// Milliseconds since the Unix epoch.
    pub installed_at_ms: u64,
    pub usage_count: u64,
}

/// The pip of a configuration: the one of the virtual environment when there is one.
pub open spec fn pip_path_of(c: DependencyManagerConfig) -> Seq<char> {
    if c.use_venv && c.venv_dir is Some {
        joined_path(joined_path(c.venv_dir->0@, "bin"@), "pip"@)
    } else {
        "pip"@
    }
}

/// What pip is asked to install: the package, pinned to a version when one is given.
pub open spec fn package_spec_of(package: Seq<char>, version: Option<Seq<char>>) -> Seq<char> {
    match version {
        Some(v) => package + "=="@ + v,
        None => package,
    }
}

/// The first place where `pat` occurs in `s`.
pub open spec fn first_occurrence(s: Seq<char>, pat: Seq<char>, i: int) -> bool {
    &&& occurs_at(s, pat, i)
    &&& forall|j: int| 0 <= j < i ==> !#[trigger] occurs_at(s, pat, j)
}

/// The next step of installing a package.
#[derive(Debug)]
pub enum InstallStep {
    /// The package is there already.
    AlreadyInstalled,
    /// Run `pip install` with this pip on this package spec.
    Install { pip_path: String, package_spec: String },
}

/// The position of the first `==` in a text, if any.
fn find_pin(cs: &Vec<char>) -> (r: Option<usize>)
    ensures
        match r {
            Some(i) => first_occurrence(cs@, "=="@, i as int),
            None => forall|j: int| !#[trigger] occurs_at(cs@, "=="@, j),
        },
{
    proof {
        reveal_strlit("==");
        assert("=="@ =~= seq!['=', '=']);
    }
    let n = cs.len();
    let mut i: usize = 0;
    while i < n
        invariant
            n == cs@.len(),
            i <= n,
            "=="@ == seq!['=', '='],
            forall|j: int| 0 <= j < i ==> !#[trigger] occurs_at(cs@, "=="@, j),
        decreases n - i,
    {
        if i + 1 < n && cs[i] == '=' && cs[i + 1] == '=' {
            proof {
                assert(cs@.subrange(i as int, i as int + 2) =~= "=="@);
            }
            return Some(i);
        }
        proof {
            assert(!occurs_at(cs@, "=="@, i as int)) by {
                if occurs_at(cs@, "=="@, i as int) {
                    assert(cs@.subrange(i as int, i as int + 2)[0] == '=');
                    assert(cs@.subrange(i as int, i as int + 2)[1] == '=');
                }
            }
        }
        i += 1;
    }
    proof {
        assert forall|j: int| !#[trigger] occurs_at(cs@, "=="@, j) by {
            if j >= i as int && occurs_at(cs@, "=="@, j) {
                assert(j + 2 <= n);
            }
        }
    }
    None
}

/// A requirement `name==version` split into its name and version; without `==`
/// the whole text is the name.
pub open spec fn requirement_parts(spec: Seq<char>) -> (Seq<char>, Option<Seq<char>>) {
    if exists|i: int| #[trigger] occurs_at(spec, "=="@, i) {
        let i = choose|i: int| first_occurrence(spec, "=="@, i);
        (spec.take(i), Some(spec.skip(i + 2)))
    } else {
        (spec, None)
    }
}

/// Splits a requirement `name==version` at its first `==`.
pub fn parse_requirement(spec: &str) -> (r: (String, Option<String>))
    ensures
        r.0@ == requirement_parts(spec@).0,
        match r.1 {
            Some(v) => requirement_parts(spec@).1 == Some(v@),
            None => requirement_parts(spec@).1 is None,
        },
{
    let cs = crate::text::chars_of(spec);
    proof {
        reveal_strlit("==");
        assert("=="@ =~= seq!['=', '=']);
    }
    match find_pin(&cs) {
        None => (String::from_str(spec), None),
        Some(i) => {
            let mut name: Vec<char> = Vec::new();
            let mut j: usize = 0;
            while j < i
                invariant
                    i + 2 <= cs@.len(),
                    j <= i,
                    name@ == cs@.take(j as int),
                decreases i - j,
            {
                name.push(cs[j]);
                proof {
                    assert(cs@.take(j as int + 1) =~= cs@.take(j as int).push(cs@[j as int]));
                }
                j += 1;
            }
            let mut version: Vec<char> = Vec::new();
            let total = cs.len();
            assert(i + 2 <= total);
            let mut k: usize = i + 2;
            while k < cs.len()
                invariant
                    i + 2 <= k <= cs@.len(),
                    version@ == cs@.subrange(i as int + 2, k as int),
                decreases cs@.len() - k,
            {
                version.push(cs[k]);
                proof {
                    assert(cs@.subrange(i as int + 2, k as int + 1) =~= cs@.subrange(i as int + 2, k as int).push(
                        cs@[k as int],
                    ));
                }
                k += 1;
            }
            proof {
                assert(occurs_at(cs@, "=="@, i as int));
                let c = choose|x: int| first_occurrence(cs@, "=="@, x);
                assert(first_occurrence(cs@, "=="@, c));
                assert(c == i as int) by {
                    if c < i as int {
                    } else if c > i as int {
                    }
                }
                assert(cs@.skip(i as int + 2) =~= cs@.subrange(i as int + 2, cs@.len() as int));
            }
            (string_from_chars(&name), Some(string_from_chars(&version)))
        },
    }
}

/// The pip a configuration installs with.
pub fn pip_path(config: &DependencyManagerConfig) -> (s: String)
    ensures
        s@ == pip_path_of(*config),
{
    if config.use_venv {
        match &config.venv_dir {
            Some(d) => {
                let bin = join_path(d.as_str(), "bin");
                join_path(bin.as_str(), "pip")
            },
            None => String::from_str("pip"),
        }
    } else {
        String::from_str("pip")
    }
}

/// Installed packages and the counts of installations; pip itself is run by the caller.
pub struct DependencyManager {
    config: DependencyManagerConfig,
    installed: StringMap<InstalledDependency>,
    stats: InstallStats,
}

impl DependencyManager {
    pub closed spec fn wf(&self) -> bool {
        self.installed.wf()
    }

    pub closed spec fn configuration(&self) -> DependencyManagerConfig {
        self.config
    }

    pub closed spec fn installed(&self) -> Map<Seq<char>, InstalledDependency> {
        self.installed@
    }

    pub closed spec fn stats(&self) -> InstallStats {
        self.stats
    }

    /// A manager that knows of no package.
    pub fn new(config: DependencyManagerConfig) -> (m: DependencyManager)
        ensures
            m.wf(),
            m.configuration() == config,
            m.installed() == Map::<Seq<char>, InstalledDependency>::empty(),
            m.stats() == (InstallStats { total_installs: 0, successful_installs: 0, failed_installs: 0, cache_hits: 0 }),
    {
        DependencyManager {
            config,
            installed: StringMap::new(),
            stats: InstallStats { total_installs: 0, successful_installs: 0, failed_installs: 0, cache_hits: 0 },
        }
    }

    /// Starts installing a package: one that is there counts as a cache hit; another
    /// counts as an installation, to be run with this pip on this spec.
    pub fn begin_install(&mut self, package: &str, version: Option<&str>) -> (step: InstallStep)
        requires
            old(self).wf(),
            old(self).stats().cache_hits < u64::MAX,
            old(self).stats().total_installs < u64::MAX,
        ensures
            final(self).wf(),
            final(self).configuration() == old(self).configuration(),
            final(self).installed() == old(self).installed(),
            if old(self).installed().contains_key(package@) {
                &&& step is AlreadyInstalled
                &&& final(self).stats() == (InstallStats { cache_hits: (old(self).stats().cache_hits + 1) as u64, ..old(self).stats() })
            } else {
                &&& step matches InstallStep::Install { pip_path, package_spec } && pip_path@ == pip_path_of(
                    old(self).configuration(),
                ) && package_spec@ == package_spec_of(
                    package@,
                    match version {
                        Some(v) => Some(v@),
                        None => None,
                    },
                )
                &&& final(self).stats() == (InstallStats {
                    total_installs: (old(self).stats().total_installs + 1) as u64,
                    ..old(self).stats()
                })
            },
    {
        if self.installed.contains_key(package) {
            self.stats.cache_hits = self.stats.cache_hits + 1;
            return InstallStep::AlreadyInstalled;
        }
        self.stats.total_installs = self.stats.total_installs + 1;
        let package_spec = match version {
            Some(v) => {
                let s = concat2(package, "==");
                concat2(s.as_str(), v)
            },
            None => String::from_str(package),
        };
        InstallStep::Install { pip_path: pip_path(&self.config), package_spec }
    }

    /// Ends an installation that pip ran: on success the package is recorded, at
    /// `now_ms`, under the version asked for or "latest"; on failure its reason is
    /// reported.
    pub fn finish_install(
        &mut self,
        package: &str,
        version: Option<&str>,
        now_ms: u64,
        outcome: Result<(), String>,
    ) -> (r: Result<(), crate::types::EdgeComputeError>)
        requires
            old(self).wf(),
        ensures
            final(self).wf(),
            final(self).configuration() == old(self).configuration(),
            final(self).stats() == old(self).stats(),
            match outcome {
                Ok(_) => {
                    let d = final(self).installed()[package@];
                    &&& r is Ok
                    &&& final(self).installed() == old(self).installed().insert(package@, d)
                    &&& d.name@ == package@
                    &&& d.version@ == match version {
                        Some(v) => v@,
                        None => "latest"@,
                    }
                    &&& d.installed_at_ms == now_ms
                    &&& d.usage_count == 1
                },
                Err(reason) => {
                    &&& final(self).installed() == old(self).installed()
                    &&& r matches Err(e) && e.0@ == "Algorithm execution error: "@ + reason@
                },
            },
    {
        match outcome {
            Err(reason) => Err(algorithm_execution_error(reason.as_str())),
            Ok(_) => {
                let d = InstalledDependency {
                    name: String::from_str(package),
                    version: match version {
                        Some(v) => String::from_str(v),
                        None => String::from_str("latest"),
                    },
                    installed_at_ms: now_ms,
                    usage_count: 1,
                };
                self.installed.insert(String::from_str(package), d);
                Ok(())
            },
        }
    }

    /// Ends an uninstallation that pip ran: on success the package is forgotten;
    /// on failure its reason is reported.
    pub fn finish_uninstall(&mut self, package: &str, outcome: Result<(), String>) -> (r: Result<
        (),
        crate::types::EdgeComputeError,
    >)
        requires
            old(self).wf(),
        ensures
            final(self).wf(),
            final(self).configuration() == old(self).configuration(),
            final(self).stats() == old(self).stats(),
            match outcome {
                Ok(_) => r is Ok && final(self).installed() == old(self).installed().remove(package@),
                Err(reason) => final(self).installed() == old(self).installed() && (r matches Err(e) && e.0@
                    == "Algorithm execution error: "@ + reason@),
            },
    {
        match outcome {
            Err(reason) => Err(algorithm_execution_error(reason.as_str())),
            Ok(_) => {
                let _ = self.installed.take(package);
                Ok(())
            },
        }
    }

    /// The pip that installs and removes packages.
    pub fn pip(&self) -> (s: String)
        ensures
            s@ == pip_path_of(self.configuration()),
    {
        pip_path(&self.config)
    }

    /// The names of the installed packages.
    pub fn list_installed(&self) -> (v: Vec<String>)
        requires
            self.wf(),
        ensures
            v@.len() == self.installed().dom().len(),
            chars_of(v@).to_set() == self.installed().dom(),
    {
        proof {
            self.installed.lemma_enumeration();
        }
        self.installed.keys()
    }

    pub fn get_stats(&self) -> (s: InstallStats)
        ensures
            s == self.stats(),
    {
        self.stats
    }

    /// Forgets every installed package; the cache directory is the caller's.
    pub fn clear_cache(&mut self)
        ensures
            final(self).wf(),
            final(self).configuration() == old(self).configuration(),
            final(self).stats() == old(self).stats(),
            final(self).installed() == Map::<Seq<char>, InstalledDependency>::empty(),
    {
        self.installed = StringMap::new();
    }
}

/// Settings of the model file cache.
#[derive(Debug, Clone)]
pub struct ModelLoaderConfig {
    pub model_dir: String,
    pub auto_scan: bool,
    pub scan_interval_seconds: u64,
    pub max_cache_size_mb: u64,
}

impl ModelLoaderConfig {
    /// ./python_models, scanned every minute, up to 1024 MB.
    pub fn default() -> (c: ModelLoaderConfig)
        ensures
            c.model_dir@ == "./python_models"@,
            c.auto_scan,
            c.scan_interval_seconds == 60,
            c.max_cache_size_mb == 1024,
    {
        ModelLoaderConfig {
            model_dir: String::from_str("./python_models"),
            auto_scan: true,
            scan_interval_seconds: 60,
            max_cache_size_mb: 1024,
        }
    }
}

/// Counts of model loads and directory scans.
#[derive(Debug, Clone, Copy, PartialEq, Eq, Structural)]
pub struct LoadStats {
    pub total_loads: u64,
    pub successful_loads: u64,
    pub failed_loads: u64,
    pub cache_hits: u64,
    pub total_scans: u64,
}

/// A model file known to the cache.  Times are milliseconds since the Unix epoch.
#[derive(Debug)]
pub struct ModelInfo {
    pub name: String,
    pub path: String,
    /// The framework, as told by the file's extension.
    pub model_type: String,
    pub file_size: u64,
    pub loaded_at_ms: Option<u64>,
    pub usage_count: u64,
    pub last_used_ms: Option<u64>,
    pub metadata: StringMap<String>,
}

impl ModelInfo {
    pub fn duplicate(&self) -> (r: ModelInfo)
        requires
            self.metadata.wf(),
        ensures
            r.name == self.name,
            r.path == self.path,
            r.model_type == self.model_type,
            r.file_size == self.file_size,
            r.loaded_at_ms == self.loaded_at_ms,
            r.usage_count == self.usage_count,
            r.last_used_ms == self.last_used_ms,
            r.metadata@ == self.metadata@,
            r.metadata.wf(),
    {
        ModelInfo {
            name: self.name.clone(),
            path: self.path.clone(),
            model_type: self.model_type.clone(),
            file_size: self.file_size,
            loaded_at_ms: self.loaded_at_ms,
            usage_count: self.usage_count,
            last_used_ms: self.last_used_ms,
            metadata: self.metadata.duplicate(),
        }
    }
}

/// The extension of a file path, as `std::path::Path::extension` gives it.
pub uninterp spec fn path_extension(path: Seq<char>) -> Option<Seq<char>>;

/// The stem of a file path, as `std::path::Path::file_stem` gives it.
pub uninterp spec fn path_file_stem(path: Seq<char>) -> Option<Seq<char>>;

/// A file path with its extension replaced, as `std::path::Path::with_extension` gives it.
pub uninterp spec fn path_with_extension(path: Seq<char>, ext: Seq<char>) -> Seq<char>;

/// A text in lower case, as `str::to_lowercase` gives it.
pub uninterp spec fn lowercase_text(s: Seq<char>) -> Seq<char>;

/// `std::path::Path::extension` of a path given as text.  Claimed: the result is
/// `path_extension` of the path.
#[verifier::external_body]
fn extension_of(path: &str) -> (r: Option<String>)
    ensures
        match r {
            Some(e) => path_extension(path@) == Some(e@),
            None => path_extension(path@) is None,
        },
{
    std::path::Path::new(path).extension().map(|e| e.to_string_lossy().into_owned())
}

/// `std::path::Path::file_stem` of a path given as text.  Claimed: the result is
/// `path_file_stem` of the path.
#[verifier::external_body]
fn file_stem_of(path: &str) -> (r: Option<String>)
    ensures
        match r {
            Some(e) => path_file_stem(path@) == Some(e@),
            None => path_file_stem(path@) is None,
        },
{
    std::path::Path::new(path).file_stem().map(|e| e.to_string_lossy().into_owned())
}

/// `std::path::Path::with_extension` on a path given as text.  Claimed: the result
/// is `path_with_extension` of the path and extension.
#[verifier::external_body]
fn with_extension(path: &str, ext: &str) -> (r: String)
    ensures
        r@ == path_with_extension(path@, ext@),
{
    std::path::Path::new(path).with_extension(ext).to_string_lossy().into_owned()
}

/// `str::to_lowercase`.  Claimed: the result is `lowercase_text` of the text.
#[verifier::external_body]
fn to_lowercase(s: &str) -> (r: String)
    ensures
        r@ == lowercase_text(s@),
{
    s.to_lowercase()
}

/// The framework of a model file, by its extension in lower case.
pub open spec fn framework_of_extension(ext: Seq<char>) -> Seq<char> {
    if ext == "pt"@ || ext == "pth"@ {
        "pytorch"@
    } else if ext == "onnx"@ {
        "onnx"@
    } else if ext == "pb"@ {
        "tensorflow"@
    } else if ext == "h5"@ {
        "keras"@
    } else if ext == "pkl"@ || ext == "joblib"@ {
        "sklearn"@
    } else {
        "unknown"@
    }
}

/// Whether an extension in lower case is that of a model file.
pub open spec fn model_extension(ext: Seq<char>) -> bool {
    ext == "pt"@ || ext == "pth"@ || ext == "onnx"@ || ext == "pb"@ || ext == "h5"@ || ext == "pkl"@
        || ext == "joblib"@ || ext == "model"@
}

/// Whether a path names a model file.
pub open spec fn is_model_path(path: Seq<char>) -> bool {
    match path_extension(path) {
        Some(e) => model_extension(lowercase_text(e)),
        None => false,
    }
}

/// The framework of the model file at a path.
pub open spec fn model_type_of_path(path: Seq<char>) -> Seq<char> {
    match path_extension(path) {
        Some(e) => framework_of_extension(lowercase_text(e)),
        None => "unknown"@,
    }
}

/// The name under which a scanned model file is listed: its stem, else "unknown".
pub open spec fn scanned_name(path: Seq<char>) -> Seq<char> {
    match path_file_stem(path) {
        Some(s) => s,
        None => "unknown"@,
    }
}

fn text_is(s: &String, lit: &str) -> (b: bool)
    ensures
        b == (s@ == lit@),
{
    *s == String::from_str(lit)
}

/// Whether a path names a model file.
pub fn is_model_file(path: &str) -> (b: bool)
    ensures
        b == is_model_path(path@),
{
    match extension_of(path) {
        None => false,
        Some(e) => {
            let l = to_lowercase(e.as_str());
            text_is(&l, "pt") || text_is(&l, "pth") || text_is(&l, "onnx") || text_is(&l, "pb") || text_is(&l, "h5")
                || text_is(&l, "pkl") || text_is(&l, "joblib") || text_is(&l, "model")
        },
    }
}

/// The framework of the model file at a path.
pub fn detect_model_type(path: &str) -> (s: String)
    ensures
        s@ == model_type_of_path(path@),
{
    match extension_of(path) {
        None => String::from_str("unknown"),
        Some(e) => {
            let l = to_lowercase(e.as_str());
            if text_is(&l, "pt") || text_is(&l, "pth") {
                String::from_str("pytorch")
            } else if text_is(&l, "onnx") {
                String::from_str("onnx")
            } else if text_is(&l, "pb") {
                String::from_str("tensorflow")
            } else if text_is(&l, "h5") {
                String::from_str("keras")
            } else if text_is(&l, "pkl") || text_is(&l, "joblib") {
                String::from_str("sklearn")
            } else {
                String::from_str("unknown")
            }
        },
    }
}

/// The extensions tried, in order, for a model named without one.
pub open spec fn model_extensions() -> Seq<Seq<char>> {
    seq!["pt"@, "pth"@, "onnx"@, "pb"@, "h5"@, "pkl"@]
}

/// The known facts of a model after a scan found it at `path` with `size` bytes:
/// the file's facts, and the load time, use count and last use of a model known before.
pub open spec fn scanned_entry(m: Map<Seq<char>, ModelInfo>, path: Seq<char>, size: u64, info: ModelInfo) -> bool {
    let name = scanned_name(path);
    &&& info.name@ == name
    &&& info.path@ == path
    &&& info.model_type@ == model_type_of_path(path)
    &&& info.file_size == size
    &&& info.metadata@ == Map::<Seq<char>, String>::empty()
    &&& info.metadata.wf()
    &&& if m.contains_key(name) {
        &&& info.loaded_at_ms == m[name].loaded_at_ms
        &&& info.usage_count == m[name].usage_count
        &&& info.last_used_ms == m[name].last_used_ms
    } else {
        &&& info.loaded_at_ms is None
        &&& info.usage_count == 0
        &&& info.last_used_ms is None
    }
}

/// Two records of a model with the same facts.
pub open spec fn same_model(a: ModelInfo, b: ModelInfo) -> bool {
    &&& a.name == b.name
    &&& a.path == b.path
    &&& a.model_type == b.model_type
    &&& a.file_size == b.file_size
    &&& a.loaded_at_ms == b.loaded_at_ms
    &&& a.usage_count == b.usage_count
    &&& a.last_used_ms == b.last_used_ms
    &&& a.metadata@ == b.metadata@
}

/// A record with the facts of one of the known models.
pub open spec fn known_model(m: Map<Seq<char>, ModelInfo>, info: ModelInfo) -> bool {
    exists|k: Seq<char>| m.contains_key(k) && #[trigger] same_model(m[k], info)
}

/// A validation error with this message, about this field holding this value.
pub open spec fn is_validation_error(e: EdgeComputeError, message: Seq<char>, field: Seq<char>, value: Seq<char>) -> bool {
    match e {
        EdgeComputeError::Validation { message: m, field: Some(f), value: Some(v) } => m@ == message && f@ == field
            && v@ == value,
        _ => false,
    }
}

/// Model files known by name, and the counts of loads and scans.
pub struct ModelLoader {
    config: ModelLoaderConfig,
    models: StringMap<ModelInfo>,
    stats: LoadStats,
}

impl ModelLoader {
    pub closed spec fn wf(&self) -> bool {
        &&& self.models.wf()
        &&& forall|k: Seq<char>| #[trigger] self.models@.contains_key(k) ==> self.models@[k].metadata.wf()
    }

    pub closed spec fn configuration(&self) -> ModelLoaderConfig {
        self.config
    }

    pub closed spec fn models(&self) -> Map<Seq<char>, ModelInfo> {
        self.models@
    }

    pub closed spec fn stats(&self) -> LoadStats {
        self.stats
    }

    /// A loader that knows of no model; the model directory is the caller's.
    pub fn new(config: ModelLoaderConfig) -> (l: ModelLoader)
        ensures
            l.wf(),
            l.configuration() == config,
            l.models() == Map::<Seq<char>, ModelInfo>::empty(),
            l.stats() == (LoadStats {
                total_loads: 0,
                successful_loads: 0,
                failed_loads: 0,
                cache_hits: 0,
                total_scans: 0,
            }),
    {
        ModelLoader {
            config,
            models: StringMap::new(),
            stats: LoadStats { total_loads: 0, successful_loads: 0, failed_loads: 0, cache_hits: 0, total_scans: 0 },
        }
    }

    /// Starts loading a model: a known one is handed out, marked as used at
    /// `now_ms`, and counts as a cache hit; otherwise the load is counted and
    /// nothing is returned.
    pub fn begin_load(&mut self, model_name: &str, now_ms: u64) -> (r: Option<ModelInfo>)
        requires
            old(self).wf(),
            old(self).stats().cache_hits < u64::MAX,
            old(self).stats().total_loads < u64::MAX,
            old(self).models().contains_key(model_name@) ==> old(self).models()[model_name@].usage_count < u64::MAX,
        ensures
            final(self).wf(),
            final(self).configuration() == old(self).configuration(),
            match r {
                Some(m) => {
                    let was = old(self).models()[model_name@];
                    let now = final(self).models()[model_name@];
                    &&& old(self).models().contains_key(model_name@)
                    &&& final(self).models().dom() == old(self).models().dom()
                    &&& forall|k: Seq<char>| #[trigger] final(self).models().contains_key(k) && k != model_name@ ==> final(self).models()[k] == old(self).models()[k]
                    &&& now.name == was.name && now.path == was.path && now.model_type == was.model_type
                    &&& now.file_size == was.file_size && now.loaded_at_ms == was.loaded_at_ms
                    &&& now.metadata@ == was.metadata@
                    &&& now.usage_count == was.usage_count + 1
                    &&& now.last_used_ms == Some(now_ms)
                    &&& m.name == now.name && m.path == now.path && m.model_type == now.model_type
                    &&& m.file_size == now.file_size && m.loaded_at_ms == now.loaded_at_ms
                    &&& m.usage_count == now.usage_count && m.last_used_ms == now.last_used_ms
                    &&& m.metadata@ == now.metadata@
                    &&& final(self).stats() == (LoadStats { cache_hits: (old(self).stats().cache_hits + 1) as u64, ..old(self).stats() })
                },
                None => {
                    &&& !old(self).models().contains_key(model_name@)
                    &&& final(self).models() == old(self).models()
                    &&& final(self).stats() == (LoadStats { total_loads: (old(self).stats().total_loads + 1) as u64, ..old(self).stats() })
                },
            },
    {
        match self.models.take(model_name) {
            None => {
                self.stats.total_loads = self.stats.total_loads + 1;
                None
            },
            Some(m) => {
                let mut m = m;
                m.last_used_ms = Some(now_ms);
                m.usage_count = m.usage_count + 1;
                let copy = m.duplicate();
                self.models.insert(String::from_str(model_name), m);
                self.stats.cache_hits = self.stats.cache_hits + 1;
                proof {
                    assert(self.models@.dom() =~= old(self).models@.dom());
                }
                Some(copy)
            },
        }
    }

    /// The files that may hold a model of this name, in the order they are tried:
    /// the name itself in the model directory, then with each usual extension.
    pub fn candidate_paths(&self, model_name: &str) -> (v: Vec<String>)
        ensures
            v@.len() == 7,
            v@[0]@ == joined_path(self.configuration().model_dir@, model_name@),
            forall|i: int| 0 <= i < 6 ==> #[trigger] v@[i + 1]@ == path_with_extension(
                joined_path(self.configuration().model_dir@, model_name@),
                model_extensions()[i],
            ),
    {
        let base = join_path(self.config.model_dir.as_str(), model_name);
        let mut v: Vec<String> = Vec::new();
        v.push(base.clone());
        v.push(with_extension(base.as_str(), "pt"));
        v.push(with_extension(base.as_str(), "pth"));
        v.push(with_extension(base.as_str(), "onnx"));
        v.push(with_extension(base.as_str(), "pb"));
        v.push(with_extension(base.as_str(), "h5"));
        v.push(with_extension(base.as_str(), "pkl"));
        proof {
            assert forall|i: int| 0 <= i < 6 implies #[trigger] v@[i + 1]@ == path_with_extension(
                joined_path(self.configuration().model_dir@, model_name@),
                model_extensions()[i],
            ) by {
                if i == 0 {
                } else if i == 1 {
                } else if i == 2 {
                } else if i == 3 {
                } else if i == 4 {
                } else {
                }
            }
        }
        v
    }

    /// Ends loading a model that was not known: `found` is the first candidate file
    /// that exists, `file_size` what reading its size gave.  A found model is
    /// recorded as loaded and used at `now_ms`.
    pub fn finish_load(&mut self, model_name: &str, found: Option<String>, file_size: Result<u64, String>, now_ms: u64) -> (r:
        Result<ModelInfo, EdgeComputeError>)
        requires
            old(self).wf(),
            found is Some && file_size is Ok ==> old(self).stats().successful_loads < u64::MAX,
        ensures
            final(self).wf(),
            final(self).configuration() == old(self).configuration(),
            match found {
                None => {
                    &&& final(self).models() == old(self).models()
                    &&& final(self).stats() == old(self).stats()
                    &&& r is Err
                    &&& is_validation_error(r->Err_0, "Model not found: "@ + model_name@, "model_name"@, model_name@)
                },
                Some(path) => match file_size {
                    Err(reason) => {
                        &&& final(self).models() == old(self).models()
                        &&& final(self).stats() == old(self).stats()
                        &&& r matches Err(EdgeComputeError::Config { message, source })
                        &&& message@ == "Failed to read model metadata: "@ + reason@
                        &&& source matches Some(s) && s@ == "model-loader"@
                    },
                    Ok(size) => {
                        let now = final(self).models()[model_name@];
                        &&& final(self).models().dom() == old(self).models().dom().insert(model_name@)
                        &&& forall|k: Seq<char>| #[trigger] final(self).models().contains_key(k) && k != model_name@ ==> final(self).models()[k] == old(self).models()[k]
                        &&& now.name@ == model_name@ && now.path == path
                        &&& now.model_type@ == model_type_of_path(path@)
                        &&& now.file_size == size
                        &&& now.loaded_at_ms == Some(now_ms) && now.last_used_ms == Some(now_ms)
                        &&& now.usage_count == 1
                        &&& now.metadata@ == Map::<Seq<char>, String>::empty()
                        &&& r matches Ok(m) && m.name == now.name && m.path == now.path && m.model_type == now.model_type
                            && m.file_size == now.file_size && m.loaded_at_ms == now.loaded_at_ms
                            && m.usage_count == now.usage_count && m.last_used_ms == now.last_used_ms
                            && m.metadata@ == now.metadata@
                        &&& final(self).stats() == (LoadStats {
                            successful_loads: (old(self).stats().successful_loads + 1) as u64,
                            ..old(self).stats()
                        })
                    },
                },
            },
    {
        let path = match found {
            None => {
                return Err(
                    EdgeComputeError::Validation {
                        message: concat2("Model not found: ", model_name),
                        field: Some(String::from_str("model_name")),
                        value: Some(String::from_str(model_name)),
                    },
                );
            },
            Some(p) => p,
        };
        let size = match file_size {
            Err(reason) => {
                return Err(
                    EdgeComputeError::Config {
                        message: concat2("Failed to read model metadata: ", reason.as_str()),
                        source: Some(String::from_str("model-loader")),
                    },
                );
            },
            Ok(s) => s,
        };
        let info = ModelInfo {
            name: String::from_str(model_name),
            path: path.clone(),
            model_type: detect_model_type(path.as_str()),
            file_size: size,
            loaded_at_ms: Some(now_ms),
            usage_count: 1,
            last_used_ms: Some(now_ms),
            metadata: StringMap::new(),
        };
        let copy = info.duplicate();
        self.models.insert(String::from_str(model_name), info);
        self.stats.successful_loads = self.stats.successful_loads + 1;
        proof {
            assert(self.models@.dom() =~= old(self).models@.dom().insert(model_name@));
        }
        Ok(copy)
    }

    /// Counts a scan of the model directory.
    pub fn count_scan(&mut self)
        requires
            old(self).stats().total_scans < u64::MAX,
        ensures
            final(self).configuration() == old(self).configuration(),
            final(self).models() == old(self).models(),
            final(self).wf() == old(self).wf(),
            final(self).stats() == (LoadStats { total_scans: (old(self).stats().total_scans + 1) as u64, ..old(self).stats() }),
    {
        self.stats.total_scans = self.stats.total_scans + 1;
    }

    /// Records one file a scan found, with its size: a model file is listed under
    /// its stem, keeping the load time and use counts of a model known by that name.
    pub fn record_scanned_file(&mut self, path: &str, size: u64)
        requires
            old(self).wf(),
        ensures
            final(self).wf(),
            final(self).configuration() == old(self).configuration(),
            final(self).stats() == old(self).stats(),
            !is_model_path(path@) ==> final(self).models() == old(self).models(),
            is_model_path(path@) ==> {
                let name = scanned_name(path@);
                &&& final(self).models().dom() == old(self).models().dom().insert(name)
                &&& forall|k: Seq<char>| #[trigger] final(self).models().contains_key(k) && k != name ==> final(self).models()[k] == old(self).models()[k]
                &&& scanned_entry(old(self).models(), path@, size, final(self).models()[name])
            },
    {
        if !is_model_file(path) {
            return;
        }
        let name = match file_stem_of(path) {
            Some(s) => s,
            None => String::from_str("unknown"),
        };
        let (loaded_at_ms, usage_count, last_used_ms) = match self.models.get(name.as_str()) {
            Some(existing) => (existing.loaded_at_ms, existing.usage_count, existing.last_used_ms),
            None => (None, 0, None),
        };
        let info = ModelInfo {
            name: name.clone(),
            path: String::from_str(path),
            model_type: detect_model_type(path),
            file_size: size,
            loaded_at_ms,
            usage_count,
            last_used_ms,
            metadata: StringMap::new(),
        };
        self.models.insert(name, info);
        proof {
            assert(self.models@.dom() =~= old(self).models@.dom().insert(scanned_name(path@)));
        }
    }

    /// Copies of all known models.
    pub fn list_models(&self) -> (v: Vec<ModelInfo>)
        requires
            self.wf(),
        ensures
            v@.len() == self.models().dom().len(),
            forall|i: int| 0 <= i < v@.len() ==> known_model(self.models(), #[trigger] v@[i]),
    {
        proof {
            self.models.lemma_enumeration();
        }
        let n = self.models.len();
        let mut v: Vec<ModelInfo> = Vec::new();
        let mut i: usize = 0;
        while i < n
            invariant
                self.wf(),
                n == self.models.key_seq().len(),
                n == self.models.val_seq().len(),
                forall|j: int| 0 <= j < n ==> #[trigger] self.models@[self.models.key_seq()[j]]
                    == self.models.val_seq()[j],
                self.models@.dom() == self.models.key_seq().to_set(),
                i <= n,
                v@.len() == i,
                forall|j: int| 0 <= j < i ==> known_model(self.models@, #[trigger] v@[j]),
            decreases n - i,
        {
            let m = self.models.value_at(i);
            proof {
                let k = self.models.key_seq()[i as int];
                assert(self.models.key_seq().contains(k));
                assert(self.models@.contains_key(k));
                assert(self.models@[k] == *m);
            }
            let c = m.duplicate();
            proof {
                let k = self.models.key_seq()[i as int];
                assert(same_model(self.models@[k], c));
            }
            v.push(c);
            i += 1;
        }
        v
    }

    /// A copy of the model known by this name.
    pub fn get_model_info(&self, model_name: &str) -> (r: Option<ModelInfo>)
        requires
            self.wf(),
        ensures
            match r {
                Some(m) => self.models().contains_key(model_name@) && m.name == self.models()[model_name@].name
                    && m.path == self.models()[model_name@].path && m.usage_count == self.models()[model_name@].usage_count
                    && m.file_size == self.models()[model_name@].file_size
                    && m.last_used_ms == self.models()[model_name@].last_used_ms,
                None => !self.models().contains_key(model_name@),
            },
    {
        match self.models.get(model_name) {
            Some(m) => Some(m.duplicate()),
            None => None,
        }
    }

    /// Forgets a model; one that is not known is refused.
    pub fn unload_model(&mut self, model_name: &str) -> (r: Result<(), EdgeComputeError>)
        requires
            old(self).wf(),
        ensures
            final(self).wf(),
            final(self).configuration() == old(self).configuration(),
            final(self).stats() == old(self).stats(),
            final(self).models() == old(self).models().remove(model_name@),
            old(self).models().contains_key(model_name@) ==> r is Ok,
            !old(self).models().contains_key(model_name@) ==> r is Err && is_validation_error(
                r->Err_0,
                "Model not found in cache: "@ + model_name@,
                "model_name"@,
                model_name@,
            ),
    {
        match self.models.take(model_name) {
            Some(_) => Ok(()),
            None => Err(
                EdgeComputeError::Validation {
                    message: concat2("Model not found in cache: ", model_name),
                    field: Some(String::from_str("model_name")),
                    value: Some(String::from_str(model_name)),
                },
            ),
        }
    }

    pub fn get_stats(&self) -> (s: LoadStats)
        ensures
            s == self.stats(),
    {
        self.stats
    }
}

/// Whether a model stays through a cache clearing at `now_ms`: one never used, or
/// used within the last hour.
pub open spec fn kept_on_clear(info: ModelInfo, now_ms: u64) -> bool {
    match info.last_used_ms {
        None => true,
        Some(t) => t > now_ms - 3600000,
    }
}

impl ModelLoader {
    /// Forgets the models last used an hour or more before `now_ms`.
    pub fn clear_cache(&mut self, now_ms: u64) -> (r: Result<(), EdgeComputeError>)
        requires
            old(self).wf(),
        ensures
            final(self).wf(),
            final(self).configuration() == old(self).configuration(),
            final(self).stats() == old(self).stats(),
            final(self).models() == old(self).models().restrict(
                old(self).models().dom().filter(|k: Seq<char>| kept_on_clear(old(self).models()[k], now_ms)),
            ),
            r is Ok,
    {
        let ghost before = self.models@;
        let keys = self.models.keys();
        proof {
            self.models.lemma_enumeration();
        }
        let mut i: usize = 0;
        while i < keys.len()
            invariant
                self.wf(),
                self.config == old(self).config,
                self.stats == old(self).stats,
                before == old(self).models@,
                chars_of(keys@) == old(self).models.key_seq(),
                before.dom() == old(self).models.key_seq().to_set(),
                i <= keys.len(),
                self.models@ == before.restrict(
                    before.dom().filter(
                        |k: Seq<char>| !(!kept_on_clear(before[k], now_ms) && chars_of(keys@).take(i as int).contains(k)),
                    ),
                ),
            decreases keys.len() - i,
        {
            let ghost prev = self.models@;
            let key = &keys[i];
            proof {
                assert(chars_of(keys@)[i as int] == key@);
                assert(old(self).models.key_seq().contains(key@));
            }
            let drop = match self.models.get(key.as_str()) {
                Some(m) => match m.last_used_ms {
                    None => false,
                    Some(t) => {
                        if now_ms >= 3600000 {
                            t <= now_ms - 3600000
                        } else {
                            false
                        }
                    },
                },
                None => false,
            };
            if drop {
                let _ = self.models.take(key.as_str());
            }
            proof {
                let t0 = chars_of(keys@).take(i as int);
                let t1 = chars_of(keys@).take(i as int + 1);
                assert(t1 =~= t0.push(key@));
                assert(prev.contains_key(key@) ==> prev[key@] == before[key@]);
                assert(self.models@ =~= before.restrict(
                    before.dom().filter(
                        |k: Seq<char>| !(!kept_on_clear(before[k], now_ms) && t1.contains(k)),
                    ),
                )) by {
                    assert forall|k: Seq<char>| t1.contains(k) <==> (t0.contains(k) || k == key@) by {
                        if t1.contains(k) {
                            let x = choose|x: int| 0 <= x < t1.len() && t1[x] == k;
                            if x < t0.len() {
                                assert(t0[x] == k);
                            }
                        }
                        if t0.contains(k) {
                            let x = choose|x: int| 0 <= x < t0.len() && t0[x] == k;
                            assert(t1[x] == k);
                        }
                        if k == key@ {
                            assert(t1[i as int] == k);
                        }
                    }
                }
            }
            i += 1;
        }
        proof {
            let ks = chars_of(keys@);
            assert(ks.take(keys@.len() as int) =~= ks);
            assert(self.models@ =~= before.restrict(
                before.dom().filter(|k: Seq<char>| kept_on_clear(before[k], now_ms)),
            )) by {
                assert forall|k: Seq<char>| before.contains_key(k) implies ks.contains(k) by {
                    assert(before.dom().contains(k));
                }
            }
        }
        Ok(())
    }
}

/// Settings of the WebAssembly sandbox.
#[derive(Debug, Clone, Copy)]
pub struct WasmSandboxConfig {
    pub max_execution_time_ms: u64,
    pub max_memory_mb: u64,
    pub enable_wasi: bool,
    pub enable_threads: bool,
}

impl WasmSandboxConfig {
    /// Thirty seconds, 256 MB, WASI on, threads off.
    pub fn default() -> (c: WasmSandboxConfig)
        ensures
            c.max_execution_time_ms == 30000,
            c.max_memory_mb == 256,
            c.enable_wasi,
            !c.enable_threads,
    {
        WasmSandboxConfig { max_execution_time_ms: 30000, max_memory_mb: 256, enable_wasi: true, enable_threads: false }
    }
}

/// Counts of module executions.
#[derive(Debug, Clone, Copy, PartialEq, Eq, Structural)]
pub struct WasmExecutionStats {
    pub total_executions: u64,
    pub successful_executions: u64,
    pub failed_executions: u64,
}

/// The error of running WebAssembly without a WebAssembly runtime built in.
pub open spec fn wasm_disabled(e: EdgeComputeError) -> bool {
    match e {
        EdgeComputeError::Config { message, source: Some(s) } => message@
            == "WASM support not enabled. Please enable the 'wasm' feature."@ && s@ == "python-wasm"@,
        _ => false,
    }
}

/// The WebAssembly sandbox.  No WebAssembly runtime is built in: modules are refused.
pub struct WasmSandbox {
    config: WasmSandboxConfig,
    stats: WasmExecutionStats,
}

impl WasmSandbox {
    pub closed spec fn configuration(&self) -> WasmSandboxConfig {
        self.config
    }

    pub closed spec fn stats(&self) -> WasmExecutionStats {
        self.stats
    }

    pub fn new(config: WasmSandboxConfig) -> (r: Result<WasmSandbox, EdgeComputeError>)
        ensures
            r matches Ok(w) && w.configuration() == config && w.stats() == (WasmExecutionStats {
                total_executions: 0,
                successful_executions: 0,
                failed_executions: 0,
            }),
    {
        Ok(WasmSandbox { config, stats: WasmExecutionStats { total_executions: 0, successful_executions: 0, failed_executions: 0 } })
    }

    /// Runs a function of a module: refused, as no runtime is built in.
    pub fn execute_module(&self, wasm_bytes: &[u8], function_name: &str, args: Vec<serde_json::Value>) -> (r: Result<
        serde_json::Value,
        EdgeComputeError,
    >)
        ensures
            r is Err && wasm_disabled(r->Err_0),
    {
        Err(
            EdgeComputeError::Config {
                message: String::from_str("WASM support not enabled. Please enable the 'wasm' feature."),
                source: Some(String::from_str("python-wasm")),
            },
        )
    }

    pub fn get_stats(&self) -> (s: WasmExecutionStats)
        ensures
            s == self.stats(),
    {
        self.stats
    }
}

/// Settings of the Python executor.
#[derive(Debug, Clone)]
pub struct PythonExecutorConfig {
    pub python_version: String,
    pub max_execution_time_seconds: u64,
    pub max_memory_mb: Option<u64>,
    pub allowed_modules: Vec<String>,
    pub sandbox_mode: bool,
}

impl PythonExecutorConfig {
    /// Python 3.11, thirty seconds, 512 MB, the json, math and numpy modules, sandboxed.
    pub fn default() -> (c: PythonExecutorConfig)
        ensures
            c.python_version@ == "3.11"@,
            c.max_execution_time_seconds == 30,
            c.max_memory_mb == Some(512u64),
            chars_of(c.allowed_modules@) == seq!["json"@, "math"@, "numpy"@],
            c.sandbox_mode,
    {
        let mut allowed: Vec<String> = Vec::new();
        allowed.push(String::from_str("json"));
        allowed.push(String::from_str("math"));
        allowed.push(String::from_str("numpy"));
        proof {
            assert(chars_of(allowed@) =~= seq!["json"@, "math"@, "numpy"@]);
        }
        PythonExecutorConfig {
            python_version: String::from_str("3.11"),
            max_execution_time_seconds: 30,
            max_memory_mb: Some(512),
            allowed_modules: allowed,
            sandbox_mode: true,
        }
    }
}

/// Counts of code executions.
#[derive(Debug, Clone, Copy, PartialEq, Eq, Structural)]
pub struct ExecutionStats {
    pub total_executions: u64,
    pub successful_executions: u64,
    pub failed_executions: u64,
}

/// Memory of the Python work and the durations of its runs, in milliseconds.
#[derive(Debug)]
pub struct ResourceMonitor {
    pub current_memory_bytes: u64,
    pub peak_memory_bytes: u64,
    pub execution_times_ms: Vec<u64>,
}

/// The text of running Python without an interpreter built in.
pub open spec fn python_disabled_text() -> Seq<char> {
    "Python support not enabled. Please enable the 'python' feature."@
}

/// The Python executor.  No interpreter is built in: running code is refused.
pub struct PythonExecutor {
    config: PythonExecutorConfig,
    stats: ExecutionStats,
    dependency_manager: Option<DependencyManager>,
    model_loader: Option<ModelLoader>,
    resource_monitor: ResourceMonitor,
    initialized: bool,
}

impl PythonExecutor {
    pub closed spec fn configuration(&self) -> PythonExecutorConfig {
        self.config
    }

    pub closed spec fn stats(&self) -> ExecutionStats {
        self.stats
    }

    pub closed spec fn dependencies(&self) -> Option<DependencyManager> {
        self.dependency_manager
    }

    pub closed spec fn loader(&self) -> Option<ModelLoader> {
        self.model_loader
    }

    /// Memory in use and at its peak, in bytes.
    pub closed spec fn memory(&self) -> (u64, u64) {
        (self.resource_monitor.current_memory_bytes, self.resource_monitor.peak_memory_bytes)
    }

    /// Durations of the runs, in milliseconds.
    pub closed spec fn run_times(&self) -> Seq<u64> {
        self.resource_monitor.execution_times_ms@
    }

    /// An executor with a package manager when sandboxed and a model loader, both
    /// with their default settings (their directories are the caller's).
    pub fn new(config: PythonExecutorConfig) -> (r: Result<PythonExecutor, crate::types::EdgeComputeError>)
        ensures
            match r {
                Ok(p) => {
                    &&& p.configuration() == config
                    &&& p.stats() == (ExecutionStats { total_executions: 0, successful_executions: 0, failed_executions: 0 })
                    &&& (p.dependencies() is Some) == config.sandbox_mode
                    &&& p.dependencies() matches Some(d) ==> d.wf() && d.installed() == Map::<Seq<char>, InstalledDependency>::empty()
                    &&& p.loader() matches Some(l) && l.wf() && l.models() == Map::<Seq<char>, ModelInfo>::empty()
                },
                Err(_) => false,
            },
    {
        let dependency_manager = if config.sandbox_mode {
            Some(DependencyManager::new(DependencyManagerConfig::default()))
        } else {
            None
        };
        Ok(
            PythonExecutor {
                config,
                stats: ExecutionStats { total_executions: 0, successful_executions: 0, failed_executions: 0 },
                dependency_manager,
                model_loader: Some(ModelLoader::new(ModelLoaderConfig::default())),
                resource_monitor: ResourceMonitor { current_memory_bytes: 0, peak_memory_bytes: 0, execution_times_ms: Vec::new() },
                initialized: false,
            },
        )
    }

    /// Refused: no interpreter is built in.
    pub fn initialize(&mut self) -> (r: Result<(), crate::types::EdgeComputeError>)
        ensures
            r matches Err(e) && e.0@ == "Configuration error: "@ + python_disabled_text(),
            final(self).configuration() == old(self).configuration(),
            final(self).stats() == old(self).stats(),
    {
        Err(config_error("Python support not enabled. Please enable the 'python' feature."))
    }

    /// Refused: no interpreter is built in.
    pub fn execute_script(&self, script_name: &str, args: serde_json::Value) -> (r: Result<
        serde_json::Value,
        crate::types::EdgeComputeError,
    >)
        ensures
            r matches Err(e) && e.0@ == "Configuration error: "@ + python_disabled_text(),
    {
        Err(config_error("Python support not enabled. Please enable the 'python' feature."))
    }

    /// Refused: no interpreter is built in.
    pub fn execute_code(&self, code: &str) -> (r: Result<String, crate::types::EdgeComputeError>)
        ensures
            r matches Err(e) && e.0@ == python_disabled_text(),
    {
        Err(crate::types::EdgeComputeError(String::from_str("Python support not enabled. Please enable the 'python' feature.")))
    }

    /// Refused: no interpreter is built in.
    pub fn call_function(&self, module_name: &str, function_name: &str, args: Vec<serde_json::Value>) -> (r: Result<
        serde_json::Value,
        crate::types::EdgeComputeError,
    >)
        ensures
            r matches Err(e) && e.0@ == python_disabled_text(),
    {
        Err(crate::types::EdgeComputeError(String::from_str("Python support not enabled. Please enable the 'python' feature.")))
    }

    pub fn get_stats(&self) -> (s: ExecutionStats)
        ensures
            s == self.stats(),
    {
        self.stats
    }

    pub fn dependency_manager(&self) -> (d: Option<&DependencyManager>)
        ensures
            match d {
                Some(m) => self.dependencies() == Some(*m),
                None => self.dependencies() is None,
            },
    {
        self.dependency_manager.as_ref()
    }

    pub fn model_loader(&self) -> (l: Option<&ModelLoader>)
        ensures
            match l {
                Some(m) => self.loader() == Some(*m),
                None => self.loader() is None,
            },
    {
        self.model_loader.as_ref()
    }

    /// A copy of the resource figures.
    pub fn get_resource_monitor(&self) -> (m: ResourceMonitor)
        ensures
            m.current_memory_bytes == self.memory().0,
            m.peak_memory_bytes == self.memory().1,
            m.execution_times_ms@ == self.run_times(),
    {
        ResourceMonitor {
            current_memory_bytes: self.resource_monitor.current_memory_bytes,
            peak_memory_bytes: self.resource_monitor.peak_memory_bytes,
            execution_times_ms: self.resource_monitor.execution_times_ms.clone(),
        }
    }
}

/// Settings of the Python and WebAssembly executor.
#[derive(Debug, Clone)]
pub struct PythonWasmExecutorConfig {
    pub python_config: PythonExecutorConfig,
    pub wasm_config: WasmSandboxConfig,
    pub max_concurrent_tasks: usize,
    pub task_timeout_ms: u64,
}

impl PythonWasmExecutorConfig {
    /// Default Python and sandbox settings, ten tasks at once, thirty seconds each.
    pub fn default() -> (c: PythonWasmExecutorConfig)
        ensures
            c.python_config.python_version@ == "3.11"@,
            c.python_config.sandbox_mode,
            c.python_config.max_memory_mb == Some(512u64),
            c.wasm_config.max_execution_time_ms == 30000,
            c.max_concurrent_tasks == 10,
            c.task_timeout_ms == 30000,
    {
        PythonWasmExecutorConfig {
            python_config: PythonExecutorConfig::default(),
            wasm_config: WasmSandboxConfig::default(),
            max_concurrent_tasks: 10,
            task_timeout_ms: 30000,
        }
    }
}

/// Counts and total duration of the tasks run.
#[derive(Debug, Clone, Copy, PartialEq, Eq, Structural)]
pub struct TaskStats {
    pub total_executions: u64,
    pub successful_executions: u64,
    pub failed_executions: u64,
    pub total_execution_time_ms: u64,
}

/// The kind of Python work an algorithm asks for.
#[derive(Debug, Clone, Copy, PartialEq, Eq, Structural)]
pub enum PythonTask {
    /// Run the code given.
    Code,
    /// Run a candle model through Python.
    CandleModel,
}

/// The program that runs a candle model on some input, given as JSON text.
pub open spec fn candle_script_text(model_path: Seq<char>, input_json: Seq<char>) -> Seq<char> {
    "\nimport json\nimport sys\nimport candle_pyo3 as candle\n\nmodel = candle.load_model(\""@ + model_path
        + "\")\n\ninput_data = json.loads('"@ + input_json
        + "')\n\nresult = model.infer(input_data)\n\noutput = {\n    \"result\": result,\n    \"status\": \"success\"\n}\nprint(json.dumps(output))\n"@
}

/// The program that runs a candle model on some input, given as JSON text.
pub fn candle_script(model_path: &str, input_json: &str) -> (s: String)
    ensures
        s@ == candle_script_text(model_path@, input_json@),
{
    let mut s = String::from_str("\nimport json\nimport sys\nimport candle_pyo3 as candle\n\nmodel = candle.load_model(\"");
    s.append(model_path);
    s.append("\")\n\ninput_data = json.loads('");
    s.append(input_json);
    s.append("')\n\nresult = model.infer(input_data)\n\noutput = {\n    \"result\": result,\n    \"status\": \"success\"\n}\nprint(json.dumps(output))\n");
    s
}

/// A validation error with this message about this field, with no value.
pub open spec fn is_missing_parameter(e: EdgeComputeError, message: Seq<char>, field: Seq<char>) -> bool {
    match e {
        EdgeComputeError::Validation { message: m, field: Some(f), value: None } => m@ == message && f@ == field,
        _ => false,
    }
}

/// The executor of Python code and WebAssembly modules: admission within the
/// concurrency limit, routing, and the counts of the tasks run.
pub struct PythonWasmExecutor {
    name: String,
    version: String,
    supported_algorithms: Vec<String>,
    config: PythonWasmExecutorConfig,
    python_executor: PythonExecutor,
    wasm_sandbox: WasmSandbox,
    stats: TaskStats,
    active: usize,
}

impl PythonWasmExecutor {
    pub closed spec fn configuration(&self) -> PythonWasmExecutorConfig {
        self.config
    }

    pub closed spec fn stats(&self) -> TaskStats {
        self.stats
    }

    pub closed spec fn active(&self) -> nat {
        self.active as nat
    }

    pub closed spec fn executor_name(&self) -> Seq<char> {
        self.name@
    }

    pub closed spec fn executor_version(&self) -> Seq<char> {
        self.version@
    }

    pub closed spec fn algorithms(&self) -> Seq<Seq<char>> {
        chars_of(self.supported_algorithms@)
    }

    pub closed spec fn python_stats(&self) -> ExecutionStats {
        self.python_executor.stats()
    }

    pub closed spec fn wasm_stats(&self) -> WasmExecutionStats {
        self.wasm_sandbox.stats()
    }

    /// An executor with the default settings.
    pub fn new() -> (r: Result<PythonWasmExecutor, EdgeComputeError>)
        ensures
            r matches Ok(e) && e.executor_name() == "python-wasm"@ && e.executor_version() == "1.0.0"@
                && e.algorithms() == seq!["custom_python"@, "candle_python"@] && e.active() == 0
                && e.configuration().max_concurrent_tasks == 10,
    {
        Self::with_config(PythonWasmExecutorConfig::default())
    }

    /// An executor with these settings: named "python-wasm", version 1.0.0, running
    /// custom_python and candle_python, with nothing counted.
    pub fn with_config(config: PythonWasmExecutorConfig) -> (r: Result<PythonWasmExecutor, EdgeComputeError>)
        ensures
            r matches Ok(e) && e.configuration() == config && e.executor_name() == "python-wasm"@
                && e.executor_version() == "1.0.0"@ && e.algorithms() == seq!["custom_python"@, "candle_python"@]
                && e.active() == 0 && e.stats() == (TaskStats {
                total_executions: 0,
                successful_executions: 0,
                failed_executions: 0,
                total_execution_time_ms: 0,
            }),
    {
        let python_executor = match PythonExecutor::new(config.python_config.clone()) {
            Ok(p) => p,
            Err(e) => {
                return Err(
                    EdgeComputeError::Config {
                        message: concat2("Failed to create Python executor: ", e.0.as_str()),
                        source: Some(String::from_str("python-wasm")),
                    },
                );
            },
        };
        let wasm_sandbox = match WasmSandbox::new(config.wasm_config) {
            Ok(w) => w,
            Err(e) => {
                return Err(
                    EdgeComputeError::Config {
                        message: concat2("Failed to create WASM sandbox: ", crate::error::EdgeComputeError::to_message(&e).as_str()),
                        source: Some(String::from_str("python-wasm")),
                    },
                );
            },
        };
        let mut algorithms: Vec<String> = Vec::new();
        algorithms.push(String::from_str("custom_python"));
        algorithms.push(String::from_str("candle_python"));
        proof {
            assert(chars_of(algorithms@) =~= seq!["custom_python"@, "candle_python"@]);
        }
        Ok(
            PythonWasmExecutor {
                name: String::from_str("python-wasm"),
                version: String::from_str("1.0.0"),
                supported_algorithms: algorithms,
                config,
                python_executor,
                wasm_sandbox,
                stats: TaskStats { total_executions: 0, successful_executions: 0, failed_executions: 0, total_execution_time_ms: 0 },
                active: 0,
            },
        )
    }

    pub fn name(&self) -> (s: &str)
        ensures
            s@ == self.executor_name(),
    {
        self.name.as_str()
    }

    pub fn version(&self) -> (s: &str)
        ensures
            s@ == self.executor_version(),
    {
        self.version.as_str()
    }

    pub fn supported_algorithms(&self) -> (v: Vec<String>)
        ensures
            chars_of(v@) == self.algorithms(),
    {
        crate::error::clone_strings(&self.supported_algorithms)
    }

    /// Admits a task: refused while as many as allowed are running; an admitted
    /// one is counted and becomes active.
    pub fn begin_task(&mut self) -> (r: Result<(), EdgeComputeError>)
        requires
            old(self).stats().total_executions < u64::MAX,
        ensures
            final(self).configuration() == old(self).configuration(),
            final(self).executor_name() == old(self).executor_name(),
            if old(self).active() >= old(self).configuration().max_concurrent_tasks {
                &&& r matches Err(EdgeComputeError::ResourceExhausted { resource, requested, available })
                &&& resource@ == "concurrency"@
                &&& requested == Some(old(self).configuration().max_concurrent_tasks as u64)
                &&& available == Some(old(self).active() as u64)
                &&& final(self).active() == old(self).active()
                &&& final(self).stats() == old(self).stats()
            } else {
                &&& r is Ok
                &&& final(self).active() == old(self).active() + 1
                &&& final(self).stats() == (TaskStats { total_executions: (old(self).stats().total_executions + 1) as u64, ..old(self).stats() })
            },
    {
        if self.active >= self.config.max_concurrent_tasks {
            return Err(
                EdgeComputeError::ResourceExhausted {
                    resource: String::from_str("concurrency"),
                    requested: Some(self.config.max_concurrent_tasks as u64),
                    available: Some(self.active as u64),
                },
            );
        }
        self.active = self.active + 1;
        self.stats.total_executions = self.stats.total_executions + 1;
        Ok(())
    }

    /// The work an algorithm asks for, or the refusal of one this executor does not run.
    pub fn route(&self, algorithm: &str) -> (r: Result<PythonTask, EdgeComputeError>)
        ensures
            algorithm@ == "custom_python"@ ==> r == Ok::<PythonTask, EdgeComputeError>(PythonTask::Code),
            algorithm@ == "candle_python"@ ==> r == Ok::<PythonTask, EdgeComputeError>(PythonTask::CandleModel),
            algorithm@ != "custom_python"@ && algorithm@ != "candle_python"@ ==> r is Err && is_validation_error(
                r->Err_0,
                "Unsupported algorithm: "@ + algorithm@,
                "algorithm"@,
                algorithm@,
            ),
    {
        proof {
            reveal_strlit("custom_python");
            reveal_strlit("candle_python");
            assert("custom_python"@[1] != "candle_python"@[1]);
        }
        let a = String::from_str(algorithm);
        if a == String::from_str("custom_python") {
            Ok(PythonTask::Code)
        } else if a == String::from_str("candle_python") {
            Ok(PythonTask::CandleModel)
        } else {
            Err(
                EdgeComputeError::Validation {
                    message: concat2("Unsupported algorithm: ", algorithm),
                    field: Some(String::from_str("algorithm")),
                    value: Some(a),
                },
            )
        }
    }

    /// Runs the code of a request: the code must be given.
    pub fn run_code(&self, code: Option<&str>) -> (r: Result<String, EdgeComputeError>)
        ensures
            match code {
                None => r is Err && is_missing_parameter(r->Err_0, "Missing 'code' parameter"@, "parameters.code"@),
                Some(_) => r matches Err(EdgeComputeError::Unknown { message, context }) && message@ == python_disabled_text() && context is None,
            },
    {
        let code = match code {
            Some(c) => c,
            None => {
                return Err(
                    EdgeComputeError::Validation {
                        message: String::from_str("Missing 'code' parameter"),
                        field: Some(String::from_str("parameters.code")),
                        value: None,
                    },
                );
            },
        };
        match self.python_executor.execute_code(code) {
            Ok(out) => Ok(out),
            Err(e) => Err(EdgeComputeError::Unknown { message: e.0, context: None }),
        }
    }

    /// Runs a candle model of a request on its input (JSON text): the model path
    /// must be given.
    pub fn run_candle_model(&self, model_path: Option<&str>, input_json: &str) -> (r: Result<String, EdgeComputeError>)
        ensures
            match model_path {
                None => r is Err && is_missing_parameter(r->Err_0, "Missing 'model_path' parameter"@, "parameters.model_path"@),
                Some(_) => r matches Err(EdgeComputeError::Unknown { message, context }) && message@ == python_disabled_text() && context is None,
            },
    {
        let model_path = match model_path {
            Some(p) => p,
            None => {
                return Err(
                    EdgeComputeError::Validation {
                        message: String::from_str("Missing 'model_path' parameter"),
                        field: Some(String::from_str("parameters.model_path")),
                        value: None,
                    },
                );
            },
        };
        let script = candle_script(model_path, input_json);
        match self.python_executor.execute_code(script.as_str()) {
            Ok(out) => Ok(out),
            Err(e) => Err(EdgeComputeError::Unknown { message: e.0, context: None }),
        }
    }

    /// Ends an admitted task that took `elapsed_ms` and succeeded or not.
    pub fn finish_task(&mut self, succeeded: bool, elapsed_ms: u64)
        requires
            old(self).stats().total_execution_time_ms + elapsed_ms <= u64::MAX,
            succeeded ==> old(self).stats().successful_executions < u64::MAX,
            !succeeded ==> old(self).stats().failed_executions < u64::MAX,
        ensures
            final(self).configuration() == old(self).configuration(),
            final(self).executor_name() == old(self).executor_name(),
            final(self).active() == (if old(self).active() > 0 { old(self).active() - 1 } else { 0 }),
            final(self).stats() == (TaskStats {
                total_executions: old(self).stats().total_executions,
                successful_executions: (old(self).stats().successful_executions + if succeeded { 1int } else { 0 }) as u64,
                failed_executions: (old(self).stats().failed_executions + if succeeded { 0int } else { 1 }) as u64,
                total_execution_time_ms: (old(self).stats().total_execution_time_ms + elapsed_ms) as u64,
            }),
    {
        self.stats.total_execution_time_ms = self.stats.total_execution_time_ms + elapsed_ms;
        if succeeded {
            self.stats.successful_executions = self.stats.successful_executions + 1;
        } else {
            self.stats.failed_executions = self.stats.failed_executions + 1;
        }
        self.active = self.active.saturating_sub(1);
    }

    pub fn get_execution_stats(&self) -> (s: TaskStats)
        ensures
            s == self.stats(),
    {
        self.stats
    }

    pub fn get_active_tasks_count(&self) -> (n: usize)
        ensures
            n == self.active(),
    {
        self.active
    }

    /// Memory the executor asks for: the Python limit, 512 MB when there is none.
    pub fn memory_requirement_mb(&self) -> (m: u64)
        ensures
            m == match self.configuration().python_config.max_memory_mb {
                Some(v) => v,
                None => 512,
            },
    {
        match self.config.python_config.max_memory_mb {
            Some(v) => v,
            None => 512,
        }
    }

    /// Healthy below the concurrency limit; the details name the counts.
    pub fn health_check(&self) -> (h: crate::cpp::HealthStatus)
        ensures
            h.healthy == (self.active() < self.configuration().max_concurrent_tasks),
            h.healthy ==> h.message@ == "Python WASM Executor is healthy"@,
            !h.healthy ==> h.message@ == "Python WASM Executor health check failed: "@ + decimal(self.active())
                + " active tasks"@,
            h.details@.len() == 6,
            h.details@[0].0@ == "active_tasks"@ && h.details@[0].1@ == decimal(self.active()),
            h.details@[1].0@ == "total_executions"@ && h.details@[1].1@ == decimal(self.stats().total_executions as nat),
            h.details@[2].0@ == "successful_executions"@ && h.details@[2].1@ == decimal(
                self.stats().successful_executions as nat,
            ),
            h.details@[3].0@ == "failed_executions"@ && h.details@[3].1@ == decimal(self.stats().failed_executions as nat),
            h.details@[4].0@ == "python_total_executions"@ && h.details@[4].1@ == decimal(
                self.python_stats().total_executions as nat,
            ),
            h.details@[5].0@ == "wasm_total_executions"@ && h.details@[5].1@ == decimal(
                self.wasm_stats().total_executions as nat,
            ),
    {
        let healthy = self.active < self.config.max_concurrent_tasks;
        let python_stats = self.python_executor.get_stats();
        let wasm_stats = self.wasm_sandbox.get_stats();
        let mut details: Vec<(String, String)> = Vec::new();
        details.push((String::from_str("active_tasks"), decimal_string(self.active as u64)));
        details.push((String::from_str("total_executions"), decimal_string(self.stats.total_executions)));
        details.push((String::from_str("successful_executions"), decimal_string(self.stats.successful_executions)));
        details.push((String::from_str("failed_executions"), decimal_string(self.stats.failed_executions)));
        details.push((String::from_str("python_total_executions"), decimal_string(python_stats.total_executions)));
        details.push((String::from_str("wasm_total_executions"), decimal_string(wasm_stats.total_executions)));
        let message = if healthy {
            String::from_str("Python WASM Executor is healthy")
        } else {
            let n = decimal_string(self.active as u64);
            let m = concat2("Python WASM Executor health check failed: ", n.as_str());
            concat2(m.as_str(), " active tasks")
        };
        crate::cpp::HealthStatus { healthy, message, details }
    }
}

/// What a requirement pin writes, parsing reads back: `name==version` gives the
/// name and the version, and a bare name gives the name alone, for a name with no
/// `==` in it that does not end in `=`.
pub proof fn lemma_requirement_round_trip(package: Seq<char>, version: Seq<char>)
    requires
        !contains_seq(package, "=="@),
        package.len() == 0 || package.last() != '=',
    ensures
        requirement_parts(package_spec_of(package, Some(version))) == (package, Some(version)),
        requirement_parts(package_spec_of(package, None)) == (package, None::<Seq<char>>),
{
    reveal_strlit("==");
    assert("=="@ =~= seq!['=', '=']);
    let s = package + "=="@ + version;
    let n = package.len() as int;
    assert(s.subrange(n, n + 2) =~= "=="@);
    assert(occurs_at(s, "=="@, n));
    assert forall|j: int| 0 <= j < n implies !#[trigger] occurs_at(s, "=="@, j) by {
        if occurs_at(s, "=="@, j) {
            assert(s.subrange(j, j + 2)[0] == '=');
            assert(s.subrange(j, j + 2)[1] == '=');
            assert(s[j] == '=' && s[j + 1] == '=');
            if j + 1 < n {
                assert(package[j] == '=' && package[j + 1] == '=');
                assert(package.subrange(j, j + 2) =~= "=="@);
                assert(occurs_at(package, "=="@, j));
            } else {
                assert(package[n - 1] == '=');
            }
        }
    }
    assert(first_occurrence(s, "=="@, n));
    let c = choose|i: int| first_occurrence(s, "=="@, i);
    assert(first_occurrence(s, "=="@, c));
    assert(c == n) by {
        if c < n {
            assert(!occurs_at(s, "=="@, c));
        } else if c > n {
            assert(!occurs_at(s, "=="@, n));
        }
    }
    assert(s.take(n) =~= package);
    assert(s.skip(n + 2) =~= version);
    assert forall|i: int| !#[trigger] occurs_at(package, "=="@, i) by {}
}

} // verus!
