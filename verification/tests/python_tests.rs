use rust_edge_compute::error::EdgeComputeError;
use rust_edge_compute::python::{
    algorithm_execution_error, candle_script, config_error, detect_model_type, is_model_file, parse_requirement,
    pip_path, validation_error, DependencyManager, DependencyManagerConfig, InstallStep, ModelLoader,
    ModelLoaderConfig, PythonExecutor, PythonExecutorConfig, PythonTask, PythonWasmExecutor, WasmSandbox,
    WasmSandboxConfig,
};

fn test_dependency_config() -> DependencyManagerConfig {
    DependencyManagerConfig { cache_dir: "./test_cache".to_string(), use_venv: false, venv_dir: None, ..DependencyManagerConfig::default() }
}

fn test_loader_config() -> ModelLoaderConfig {
    ModelLoaderConfig { model_dir: "./test_models".to_string(), auto_scan: false, ..ModelLoaderConfig::default() }
}

#[test]
fn test_dependency_manager_creation() {
    let manager = DependencyManager::new(test_dependency_config());
    assert_eq!(manager.get_stats().total_installs, 0);
}

#[test]
fn test_dependency_manager_list() {
    let manager = DependencyManager::new(test_dependency_config());
    let installed = manager.list_installed();
    assert_eq!(installed.len(), 0);
}

#[test]
fn installs_are_counted_and_cached() {
    let mut manager = DependencyManager::new(test_dependency_config());
    match manager.begin_install("numpy", Some("1.26.0")) {
        InstallStep::Install { pip_path, package_spec } => {
            assert_eq!(pip_path, "pip");
            assert_eq!(package_spec, "numpy==1.26.0");
        }
        other => panic!("unexpected {:?}", other),
    }
    assert!(manager.finish_install("numpy", Some("1.26.0"), 42, Ok(())).is_ok());
    assert_eq!(manager.list_installed(), vec!["numpy".to_string()]);
    assert!(matches!(manager.begin_install("numpy", None), InstallStep::AlreadyInstalled));
    let stats = manager.get_stats();
    assert_eq!(stats.total_installs, 1);
    assert_eq!(stats.cache_hits, 1);
    let failed = manager.finish_install("scipy", None, 43, Err("pip install failed: boom".to_string())).unwrap_err();
    assert_eq!(failed.0, "Algorithm execution error: pip install failed: boom");
    assert!(manager.finish_uninstall("numpy", Ok(())).is_ok());
    assert!(manager.list_installed().is_empty());
    manager.finish_install("a", None, 1, Ok(())).unwrap();
    manager.clear_cache();
    assert!(manager.list_installed().is_empty());
}

#[test]
fn pip_of_the_virtual_environment() {
    let config = DependencyManagerConfig::default();
    assert_eq!(pip_path(&config), "./python_venv/bin/pip");
    let manager = DependencyManager::new(config);
    assert_eq!(manager.pip(), "./python_venv/bin/pip");
}

#[test]
fn requirements_split_at_the_first_pin() {
    assert_eq!(parse_requirement("numpy==1.2"), ("numpy".to_string(), Some("1.2".to_string())));
    assert_eq!(parse_requirement("torch"), ("torch".to_string(), None));
    assert_eq!(parse_requirement("a==b==c"), ("a".to_string(), Some("b==c".to_string())));
    assert_eq!(parse_requirement("x=="), ("x".to_string(), Some(String::new())));
}

#[test]
fn error_texts_carry_their_prefix() {
    assert_eq!(config_error("x").0, "Configuration error: x");
    assert_eq!(algorithm_execution_error("y").0, "Algorithm execution error: y");
    assert_eq!(validation_error("z").0, "Validation error: z");
}

#[test]
fn test_model_loader_creation() {
    let loader = ModelLoader::new(test_loader_config());
    assert_eq!(loader.get_stats().total_loads, 0);
}

#[test]
fn test_model_loader_list() {
    let loader = ModelLoader::new(test_loader_config());
    let models = loader.list_models();
    assert_eq!(models.len(), 0);
}

#[test]
fn model_files_are_told_by_extension() {
    assert!(is_model_file("m/net.PT"));
    assert!(is_model_file("a.joblib"));
    assert!(!is_model_file("notes.txt"));
    assert!(!is_model_file("noext"));
    assert_eq!(detect_model_type("x.pth"), "pytorch");
    assert_eq!(detect_model_type("x.onnx"), "onnx");
    assert_eq!(detect_model_type("x.pb"), "tensorflow");
    assert_eq!(detect_model_type("x.H5"), "keras");
    assert_eq!(detect_model_type("x.pkl"), "sklearn");
    assert_eq!(detect_model_type("x.model"), "unknown");
}

#[test]
fn models_load_and_hit_the_cache() {
    let mut loader = ModelLoader::new(test_loader_config());
    assert!(loader.begin_load("net", 1).is_none());
    let candidates = loader.candidate_paths("net");
    assert_eq!(candidates[0], "./test_models/net");
    assert_eq!(candidates[1], "./test_models/net.pt");
    assert_eq!(candidates[6], "./test_models/net.pkl");
    let info = loader.finish_load("net", Some(candidates[1].clone()), Ok(2048), 5).unwrap();
    assert_eq!(info.model_type, "pytorch");
    assert_eq!(info.usage_count, 1);
    assert_eq!(info.file_size, 2048);
    let again = loader.begin_load("net", 9).unwrap();
    assert_eq!(again.usage_count, 2);
    assert_eq!(again.last_used_ms, Some(9));
    let stats = loader.get_stats();
    assert_eq!((stats.total_loads, stats.successful_loads, stats.cache_hits), (1, 1, 1));
    match loader.finish_load("ghost", None, Ok(0), 1) {
        Err(EdgeComputeError::Validation { message, field, value }) => {
            assert_eq!(message, "Model not found: ghost");
            assert_eq!(field, Some("model_name".to_string()));
            assert_eq!(value, Some("ghost".to_string()));
        }
        other => panic!("unexpected {:?}", other),
    }
    match loader.finish_load("bad", Some("b.pt".to_string()), Err("denied".to_string()), 1) {
        Err(EdgeComputeError::Config { message, source }) => {
            assert_eq!(message, "Failed to read model metadata: denied");
            assert_eq!(source, Some("model-loader".to_string()));
        }
        other => panic!("unexpected {:?}", other),
    }
    assert!(loader.unload_model("net").is_ok());
    assert!(loader.unload_model("net").is_err());
}

#[test]
fn scans_keep_use_counts() {
    let mut loader = ModelLoader::new(test_loader_config());
    loader.finish_load("net", Some("./test_models/net.pt".to_string()), Ok(1), 100).unwrap();
    loader.count_scan();
    loader.record_scanned_file("./test_models/net.onnx", 77);
    loader.record_scanned_file("./test_models/readme.md", 5);
    loader.record_scanned_file("./test_models/other.h5", 3);
    assert_eq!(loader.get_stats().total_scans, 1);
    let net = loader.get_model_info("net").unwrap();
    assert_eq!(net.path, "./test_models/net.onnx");
    assert_eq!(net.file_size, 77);
    assert_eq!(net.usage_count, 1);
    let other = loader.get_model_info("other").unwrap();
    assert_eq!(other.usage_count, 0);
    assert_eq!(other.last_used_ms, None);
    assert!(loader.get_model_info("readme").is_none());
}

#[test]
fn clearing_drops_models_unused_for_an_hour() {
    let mut loader = ModelLoader::new(test_loader_config());
    loader.finish_load("old", Some("old.pt".to_string()), Ok(1), 1_000).unwrap();
    loader.finish_load("new", Some("new.pt".to_string()), Ok(1), 3_000_000).unwrap();
    loader.record_scanned_file("fresh.pt", 1);
    assert!(loader.clear_cache(3_601_000).is_ok());
    assert!(loader.get_model_info("old").is_none());
    assert!(loader.get_model_info("new").is_some());
    assert!(loader.get_model_info("fresh").is_some());
}

#[test]
fn test_wasm_sandbox_creation() {
    let sandbox = WasmSandbox::new(WasmSandboxConfig::default());
    assert!(sandbox.is_ok());
    let sandbox = sandbox.unwrap();
    assert_eq!(sandbox.get_stats().total_executions, 0);
    match sandbox.execute_module(&[0, 97, 115, 109], "main", Vec::new()) {
        Err(EdgeComputeError::Config { message, source }) => {
            assert_eq!(message, "WASM support not enabled. Please enable the 'wasm' feature.");
            assert_eq!(source, Some("python-wasm".to_string()));
        }
        other => panic!("unexpected {:?}", other),
    }
}

#[test]
fn test_python_executor_creation() {
    let executor = PythonExecutor::new(PythonExecutorConfig::default());
    assert!(executor.is_ok());
    let executor = executor.unwrap();
    assert!(executor.dependency_manager().is_some());
    assert!(executor.model_loader().is_some());
}

#[test]
fn test_python_executor_execute_code() {
    let mut executor = PythonExecutor::new(PythonExecutorConfig::default()).unwrap();
    assert_eq!(
        executor.initialize().unwrap_err().0,
        "Configuration error: Python support not enabled. Please enable the 'python' feature."
    );
    let result = executor.execute_code("print('hello')");
    assert_eq!(result.unwrap_err().0, "Python support not enabled. Please enable the 'python' feature.");
}

#[test]
fn test_python_wasm_executor_creation() {
    let executor = PythonWasmExecutor::new().unwrap();
    assert_eq!(executor.name(), "python-wasm");
    assert_eq!(executor.version(), "1.0.0");
    assert_eq!(executor.supported_algorithms(), vec!["custom_python", "candle_python"]);
}

#[test]
fn test_python_wasm_executor_health_check() {
    let executor = PythonWasmExecutor::new().unwrap();
    let health = executor.health_check();
    assert!(health.healthy);
    assert_eq!(health.message, "Python WASM Executor is healthy");
    assert_eq!(health.details[0], ("active_tasks".to_string(), "0".to_string()));
    assert_eq!(executor.memory_requirement_mb(), 512);
}

#[test]
fn python_tasks_are_admitted_and_routed() {
    let mut executor = PythonWasmExecutor::new().unwrap();
    assert_eq!(executor.route("custom_python").unwrap(), PythonTask::Code);
    assert_eq!(executor.route("candle_python").unwrap(), PythonTask::CandleModel);
    match executor.route("rust") {
        Err(EdgeComputeError::Validation { message, field, value }) => {
            assert_eq!(message, "Unsupported algorithm: rust");
            assert_eq!(field, Some("algorithm".to_string()));
            assert_eq!(value, Some("rust".to_string()));
        }
        other => panic!("unexpected {:?}", other),
    }
    match executor.run_code(None) {
        Err(EdgeComputeError::Validation { message, field, value }) => {
            assert_eq!(message, "Missing 'code' parameter");
            assert_eq!(field, Some("parameters.code".to_string()));
            assert_eq!(value, None);
        }
        other => panic!("unexpected {:?}", other),
    }
    assert!(executor.run_candle_model(None, "{}").is_err());
    assert!(executor.run_candle_model(Some("m.pt"), "{}").is_err());
    assert!(executor.begin_task().is_ok());
    executor.finish_task(false, 3);
    let stats = executor.get_execution_stats();
    assert_eq!((stats.total_executions, stats.failed_executions, stats.total_execution_time_ms), (1, 1, 3));
    assert_eq!(executor.get_active_tasks_count(), 0);
}

#[test]
fn candle_script_embeds_path_and_input() {
    let s = candle_script("/m/model.pt", "{\"x\": 1}");
    assert!(s.contains("candle.load_model(\"/m/model.pt\")"));
    assert!(s.contains("json.loads('{\"x\": 1}')"));
    assert!(s.starts_with("\nimport json\n"));
}

#[test]
fn python_calls_are_refused_without_an_interpreter() {
    let executor = PythonExecutor::new(PythonExecutorConfig::default()).unwrap();
    let script = executor.execute_script("main.py", serde_json::Value::Null);
    assert_eq!(
        script.unwrap_err().0,
        "Configuration error: Python support not enabled. Please enable the 'python' feature."
    );
    let call = executor.call_function("m", "f", vec![]);
    assert_eq!(call.unwrap_err().0, "Python support not enabled. Please enable the 'python' feature.");
    let monitor = executor.get_resource_monitor();
    assert_eq!(monitor.current_memory_bytes, 0);
    assert_eq!(monitor.peak_memory_bytes, 0);
    assert!(monitor.execution_times_ms.is_empty());
    assert_eq!(rust_edge_compute::python::resource_exhausted_error("memory").0, "Resource exhausted: memory");
}
