use rust_edge_compute::cpp::{
    plugin_info, plugin_info_fields, plugins_from_listing, CppAlgorithmExecutorBridge, CppExecutor,
    CppExecutorConfig,
};
use rust_edge_compute::error::EdgeComputeError;
use rust_edge_compute::types::ComputeRequest;

const ALL_PLUGINS: &str = "vibrate31,motor97,current_feature_extractor,temperature_feature_extractor,audio_feature_extractor,universal_classify1,comp_realtime_health34,error18,score_alarm5,status_alarm4";

fn add_request() -> ComputeRequest {
    ComputeRequest { id: "test-1".to_string(), algorithm: "add".to_string(), parameters: "{\"a\": 10, \"b\": 20}".to_string() }
}

#[test]
fn test_executor_creation() {
    let result = CppAlgorithmExecutorBridge::new();
    assert!(result.is_ok(), "Failed to create executor");
    let executor = result.unwrap();
    assert!(!executor.is_initialized(), "Executor should not be initialized on creation");
}

#[test]
fn integration_tests_test_executor_initialization() {
    let mut executor = CppAlgorithmExecutorBridge::new().expect("Failed to create executor");
    let result = executor.initialize_with_code(0);
    assert!(result.is_ok(), "Failed to initialize executor");
    assert!(result.unwrap(), "Initialize should return true");
    assert!(executor.is_initialized(), "Executor should be initialized");
}

#[test]
fn ffi_test_executor_initialization() {
    let mut executor = CppAlgorithmExecutorBridge::new().expect("Failed to create executor");
    assert!(!executor.is_initialized());
    let result = executor.initialize_with_code(0);
    assert!(result.is_ok());
    assert!(executor.is_initialized());
}

#[test]
fn failed_native_initialization_leaves_bridge_uninitialized() {
    let mut executor = CppAlgorithmExecutorBridge::new().unwrap();
    assert_eq!(executor.initialize_with_code(-1), Ok(false));
    assert!(!executor.is_initialized());
    assert_eq!(executor.check_ready(), Err("CppAlgorithmExecutor not initialized".to_string()));
}

#[test]
fn integration_tests_test_get_available_plugins() {
    let mut executor = CppAlgorithmExecutorBridge::new().expect("Failed to create executor");
    executor.initialize_with_code(0).expect("Failed to initialize");
    let plugins = executor.get_available_plugins(Some(ALL_PLUGINS.to_string())).expect("Failed to get available plugins");
    assert_eq!(plugins.len(), 10, "Should have 10 plugins");
    let expected_plugins = vec![
        "vibrate31",
        "motor97",
        "current_feature_extractor",
        "temperature_feature_extractor",
        "audio_feature_extractor",
        "universal_classify1",
        "comp_realtime_health34",
        "error18",
        "score_alarm5",
        "status_alarm4",
    ];
    for expected in expected_plugins {
        assert!(plugins.contains(&expected.to_string()), "Plugin {} should be in available plugins list", expected);
    }
}

#[test]
fn ffi_test_get_available_plugins() {
    let executor = CppAlgorithmExecutorBridge::new().expect("Failed to create executor");
    let plugins = executor.get_available_plugins(Some(ALL_PLUGINS.to_string())).expect("Failed to get plugins");
    assert!(plugins.contains(&"vibrate31".to_string()));
    assert!(plugins.contains(&"motor97".to_string()));
    assert!(plugins.len() > 0);
}

#[test]
fn no_listing_means_no_plugins() {
    assert!(plugins_from_listing(None).is_empty());
}

#[test]
fn integration_tests_test_get_plugin_info() {
    let mut executor = CppAlgorithmExecutorBridge::new().expect("Failed to create executor");
    executor.initialize_with_code(0).expect("Failed to initialize");
    let vibrate_info = executor.get_plugin_info("vibrate31").expect("Failed to get plugin info");
    assert!(vibrate_info.get("name").is_some(), "Plugin should have name field");
    assert!(vibrate_info.get("version").is_some(), "Plugin should have version field");
    assert!(vibrate_info.is_object(), "Plugin info should be a JSON object");
    assert_eq!(vibrate_info["name"], "vibrate31", "Plugin name should match");
}

#[test]
fn ffi_test_get_plugin_info() {
    let executor = CppAlgorithmExecutorBridge::new().expect("Failed to create executor");
    let info = executor.get_plugin_info("vibrate31").expect("Failed to get plugin info");
    assert_eq!(info["name"], "vibrate31");
    assert_eq!(info["type"], "FEATURE");
}

#[test]
fn unknown_plugin_is_reported() {
    assert!(plugin_info("nope").is_none());
    let fields = plugin_info_fields("nope");
    assert_eq!(fields, vec![("error".to_string(), "Unknown plugin".to_string())]);
    let p = plugin_info("motor97").unwrap();
    assert_eq!(p.kind, "DECISION");
    assert_eq!(p.version, "1.0.0");
}

#[test]
fn test_cpp_executor_creation() {
    let executor = CppExecutor::new();
    assert_eq!(executor.name(), "cpp");
    assert_eq!(executor.version(), "1.0.0");
}

#[test]
fn test_cpp_executor_initialization() {
    let mut executor = CppExecutor::new();
    assert!(!executor.is_initialized());
    executor.complete_initialization(Ok(())).unwrap();
    assert!(executor.is_initialized());
}

#[test]
fn test_cpp_executor_health_check() {
    let mut executor = CppExecutor::new();
    executor.complete_initialization(Ok(())).unwrap();
    let health = executor.health_check();
    assert!(health.healthy);
    assert!(health.details.iter().any(|(k, _)| k == "initialized"));
    assert_eq!(health.message, "C++ Executor is healthy");
}

#[test]
fn test_cpp_executor_resource_stats() {
    let mut executor = CppExecutor::new();
    executor.complete_initialization(Ok(())).unwrap();
    let stats = executor.get_resource_stats();
    assert_eq!(stats.total_tasks, 0);
}

#[test]
fn uninitialized_executor_refuses_tasks() {
    let mut executor = CppExecutor::new();
    match executor.begin_task(&add_request()) {
        Err(EdgeComputeError::AlgorithmExecution { message, algorithm, input_size }) => {
            assert_eq!(message, "C++ Executor not initialized: cpp");
            assert_eq!(algorithm, Some("add".to_string()));
            assert_eq!(input_size, None);
        }
        other => panic!("unexpected {:?}", other),
    }
}

#[test]
fn executor_admits_up_to_its_limit() {
    let config = CppExecutorConfig { max_concurrent_tasks: 1, ..CppExecutorConfig::default() };
    let mut executor = CppExecutor::with_config(config);
    executor.complete_initialization(Ok(())).unwrap();
    assert!(executor.begin_task(&add_request()).is_ok());
    assert_eq!(executor.get_active_tasks_count(), 1);
    match executor.begin_task(&add_request()) {
        Err(EdgeComputeError::ResourceExhausted { resource, requested, available }) => {
            assert_eq!(resource, "concurrency");
            assert_eq!(requested, Some(1));
            assert_eq!(available, Some(1));
        }
        other => panic!("unexpected {:?}", other),
    }
    executor.finish_task(true, 5);
    assert_eq!(executor.get_active_tasks_count(), 0);
    let stats = executor.get_resource_stats();
    assert_eq!(stats.total_tasks, 1);
    assert_eq!(stats.successful_tasks, 1);
}

#[test]
fn cpp_outcomes_become_responses() {
    let req = add_request();
    let ok = CppExecutor::response_from(&req, Ok(serde_json::Value::from(30)));
    assert!(ok.expect("a result is a response").success);
    match CppExecutor::response_from(&req, Err("boom".to_string())) {
        Err(EdgeComputeError::AlgorithmExecution { message, algorithm, input_size }) => {
            assert_eq!(message, "C++ algorithm execution failed: boom");
            assert_eq!(algorithm, Some("add".to_string()));
            assert_eq!(input_size, None);
        }
        other => panic!("unexpected {:?}", other),
    }
}

#[test]
fn plugin_info_is_a_json_object() {
    let bridge = CppAlgorithmExecutorBridge::new().expect("a bridge");
    let v = bridge.get_plugin_info("motor97").unwrap();
    assert_eq!(v["name"], "motor97");
    assert_eq!(v["version"], "1.0.0");
    assert_eq!(v["type"], "DECISION");
    assert_eq!(v["description"], "motor state recognition plugin");
    let u = bridge.get_plugin_info("nope").unwrap();
    assert_eq!(u["error"], "Unknown plugin");
    assert_eq!(u.as_object().unwrap().len(), 1);
}
