use rust_edge_compute::audit::{AuditConfig, AuditEventType, AuditLogger, AuditResult, AuditSeverity};
use rust_edge_compute::container::{
    join_path, AlgorithmInfo, ContainerStatus, ContainerizedAlgorithmExecutor, YoukiContainerManager,
    YoukiContainerManagerBuilder,
};
use rust_edge_compute::executor_registry::ExecutorRegistry;
use rust_edge_compute::metrics::{labels_text, metric_header, signed_decimal_string, integer_sample, MetricType};
use rust_edge_compute::monitoring::BoundedHistory;
use rust_edge_compute::string_map::StringMap;
use rust_edge_compute::task_spawn::{settle_task, LogLevel, LogLine, SpawnConfig, TaskExecutionError, TaskOutcome};
use rust_edge_compute::text::{split_text, str_contains};
use rust_edge_compute::types::ContainerConfig;

#[test]
fn registry_routes_algorithms_to_executors() {
    let mut r = ExecutorRegistry::new();
    assert!(r.register("cpp", vec!["add".to_string(), "multiply".to_string()]).is_ok());
    assert!(r.register("ml", vec!["llama".to_string(), "add".to_string()]).is_ok());
    assert_eq!(r.select_executor("add"), Some("ml".to_string()));
    assert_eq!(r.select_executor("multiply"), Some("cpp".to_string()));
    assert_eq!(r.select_executor("nothing"), None);
    assert!(r.get("cpp"));
    let mut names = r.list_executors();
    names.sort();
    assert_eq!(names, vec!["cpp".to_string(), "ml".to_string()]);
    assert!(r.unregister("ml").is_ok());
    assert_eq!(r.select_executor("llama"), None);
    assert!(!r.get("ml"));
}

#[test]
fn test_spawn_with_error() {
    let config = SpawnConfig::new("failing_task".to_string());
    let (result, line) = settle_task(&config, TaskOutcome::Failed("Test error".to_string()));
    match result {
        Err(TaskExecutionError::Failed(m)) => assert_eq!(m, "Test error"),
        other => panic!("unexpected {:?}", other),
    }
    match line {
        LogLine::At(level, text) => {
            assert_eq!(level, LogLevel::Error);
            assert_eq!(text, "Task 'failing_task' failed: Test error");
        }
        LogLine::Nothing => panic!("a failure is logged"),
    }
}

#[test]
fn test_spawn_with_timeout() {
    let config = SpawnConfig::new("slow".to_string()).with_timeout(1);
    let (result, _) = settle_task(&config, TaskOutcome::TimedOut);
    match result {
        Err(e) => assert_eq!(e.to_message(), "Task timeout: Task 'slow' exceeded timeout of 1s"),
        Ok(()) => panic!("a timed-out task fails"),
    }
}

#[test]
fn test_spawn_default() {
    let config = SpawnConfig::default();
    assert_eq!(config.name, "unnamed_task");
    let (result, line) = settle_task(&config, TaskOutcome::Completed);
    assert!(result.is_ok());
    assert!(matches!(line, LogLine::At(LogLevel::Info, ref t) if t == "Task 'unnamed_task' completed successfully"));
    let quiet = SpawnConfig::new("q".to_string()).with_log_success(false).with_detailed_errors(false);
    assert!(matches!(settle_task(&quiet, TaskOutcome::Completed).1, LogLine::Nothing));
    assert!(matches!(settle_task(&quiet, TaskOutcome::Failed("x".into())).1, LogLine::At(LogLevel::Warn, ref t) if t == "Task 'q' failed"));
}

#[test]
fn test_spawn_many() {
    let base = SpawnConfig::new("batch".to_string());
    assert_eq!(base.for_batch_member(0).name, "batch[0]");
    assert_eq!(base.for_batch_member(12).name, "batch[12]");
}

#[test]
fn history_keeps_the_latest_samples() {
    let mut h: BoundedHistory<u32> = BoundedHistory::new(2);
    assert!(h.latest().is_none());
    h.record(1000, 1);
    h.record(2000, 2);
    h.record(3000, 3);
    assert_eq!(h.latest(), Some(&3));
    assert_eq!(h.within(1000, 3000), vec![&2, &3]);
    assert_eq!(h.within(0, 3000), vec![&3]);
}

#[test]
fn prometheus_text() {
    assert_eq!(metric_header("tasks_total", "Tasks run", MetricType::Counter), "# HELP tasks_total Tasks run\n# TYPE tasks_total counter\n");
    let labels = vec![("a".to_string(), "1".to_string()), ("b".to_string(), "x".to_string())];
    assert_eq!(labels_text(&labels), "{a=\"1\",b=\"x\"}");
    assert_eq!(labels_text(&Vec::new()), "");
    assert_eq!(signed_decimal_string(-42), "-42");
    assert_eq!(integer_sample("m", "{a=\"1\"}", 7), "m{a=\"1\"} 7\n");
}

#[test]
fn audit_masks_and_buffers() {
    let mut logger = AuditLogger::new(AuditConfig::default());
    let mut details = StringMap::new();
    details.insert("password".to_string(), "hunter2".to_string());
    details.insert("ip".to_string(), "10.0.0.1".to_string());
    let out = logger.log_authentication(Some("alice"), &AuditResult::Success, details);
    let line = out.line.expect("auditing is on");
    assert_eq!(line.summary, "AUDIT [authentication] alice authentication auth SUCCESS - ");
    assert!(out.to_write.is_empty());
    let stats = logger.get_stats();
    assert_eq!(stats.total_events, 1);
    let buffered = logger.flush_events();
    assert_eq!(buffered.len(), 1);
    assert_eq!(buffered[0].details.get("password"), Some(&"***FILTERED***".to_string()));
    assert_eq!(buffered[0].details.get("ip"), Some(&"10.0.0.1".to_string()));
    assert_eq!(logger.get_stats().total_events, 0);
}

#[test]
fn disabled_audit_records_nothing() {
    let config = AuditConfig { enabled: false, ..AuditConfig::default() };
    let mut logger = AuditLogger::new(config);
    let out = logger.log_authorization("bob", "tasks", "read", &AuditResult::Denied);
    assert!(out.line.is_none());
    assert_eq!(logger.get_stats().total_events, 0);
}

#[test]
fn containers_live_and_die() {
    let mut m = YoukiContainerManager::new("/run/edge".to_string());
    let id = m.register_container(&ContainerConfig { name: "c".to_string() }, "add".to_string());
    assert!(id.starts_with("edge-compute-"));
    assert_eq!(m.get_container_status(&id), Ok(ContainerStatus::Creating));
    m.container_started(&id);
    assert_eq!(m.get_container_status(&id), Ok(ContainerStatus::Running));
    assert!(m.stop_container(&id).is_ok());
    assert_eq!(m.get_container_status(&id), Ok(ContainerStatus::Stopped));
    assert_eq!(m.list_containers().len(), 1);
    assert_eq!(m.destroy_container(&id), Ok(format!("/run/edge/{}", id)));
    assert_eq!(m.get_container_status(&id), Err("Container not found".to_string()));
    assert_eq!(m.stop_container(&id), Err("Container not found".to_string()));
    assert_eq!(join_path("a/", "b"), "a/b");
    assert_eq!(join_path("", "b"), "b");
}

#[test]
fn containerized_algorithms_register() {
    let mut e = ContainerizedAlgorithmExecutor::new();
    assert!(e.register_algorithm(AlgorithmInfo { name: "add".to_string(), version: "1".to_string() }).is_ok());
    let out = e.execute("add", serde_json::Value::Null).unwrap();
    assert_eq!(out["status"], "success");
}

#[test]
fn text_helpers() {
    assert_eq!(split_text("a,b,,c", ','), vec!["a", "b", "", "c"]);
    assert_eq!(split_text("", ','), vec![""]);
    assert!(str_contains("hello", "ll"));
    assert!(str_contains("hello", ""));
    assert!(!str_contains("hello", "lo!"));
}

#[test]
fn audit_records_api_access_config_changes_and_incidents() {
    let mut logger = AuditLogger::new(AuditConfig::default());
    let _ = logger.log_api_access(Some("carol"), "POST", "/api/v1/compute", 503, Some("10.1.1.1"));
    let _ = logger.log_api_access(None, "GET", "/health", 200, None);
    let _ = logger.log_config_change("admin", "max_tasks", Some("10"), Some("20"));
    let mut details = StringMap::new();
    details.insert("resource".to_string(), "vault".to_string());
    details.insert("user_id".to_string(), "mallory".to_string());
    let _ = logger.log_security_event("brute_force", AuditSeverity::High, details);
    let events = logger.flush_events();
    assert_eq!(events.len(), 4);
    assert_eq!(events[0].event_type, AuditEventType::AccessControl);
    assert_eq!(events[0].severity, AuditSeverity::Medium);
    assert_eq!(events[0].action, "POST");
    assert_eq!(events[0].resource, "/api/v1/compute");
    assert_eq!(events[0].client_ip, Some("10.1.1.1".to_string()));
    assert_eq!(events[1].severity, AuditSeverity::Low);
    assert_eq!(events[1].user_id, None);
    assert_eq!(events[2].event_type, AuditEventType::ConfigurationChange);
    assert_eq!(events[2].action, "config_change");
    assert_eq!(events[2].resource, "max_tasks");
    assert_eq!(events[2].details.get("old_value"), Some(&"10".to_string()));
    assert_eq!(events[2].details.get("new_value"), Some(&"20".to_string()));
    assert_eq!(events[3].event_type, AuditEventType::SecurityEvent);
    assert_eq!(events[3].severity, AuditSeverity::High);
    assert_eq!(events[3].action, "brute_force");
    assert_eq!(events[3].resource, "vault");
    assert_eq!(events[3].user_id, Some("mallory".to_string()));
}

#[test]
fn builders_set_what_they_name() {
    let b = YoukiContainerManagerBuilder::new().runtime_dir("/run/x".to_string()).memory_limit(512).cpu_limit(1500);
    assert_eq!(b.runtime_dir, "/run/x");
    assert_eq!(b.memory_limit, Some(512));
    assert_eq!(b.cpu_limit_millis, Some(1500));
    let c = SpawnConfig::new("t".to_string()).with_success_level(LogLevel::Debug);
    assert_eq!(c.success_log_level, LogLevel::Debug);
    assert!(c.log_success);
    let e = rust_edge_compute::error::error_from_message("odd".to_string());
    assert_eq!(e.to_message(), "Unknown error: odd");
}

#[test]
fn old_audit_events_are_dropped() {
    let mut logger = AuditLogger::new(AuditConfig::default());
    let _ = logger.log_authorization("bob", "tasks", "read", &AuditResult::Success);
    let n = logger.get_stats().total_events;
    assert_eq!(n, 1);
    // An event is kept while it is younger than the age limit.
    logger.cleanup_old_events(1, i64::MAX / 2);
    assert_eq!(logger.get_stats().total_events, 0);
    let _ = logger.log_authorization("bob", "tasks", "read", &AuditResult::Success);
    logger.cleanup_old_events(1, 0);
    assert_eq!(logger.get_stats().total_events, 1);
}
