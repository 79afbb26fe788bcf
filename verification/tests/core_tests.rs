use rust_edge_compute::load_balancer::{LoadBalancer, LoadBalancerConfig, LoadBalancingStrategy};
use rust_edge_compute::offset_tracker::{OffsetTracker, OffsetTrackerConfig, WindowData};
use rust_edge_compute::ordered_window_processor::{OrderedWindowProcessor, OrderedWindowProcessorConfig};
use rust_edge_compute::scheduler::{
    AfterAttempt, AttemptOutcome, ScheduledTask, SchedulerConfig, TaskPriority, TaskScheduler,
};
use rust_edge_compute::types::ComputeRequest;
use rust_edge_compute::window_aggregator::{SlidingWindowAggregator, WindowConfig};
use rust_edge_compute::zeromq_source::{ZeroMQConfig, ZeroMQMessage, ZeroMQSocketType};

fn value_of(n: i64) -> serde_json::Value {
    let mut m = serde_json::Map::new();
    m.insert("value".to_string(), serde_json::Value::from(n));
    serde_json::Value::Object(m)
}

fn item(seq: u64) -> WindowData {
    WindowData { sequence: seq, timestamp: seq * 1000, data: value_of(seq as i64) }
}

fn request(id: &str) -> ComputeRequest {
    ComputeRequest { id: id.to_string(), algorithm: "add".to_string(), parameters: "{}".to_string() }
}

#[test]
fn test_scheduler_config() {
    let config = SchedulerConfig::default();
    assert!(!config.intelligent_scheduling_enabled);
    assert!(config.max_concurrent_tasks > 0);
    assert!(config.queue_size > 0);
}

#[test]
fn test_load_balancer_config() {
    let config = LoadBalancerConfig::default();
    assert_eq!(config.strategy, LoadBalancingStrategy::Adaptive);
    assert!(!config.intelligent_scheduling_enabled);
    assert!(config.max_connections_per_worker > 0);
}

#[test]
fn load_balancer_keeps_its_configuration() {
    let config = LoadBalancerConfig::default();
    let _balancer = LoadBalancer::new(config);
    assert_eq!(config.max_connections_per_worker, 100);
}

#[test]
fn test_scheduler_creation() {
    let scheduler = TaskScheduler::new(SchedulerConfig::default());
    let status = scheduler.get_intelligent_scheduling_status();
    assert!(!status.enabled);
    assert_eq!(status.strategy, LoadBalancingStrategy::Adaptive);
    assert!(!status.has_sufficient_data);
}

#[test]
fn scheduler_submits_and_cancels() {
    let mut scheduler = TaskScheduler::new(SchedulerConfig::default());
    let (id, _task) = scheduler.submit_task(ScheduledTask::new(request("t1")));
    assert_eq!(id, "t1");
    let q = scheduler.get_queue_status();
    assert_eq!(q.active_tasks, 1);
    assert_eq!(q.max_concurrent, 10);
    let st = scheduler.get_task_status("t1").expect("task is active");
    assert_eq!(st.id, "t1");
    assert_eq!(st.retry_count, 0);
    assert!(scheduler.cancel_task("t1"));
    assert!(!scheduler.cancel_task("t1"));
    assert!(scheduler.get_task_status("t1").is_none());
}

#[test]
fn failed_attempt_is_retried_until_the_limit() {
    let mut scheduler = TaskScheduler::new(SchedulerConfig::default());
    let task = ScheduledTask::new(request("t2")).with_max_retries(1);
    let (_, task) = scheduler.submit_task(task);
    let (after, task) = scheduler.finish_attempt(task, AttemptOutcome::Failed, None);
    assert_eq!(after, AfterAttempt::Retry);
    assert_eq!(task.retry_count, 1);
    let (after, _task) = scheduler.finish_attempt(task, AttemptOutcome::Failed, None);
    assert_eq!(after, AfterAttempt::Finished);
    assert!(scheduler.get_task_status("t2").is_none());
}

#[test]
fn succeeded_attempt_finishes() {
    let mut scheduler = TaskScheduler::new(SchedulerConfig::default());
    let (_, task) = scheduler.submit_task(ScheduledTask::new(request("t3")));
    let (after, _) = scheduler.finish_attempt(task, AttemptOutcome::Succeeded, None);
    assert_eq!(after, AfterAttempt::Finished);
}

#[test]
fn priorities_rank_in_order() {
    assert!(TaskPriority::Critical.rank() > TaskPriority::High.rank());
    assert!(TaskPriority::High.rank() > TaskPriority::Normal.rank());
    assert!(TaskPriority::Normal.rank() > TaskPriority::Low.rank());
    let a = ScheduledTask::new(request("a")).with_priority(TaskPriority::High);
    let b = ScheduledTask::new(request("b"));
    assert!(a.served_before(&b));
    assert!(!b.served_before(&a));
}

#[test]
fn retry_counting() {
    let mut t = ScheduledTask::new(request("r"));
    assert_eq!(t.max_retries, 3);
    assert!(t.can_retry());
    t.increment_retry();
    t.increment_retry();
    t.increment_retry();
    assert!(!t.can_retry());
}

#[test]
fn test_offset_tracker_creation() {
    let tracker = OffsetTracker::new(OffsetTrackerConfig::default());
    assert_eq!(tracker.get_committed_offset("test"), 0);
    assert_eq!(tracker.get_waiting_count("test"), 0);
}

#[test]
fn test_receive_continuous_messages() {
    let mut tracker = OffsetTracker::new(OffsetTrackerConfig::default());
    let result1 = tracker.receive_message("1464", 1, 1000, value_of(1), 0);
    assert_eq!(result1.len(), 1);
    assert_eq!(result1[0].sequence, 1);
    let result2 = tracker.receive_message("1464", 2, 2000, value_of(2), 0);
    assert_eq!(result2.len(), 1);
    assert_eq!(result2[0].sequence, 2);
    assert_eq!(tracker.get_committed_offset("1464"), 2);
}

#[test]
fn test_receive_out_of_order_messages() {
    let mut tracker = OffsetTracker::new(OffsetTrackerConfig::default());
    let result1 = tracker.receive_message("1464", 3, 3000, value_of(3), 0);
    assert_eq!(result1.len(), 0);
    let result2 = tracker.receive_message("1464", 1, 1000, value_of(1), 0);
    assert_eq!(result2.len(), 1);
    assert_eq!(result2[0].sequence, 1);
    let result3 = tracker.receive_message("1464", 2, 2000, value_of(2), 0);
    assert_eq!(result3.len(), 2);
    assert_eq!(result3[0].sequence, 2);
    assert_eq!(result3[1].sequence, 3);
    assert_eq!(tracker.get_committed_offset("1464"), 3);
}

#[test]
fn test_duplicate_messages() {
    let mut tracker = OffsetTracker::new(OffsetTrackerConfig::default());
    let _ = tracker.receive_message("1464", 1, 1000, value_of(1), 0);
    let result = tracker.receive_message("1464", 1, 1000, value_of(1), 0);
    assert_eq!(result.len(), 0);
    assert_eq!(tracker.get_committed_offset("1464"), 1);
}

#[test]
fn test_multiple_measurement_points() {
    let mut tracker = OffsetTracker::new(OffsetTrackerConfig::default());
    let _ = tracker.receive_message("1464", 1, 1000, value_of(1), 0);
    let _ = tracker.receive_message("1465", 1, 1000, value_of(1), 0);
    assert_eq!(tracker.get_committed_offset("1464"), 1);
    assert_eq!(tracker.get_committed_offset("1465"), 1);
    assert_eq!(tracker.get_active_count(), 2);
}

#[test]
fn waiting_messages_are_reported() {
    let mut tracker = OffsetTracker::new(OffsetTrackerConfig::default());
    let _ = tracker.receive_message("p", 3, 3000, value_of(3), 7);
    let _ = tracker.receive_message("p", 5, 5000, value_of(5), 9);
    assert_eq!(tracker.get_waiting_count("p"), 2);
    let info = tracker.get_offset_state("p").expect("point is known");
    assert_eq!(info.committed_offset, 0);
    assert_eq!(info.waiting_count, 2);
    assert_eq!(info.last_updated_ms, 9);
    assert!(tracker.get_offset_state("q").is_none());
}

#[test]
fn test_window_aggregator_creation() {
    let aggregator = SlidingWindowAggregator::new(WindowConfig::default());
    assert!(aggregator.get_window_status("test").is_none());
}

#[test]
fn test_window_trigger_by_size() {
    let config = WindowConfig { window_size: 3, window_slide: 1, window_timeout_ms: 10000, allow_incomplete_window: false };
    let mut aggregator = SlidingWindowAggregator::new(config);
    let fired = aggregator.add_data("1464", vec![item(1), item(2), item(3)], 0);
    assert_eq!(fired.len(), 1);
    assert_eq!(fired[0].count, 3);
    assert_eq!(fired[0].start_offset, 1);
    assert_eq!(fired[0].end_offset, 3);
}

#[test]
fn test_window_sliding() {
    let config = WindowConfig { window_size: 3, window_slide: 2, window_timeout_ms: 10000, allow_incomplete_window: false };
    let mut aggregator = SlidingWindowAggregator::new(config);
    let mut fired = aggregator.add_data("1464", vec![item(1), item(2), item(3)], 0);
    fired.extend(aggregator.add_data("1464", vec![item(4), item(5)], 0));
    assert_eq!(fired.len(), 2);
    assert_eq!(fired[1].start_offset, 3);
    assert_eq!(fired[1].end_offset, 5);
}

#[test]
fn incomplete_window_fires_on_timeout() {
    let config = WindowConfig { window_size: 5, window_slide: 3, window_timeout_ms: 2000, allow_incomplete_window: true };
    let mut aggregator = SlidingWindowAggregator::new(config);
    let fired = aggregator.add_data("p", vec![item(1), item(2)], 100);
    assert!(fired.is_empty());
    assert!(aggregator.check_timeouts(1000).is_empty());
    let late = aggregator.check_timeouts(3000);
    assert_eq!(late.len(), 1);
    assert_eq!(late[0].count, 2);
    assert_eq!(late[0].start_offset, 1);
    assert_eq!(late[0].end_offset, 2);
}

#[test]
fn test_ordered_window_processor_creation() {
    let scheduler = TaskScheduler::new(SchedulerConfig::default());
    let processor = OrderedWindowProcessor::new(OrderedWindowProcessorConfig::default(), scheduler);
    assert!(processor.is_ok());
}

#[test]
fn test_processor_stats() {
    let scheduler = TaskScheduler::new(SchedulerConfig::default());
    let processor = OrderedWindowProcessor::new(OrderedWindowProcessorConfig::default(), scheduler).unwrap();
    let stats = processor.get_stats();
    assert_eq!(stats.messages_received, 0);
    assert_eq!(stats.windows_processed, 0);
    assert_eq!(stats.errors_count, 0);
}

fn message(point: &str, seq: u64) -> ZeroMQMessage {
    ZeroMQMessage {
        measurement_point_id: point.to_string(),
        sequence: seq,
        timestamp: seq * 1000,
        payload: value_of(seq as i64),
        metadata: Vec::new(),
    }
}

#[test]
fn test_complete_processing_flow() {
    let config = OrderedWindowProcessorConfig {
        zmq_config: ZeroMQConfig {
            endpoint: "tcp://localhost:5557".to_string(),
            socket_type: ZeroMQSocketType::Pull,
            receive_timeout_ms: 1000,
            max_buffer_size: 1000,
            subscribe_filter: None,
        },
        offset_config: OffsetTrackerConfig { max_waiting_offsets: 100, offset_timeout_ms: 5000 },
        window_config: WindowConfig { window_size: 5, window_slide: 3, window_timeout_ms: 2000, allow_incomplete_window: true },
    };
    let scheduler = TaskScheduler::new(SchedulerConfig::default());
    let mut processor = OrderedWindowProcessor::new(config, scheduler).expect("processor");
    let stats = processor.get_stats();
    assert_eq!(stats.messages_received, 0);
    assert_eq!(stats.windows_processed, 0);
    assert!(processor.start(Ok(())).is_ok());
    assert!(processor.is_running());
    let mut submitted = 0;
    for seq in [2u64, 1, 3, 4, 5] {
        let step = processor.process_message(message("1464", seq), 0);
        submitted += step.submitted.len();
    }
    assert_eq!(submitted, 1);
    let stats = processor.get_stats();
    assert_eq!(stats.messages_received, 5);
    assert_eq!(stats.total_continuous_data_points, 5);
    let offsets = processor.get_offset_state("1464").expect("point is tracked");
    assert_eq!(offsets.committed_offset, 5);
    let window = processor.get_window_status("1464").expect("window is open");
    assert_eq!(window.data_count, 2);
    assert!(processor.stop());
    assert!(!processor.is_running());
}

#[test]
fn processor_refuses_a_second_start() {
    let scheduler = TaskScheduler::new(SchedulerConfig::default());
    let mut processor = OrderedWindowProcessor::new(OrderedWindowProcessorConfig::default(), scheduler).unwrap();
    assert_eq!(processor.start(Err("bind failed".to_string())), Err("bind failed".to_string()));
    assert!(!processor.is_running());
    assert!(processor.start(Ok(())).is_ok());
    assert_eq!(processor.start(Ok(())), Err("Ordered window processor is already running".to_string()));
}

#[test]
fn test_zeromq_config_default() {
    let config = ZeroMQConfig::default();
    assert_eq!(config.endpoint, "tcp://localhost:5555");
    assert_eq!(config.socket_type, ZeroMQSocketType::Pull);
    assert_eq!(config.receive_timeout_ms, 1000);
    assert_eq!(config.max_buffer_size, 10000);
    assert!(config.subscribe_filter.is_none());
}

#[test]
fn test_zeromq_source_creation() {
    let config = ZeroMQConfig {
        endpoint: "tcp://localhost:5556".to_string(),
        socket_type: ZeroMQSocketType::Pull,
        receive_timeout_ms: 1000,
        max_buffer_size: 1000,
        subscribe_filter: None,
    };
    let source = rust_edge_compute::zeromq_source::ZeroMQSource::new(config);
    assert!(source.is_ok());
}

#[test]
fn equal_priorities_go_in_submission_order() {
    let mut scheduler = TaskScheduler::new(SchedulerConfig::default());
    let (_, first) = scheduler.submit_task(ScheduledTask::new(request("early")));
    let (_, second) = scheduler.submit_task(ScheduledTask::new(request("late")));
    assert_eq!(first.submission, 0);
    assert_eq!(second.submission, 1);
    assert!(first.served_before(&second));
    assert!(!second.served_before(&first));
    let (_, urgent) = scheduler.submit_task(ScheduledTask::new(request("urgent")).with_priority(TaskPriority::Critical));
    assert!(urgent.served_before(&first));
    assert!(!first.served_before(&first));
}

#[test]
fn measurement_point_ids_are_listed_once() {
    let mut tracker = OffsetTracker::new(OffsetTrackerConfig::default());
    let _ = tracker.receive_message("a", 1, 1000, value_of(1), 0);
    let _ = tracker.receive_message("b", 1, 1000, value_of(1), 0);
    let _ = tracker.receive_message("a", 2, 2000, value_of(2), 0);
    let mut ids = tracker.get_measurement_point_ids();
    ids.sort();
    assert_eq!(ids, vec!["a".to_string(), "b".to_string()]);
}

#[test]
fn expired_states_without_waiting_messages_are_dropped() {
    let mut tracker = OffsetTracker::new(OffsetTrackerConfig::default());
    // "idle" is caught up and was last touched at 0.
    let _ = tracker.receive_message("idle", 1, 1000, value_of(1), 0);
    // "gap" still waits for offset 1 and was last touched at 0.
    let _ = tracker.receive_message("gap", 2, 2000, value_of(2), 0);
    // "fresh" was touched recently.
    let _ = tracker.receive_message("fresh", 1, 1000, value_of(1), 9000);
    tracker.cleanup_expired_states(10_000);
    let mut ids = tracker.get_measurement_point_ids();
    ids.sort();
    assert_eq!(ids, vec!["fresh".to_string(), "gap".to_string()]);
    assert_eq!(tracker.get_waiting_count("gap"), 1);
    // Nothing is dropped before the time-out has passed.
    tracker.cleanup_expired_states(10_000);
    assert_eq!(tracker.get_active_count(), 2);
}

#[test]
fn intelligent_scheduling_requests_report_the_configured_setting() {
    let off = TaskScheduler::new(SchedulerConfig::default());
    assert_eq!(off.enable_intelligent_scheduling(), Ok(false));
    assert_eq!(off.disable_intelligent_scheduling(), Ok(true));
    let mut config = SchedulerConfig::default();
    config.intelligent_scheduling_enabled = true;
    let on = TaskScheduler::new(config);
    assert_eq!(on.enable_intelligent_scheduling(), Ok(true));
    assert_eq!(on.disable_intelligent_scheduling(), Ok(false));
}

#[test]
fn test_offset_tracker_and_window_aggregator_integration() {
    let mut offset_tracker = OffsetTracker::new(OffsetTrackerConfig::default());
    let window_config = WindowConfig { window_size: 3, window_slide: 1, window_timeout_ms: 10000, allow_incomplete_window: false };
    let mut aggregator = SlidingWindowAggregator::new(window_config);
    let measurement_point_id = "1464";
    let mut batches = Vec::new();
    for i in 1..=6u64 {
        let continuous_data = offset_tracker.receive_message(measurement_point_id, i, i * 1000, value_of(i as i64), 0);
        if !continuous_data.is_empty() {
            batches.extend(aggregator.add_data(measurement_point_id, continuous_data, 0));
        }
    }
    assert!(batches.len() >= 1);
}

#[test]
fn test_out_of_order_message_processing() {
    let mut offset_tracker = OffsetTracker::new(OffsetTrackerConfig::default());
    let measurement_point_id = "1464";
    let result1 = offset_tracker.receive_message(measurement_point_id, 3, 3000, value_of(3), 0);
    assert_eq!(result1.len(), 0);
    let result2 = offset_tracker.receive_message(measurement_point_id, 1, 1000, value_of(1), 0);
    assert_eq!(result2.len(), 1);
    let result3 = offset_tracker.receive_message(measurement_point_id, 2, 2000, value_of(2), 0);
    assert_eq!(result3.len(), 2);
    assert_eq!(offset_tracker.get_committed_offset(measurement_point_id), 3);
}

#[test]
fn test_window_timeout_trigger() {
    let window_config = WindowConfig { window_size: 10, window_slide: 5, window_timeout_ms: 500, allow_incomplete_window: true };
    let mut aggregator = SlidingWindowAggregator::new(window_config);
    let data = vec![
        WindowData { sequence: 1, timestamp: 1000, data: value_of(1) },
        WindowData { sequence: 2, timestamp: 2000, data: value_of(2) },
    ];
    let mut batches = aggregator.add_data("1464", data, 0);
    // The time-out checker runs after 600 ms.
    batches.extend(aggregator.check_timeouts(600));
    assert!(batches.len() >= 1);
}

#[test]
fn every_timed_out_window_fires_once() {
    let config = WindowConfig { window_size: 10, window_slide: 5, window_timeout_ms: 500, allow_incomplete_window: true };
    let mut aggregator = SlidingWindowAggregator::new(config);
    assert!(aggregator.add_data("a", vec![item(1), item(2)], 0).is_empty());
    assert!(aggregator.add_data("b", vec![item(7)], 0).is_empty());
    assert!(aggregator.add_data("c", vec![item(3)], 900).is_empty());
    let mut fired = aggregator.check_timeouts(1000);
    fired.sort_by(|x, y| x.measurement_point_id.cmp(&y.measurement_point_id));
    assert_eq!(fired.len(), 2);
    assert_eq!(fired[0].measurement_point_id, "a");
    assert_eq!(fired[0].count, 2);
    assert_eq!(fired[1].measurement_point_id, "b");
    assert_eq!(fired[1].start_offset, 7);
    assert_eq!(aggregator.get_window_status("a").unwrap().data_count, 0);
    assert_eq!(aggregator.get_window_status("c").unwrap().data_count, 1);
    // An emptied window does not fire again.
    assert!(aggregator.check_timeouts(1200).is_empty());
}
