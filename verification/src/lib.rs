//! Edge computing core: ordered stream processing, task scheduling, security
//! checks and executor bookkeeping.

pub mod string_map;
pub mod text;
pub mod json;
pub mod offset_tracker;
pub mod window_aggregator;
pub mod types;
pub mod error;
pub mod load_balancer;
pub mod scheduler;
pub mod time;
pub mod security;
pub mod task_spawn;
pub mod cpp;
pub mod updates;
pub mod zeromq_source;
pub mod ordered_window_processor;
pub mod audit;
pub mod metrics;
pub mod monitoring;
pub mod encryption;
pub mod executor_registry;
pub mod container;
pub mod ml;
pub mod python;
pub mod api;
