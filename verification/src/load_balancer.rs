//! Load-balancer configuration.
use vstd::prelude::*;

verus! {

/// How tasks are spread over workers.
#[derive(Debug, Clone, Copy, PartialEq, Eq, Structural)]
pub enum LoadBalancingStrategy {
    /// Each worker in turn.
    RoundRobin,
    /// By the observed load of the workers.
    Adaptive,
}

/// Load-balancer configuration.
#[derive(Debug, Clone, Copy)]
pub struct LoadBalancerConfig {
    pub strategy: LoadBalancingStrategy,
    pub intelligent_scheduling_enabled: bool,
    /// Connections a single worker takes at most.
    pub max_connections_per_worker: usize,
}

impl LoadBalancerConfig {
    /// Adaptive balancing, no intelligent scheduling, a hundred connections per worker.
    pub fn default() -> (c: LoadBalancerConfig)
        ensures
            c.strategy == LoadBalancingStrategy::Adaptive,
            !c.intelligent_scheduling_enabled,
            c.max_connections_per_worker == 100,
    {
        LoadBalancerConfig {
            strategy: LoadBalancingStrategy::Adaptive,
            intelligent_scheduling_enabled: false,
            max_connections_per_worker: 100,
        }
    }
}

/// Spreads tasks over workers.
#[derive(Debug, Clone, Copy)]
pub struct LoadBalancer {
    config: LoadBalancerConfig,
}

impl LoadBalancer {
    pub closed spec fn configuration(&self) -> LoadBalancerConfig {
        self.config
    }

    pub fn new(config: LoadBalancerConfig) -> (b: LoadBalancer)
        ensures
            b.configuration() == config,
    {
        LoadBalancer { config }
    }
}

} // verus!
