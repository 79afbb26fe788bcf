//! Task queue with priorities, active-task bookkeeping and retry decisions.
use vstd::prelude::*;
use crate::error::RecoveryStrategy;
use crate::load_balancer::{LoadBalancerConfig, LoadBalancingStrategy};
use crate::string_map::StringMap;
use crate::types::{ComputeRequest, QueueStatus};

verus! {

/// Priority of a task; a larger rank is served first.
#[derive(Debug, Clone, Copy, PartialEq, Eq, Structural)]
pub enum TaskPriority {
    Low,
    Normal,
    High,
    Critical,
}

impl TaskPriority {
    pub open spec fn spec_rank(self) -> u8 {
        match self {
            TaskPriority::Low => 0,
            TaskPriority::Normal => 1,
            TaskPriority::High => 2,
            TaskPriority::Critical => 3,
        }
    }

    /// Rank of the priority: Low 0, Normal 1, High 2, Critical 3.
    pub fn rank(&self) -> (r: u8)
        ensures
            r == self.spec_rank(),
    {
        match self {
            TaskPriority::Low => 0,
            TaskPriority::Normal => 1,
            TaskPriority::High => 2,
            TaskPriority::Critical => 3,
        }
    }

    pub fn default() -> (p: TaskPriority)
        ensures
            p == TaskPriority::Normal,
    {
        TaskPriority::Normal
    }
}

/// A task waiting for, or being served by, a worker.
#[derive(Debug, Clone)]
pub struct ScheduledTask {
    pub id: String,
    pub priority: TaskPriority,
    pub submitted_at: std::time::Instant,
    pub request: ComputeRequest,
    pub retry_count: u32,
    pub max_retries: u32,
    /// Place in the scheduler's submission order: the number of tasks submitted
    /// before it (0 until it is submitted).
    pub submission: u64,
}

/// Whether task `a` is served before task `b`: a higher priority first, and
/// between equal priorities the earlier submission.
pub open spec fn goes_before(a: ScheduledTask, b: ScheduledTask) -> bool {
    a.priority.spec_rank() > b.priority.spec_rank() || (a.priority.spec_rank() == b.priority.spec_rank()
        && a.submission < b.submission)
}

/// Serving order is a strict order: no task goes before itself, of two tasks at
/// most one goes before the other, and it is transitive.
pub proof fn lemma_serving_order_is_strict(a: ScheduledTask, b: ScheduledTask, c: ScheduledTask)
    ensures
        !goes_before(a, a),
        goes_before(a, b) ==> !goes_before(b, a),
        goes_before(a, b) && goes_before(b, c) ==> goes_before(a, c),
{
}

impl ScheduledTask {
    /// A new task for `request`: its id, Normal priority, no retries yet, at most three.
    pub fn new(request: ComputeRequest) -> (t: ScheduledTask)
        ensures
            t.id == request.id,
            t.priority == TaskPriority::Normal,
            t.request == request,
            t.retry_count == 0,
            t.max_retries == 3,
            t.submission == 0,
    {
        ScheduledTask {
            id: request.id.clone(),
            priority: TaskPriority::Normal,
            submitted_at: std::time::Instant::now(),
            request,
            retry_count: 0,
            max_retries: 3,
            submission: 0,
        }
    }

    pub fn with_priority(self, priority: TaskPriority) -> (t: ScheduledTask)
        ensures
            t == (ScheduledTask { priority, ..self }),
    {
        ScheduledTask { priority, ..self }
    }

    pub fn with_max_retries(self, max_retries: u32) -> (t: ScheduledTask)
        ensures
            t == (ScheduledTask { max_retries, ..self }),
    {
        ScheduledTask { max_retries, ..self }
    }

    /// Whether another attempt is allowed.
    pub fn can_retry(&self) -> (b: bool)
        ensures
            b == (self.retry_count < self.max_retries),
    {
        self.retry_count < self.max_retries
    }

    /// Counts one more attempt.
    pub fn increment_retry(&mut self)
        requires
            old(self).retry_count < u32::MAX,
        ensures
            *final(self) == (ScheduledTask { retry_count: (old(self).retry_count + 1) as u32, ..*old(self) }),
    {
        self.retry_count = self.retry_count + 1;
    }

    /// The same scheduled work, field for field.
    pub fn duplicate(&self) -> (t: ScheduledTask)
        ensures
            t == *self,
    {
        ScheduledTask {
            id: self.id.clone(),
            priority: self.priority,
            submitted_at: self.submitted_at,
            request: self.request.duplicate(),
            retry_count: self.retry_count,
            max_retries: self.max_retries,
            submission: self.submission,
        }
    }

    /// Whether `self` goes ahead of `other`: a higher priority goes first, and
    /// between equal priorities the earlier submission.
    pub fn served_before(&self, other: &ScheduledTask) -> (b: bool)
        ensures
            b == goes_before(*self, *other),
    {
        let a = self.priority.rank();
        let c = other.priority.rank();
        if a != c {
            a > c
        } else {
            self.submission < other.submission
        }
    }
}

/// Scheduler configuration.
#[derive(Debug, Clone)]
pub struct SchedulerConfig {
    pub max_concurrent_tasks: usize,
    pub queue_size: usize,
    pub task_timeout_seconds: u64,
    pub default_max_retries: u32,
    pub intelligent_scheduling_enabled: bool,
    pub load_balancer_config: LoadBalancerConfig,
}

impl SchedulerConfig {
    pub fn default() -> (c: SchedulerConfig)
        ensures
            c.max_concurrent_tasks == 10,
            c.queue_size == 1000,
            c.task_timeout_seconds == 300,
            c.default_max_retries == 3,
            !c.intelligent_scheduling_enabled,
            c.load_balancer_config.strategy == LoadBalancingStrategy::Adaptive,
            c.load_balancer_config.max_connections_per_worker == 100,
            !c.load_balancer_config.intelligent_scheduling_enabled,
    {
        SchedulerConfig {
            max_concurrent_tasks: 10,
            queue_size: 1000,
            task_timeout_seconds: 300,
            default_max_retries: 3,
            intelligent_scheduling_enabled: false,
            load_balancer_config: LoadBalancerConfig::default(),
        }
    }
}

/// Status of an active task.
#[derive(Debug, Clone)]
pub struct TaskStatus {
    pub id: String,
    pub priority: TaskPriority,
    pub submitted_at: std::time::Instant,
    pub retry_count: u32,
    pub status: String,
}

/// Whether intelligent scheduling is on.
#[derive(Debug, Clone)]
pub struct IntelligentSchedulingStatus {
    pub enabled: bool,
    pub strategy: LoadBalancingStrategy,
    pub has_sufficient_data: bool,
}

/// How a task attempt ended.
#[derive(Debug, Clone, Copy, PartialEq, Eq, Structural)]
pub enum AttemptOutcome {
    Succeeded,
    Failed,
    TimedOut,
}

/// What happens to a task after an attempt.
#[derive(Debug, Clone, Copy, PartialEq, Eq, Structural)]
pub enum AfterAttempt {
    /// The task is done (or given up) and leaves the active set.
    Finished,
    /// The task is attempted again.
    Retry,
}

/// The task queue and the tasks in flight.
pub struct TaskScheduler {
    queue: Vec<ScheduledTask>,
    active: StringMap<ScheduledTask>,
    config: SchedulerConfig,
}

impl TaskScheduler {
    pub closed spec fn wf(&self) -> bool {
        &&& self.active.wf()
        &&& forall|i: int| 0 <= i < self.queue@.len() ==> #[trigger] self.queue@[i].submission == i
    }

    /// Tasks of equal priority are served in the order they were submitted.
    pub proof fn lemma_submission_order(&self, i: int, j: int)
        requires
            self.wf(),
            0 <= i < j < self.queued().len(),
            self.queued()[i].priority == self.queued()[j].priority,
        ensures
            goes_before(self.queued()[i], self.queued()[j]),
    {
        assert(self.queue@[i].submission == i);
        assert(self.queue@[j].submission == j);
    }

    /// Tasks submitted so far, in submission order.
    pub closed spec fn queued(&self) -> Seq<ScheduledTask> {
        self.queue@
    }

    /// Active tasks by id.
    pub closed spec fn active_tasks(&self) -> Map<Seq<char>, ScheduledTask> {
        self.active@
    }

    pub closed spec fn configuration(&self) -> SchedulerConfig {
        self.config
    }

    pub fn new(config: SchedulerConfig) -> (s: TaskScheduler)
        ensures
            s.wf(),
            s.configuration() == config,
            s.queued().len() == 0,
            s.active_tasks() == Map::<Seq<char>, ScheduledTask>::empty(),
    {
        TaskScheduler { queue: Vec::new(), active: StringMap::new(), config }
    }

    /// Accepts a task: a task without retry limit gets the configured default, and
    /// the task gets its place in the submission order.  The task is queued and
    /// becomes active under its id; its id is returned with the task to hand to a
    /// worker.
    pub fn submit_task(&mut self, task: ScheduledTask) -> (r: (String, ScheduledTask))
        requires
            old(self).wf(),
        ensures
            final(self).wf(),
            final(self).configuration() == old(self).configuration(),
            ({
                let t = ScheduledTask {
                    max_retries: if task.max_retries == 0 {
                        old(self).configuration().default_max_retries
                    } else {
                        task.max_retries
                    },
                    submission: old(self).queued().len() as u64,
                    ..task
                };
                &&& r.0@ == task.id@
                &&& r.1 == t
                &&& final(self).queued() == old(self).queued().push(t)
                &&& final(self).active_tasks() == old(self).active_tasks().insert(task.id@, t)
            }),
    {
        let mut task = task;
        if task.max_retries == 0 {
            task.max_retries = self.config.default_max_retries;
        }
        task.submission = self.queue.len() as u64;
        let id = task.id.clone();
        self.queue.push(task.duplicate());
        self.active.insert(id.clone(), task.duplicate());
        (id, task)
    }

    /// Queue occupancy.
    pub fn get_queue_status(&self) -> (q: QueueStatus)
        requires
            self.wf(),
        ensures
            q.queued_tasks == self.queued().len(),
            q.active_tasks == self.active_tasks().dom().len(),
            q.max_concurrent == self.configuration().max_concurrent_tasks,
    {
        QueueStatus {
            queued_tasks: self.queue.len(),
            active_tasks: self.active.len(),
            max_concurrent: self.config.max_concurrent_tasks,
        }
    }

    /// Cancels an active task; false if no active task has that id.
    pub fn cancel_task(&mut self, task_id: &str) -> (b: bool)
        requires
            old(self).wf(),
        ensures
            final(self).wf(),
            b == old(self).active_tasks().dom().contains(task_id@),
            final(self).active_tasks() == old(self).active_tasks().remove(task_id@),
            final(self).queued() == old(self).queued(),
            final(self).configuration() == old(self).configuration(),
    {
        match self.active.take(task_id) {
            Some(_) => true,
            None => false,
        }
    }

    /// Status of an active task.
    pub fn get_task_status(&self, task_id: &str) -> (r: Option<TaskStatus>)
        requires
            self.wf(),
        ensures
            match r {
                Some(s) => self.active_tasks().dom().contains(task_id@) && ({
                    let t = self.active_tasks()[task_id@];
                    &&& s.id == t.id
                    &&& s.priority == t.priority
                    &&& s.submitted_at == t.submitted_at
                    &&& s.retry_count == t.retry_count
                    &&& s.status@ == seq!['r', 'u', 'n', 'n', 'i', 'n', 'g']
                }),
                None => !self.active_tasks().dom().contains(task_id@),
            },
    {
        match self.active.get(task_id) {
            Some(t) => {
                let status = crate::text::string_from_chars(&vec!['r', 'u', 'n', 'n', 'i', 'n', 'g']);
                Some(
                    TaskStatus {
                        id: t.id.clone(),
                        priority: t.priority,
                        submitted_at: t.submitted_at,
                        retry_count: t.retry_count,
                        status,
                    },
                )
            },
            None => None,
        }
    }

    /// Records the end of an attempt of `task`.  A success or a time-out ends the
    /// task.  A failure is retried while the task may retry, unless the error
    /// handler's strategy (when there is a handler) is not a retry; a retried task
    /// counts the attempt and stays active, any other task leaves the active set.
    pub fn finish_attempt(
        &mut self,
        task: ScheduledTask,
        outcome: AttemptOutcome,
        handler_strategy: Option<&RecoveryStrategy>,
    ) -> (r: (AfterAttempt, ScheduledTask))
        requires
            old(self).wf(),
            task.retry_count < u32::MAX,
        ensures
            final(self).wf(),
            final(self).queued() == old(self).queued(),
            final(self).configuration() == old(self).configuration(),
            ({
                let retry = outcome == AttemptOutcome::Failed && task.retry_count < task.max_retries
                    && match handler_strategy {
                    Some(s) => s is Retry,
                    None => true,
                };
                if retry {
                    &&& r.0 == AfterAttempt::Retry
                    &&& r.1 == (ScheduledTask { retry_count: (task.retry_count + 1) as u32, ..task })
                    &&& final(self).active_tasks() == old(self).active_tasks().insert(task.id@, r.1)
                } else {
                    &&& r.0 == AfterAttempt::Finished
                    &&& r.1 == task
                    &&& final(self).active_tasks() == old(self).active_tasks().remove(task.id@)
                }
            }),
    {
        let mut task = task;
        let strategy_allows = match handler_strategy {
            Some(s) => match s {
                RecoveryStrategy::Retry { .. } => true,
                _ => false,
            },
            None => true,
        };
        if outcome == AttemptOutcome::Failed && strategy_allows && task.can_retry() {
            task.increment_retry();
            self.active.insert(task.id.clone(), task.duplicate());
            (AfterAttempt::Retry, task)
        } else {
            let _ = self.active.take(task.id.as_str());
            (AfterAttempt::Finished, task)
        }
    }

    /// Asks to turn intelligent scheduling on.  The setting is read at start-up, so
    /// the request changes nothing until a restart; it is never refused.  The answer
    /// tells whether it was on already.
    pub fn enable_intelligent_scheduling(&self) -> (r: Result<bool, String>)
        ensures
            r == Ok::<bool, String>(self.configuration().intelligent_scheduling_enabled),
    {
        Ok(self.config.intelligent_scheduling_enabled)
    }

    /// Asks to turn intelligent scheduling off.  The setting is read at start-up, so
    /// the request changes nothing until a restart; it is never refused.  The answer
    /// tells whether it was off already.
    pub fn disable_intelligent_scheduling(&self) -> (r: Result<bool, String>)
        ensures
            r == Ok::<bool, String>(!self.configuration().intelligent_scheduling_enabled),
    {
        Ok(!self.config.intelligent_scheduling_enabled)
    }

    /// Whether intelligent scheduling is configured, and with which strategy.
    pub fn get_intelligent_scheduling_status(&self) -> (s: IntelligentSchedulingStatus)
        ensures
            s.enabled == self.configuration().intelligent_scheduling_enabled,
            s.strategy == self.configuration().load_balancer_config.strategy,
            s.has_sufficient_data == self.configuration().intelligent_scheduling_enabled,
    {
        IntelligentSchedulingStatus {
            enabled: self.config.intelligent_scheduling_enabled,
            strategy: self.config.load_balancer_config.strategy,
            has_sufficient_data: self.config.intelligent_scheduling_enabled,
        }
    }
}

} // verus!
