//! The ordered processing pipeline: messages are put back in order per
//! measurement point, gathered into windows, and each fired window becomes a task.
use vstd::prelude::*;
use crate::json::{fields_tree, json_object, json_tree, report_view, JsonField, JsonTree};
use crate::string_map::chars_of;
use crate::offset_tracker::{receive_effect, OffsetStateInfo, OffsetTracker, OffsetTrackerConfig, WindowData};
use crate::scheduler::{ScheduledTask, TaskPriority, TaskScheduler};
use crate::text::{decimal, decimal_string};
use crate::json::json_compact_text;
use crate::types::{json_text, ComputeRequest};
use crate::window_aggregator::{
    timeouts_effect, add_effect, offsets_bounded, SlidingWindowAggregator, WindowBatch, WindowConfig, WindowStatus,
};
use crate::zeromq_source::{is_default_zmq_config, ZeroMQConfig, ZeroMQMessage};

verus! {

/// Counters of the pipeline.
#[derive(Debug, Clone, Copy, PartialEq, Eq, Structural)]
pub struct ProcessorStats {
    pub messages_received: u64,
    /// Batches of contiguous messages handed to the windows.
    pub windows_processed: u64,
    pub errors_count: u64,
    pub active_measurement_points: usize,
    pub total_continuous_data_points: u64,
}

impl ProcessorStats {
    pub open spec fn zero() -> ProcessorStats {
        ProcessorStats {
            messages_received: 0,
            windows_processed: 0,
            errors_count: 0,
            active_measurement_points: 0,
            total_continuous_data_points: 0,
        }
    }
}

/// Settings of the pipeline.
#[derive(Debug, Clone)]
pub struct OrderedWindowProcessorConfig {
    pub zmq_config: ZeroMQConfig,
    pub offset_config: OffsetTrackerConfig,
    pub window_config: WindowConfig,
}

impl OrderedWindowProcessorConfig {
    /// The defaults of each part.
    pub fn default() -> (c: OrderedWindowProcessorConfig)
        ensures
            is_default_zmq_config(c.zmq_config),
            c.offset_config.max_waiting_offsets == 1000,
            c.offset_config.offset_timeout_ms == 5000,
            c.window_config.window_size == 100,
            c.window_config.window_slide == 50,
            c.window_config.window_timeout_ms == 5000,
            c.window_config.allow_incomplete_window,
    {
        OrderedWindowProcessorConfig {
            zmq_config: ZeroMQConfig::default(),
            offset_config: OffsetTrackerConfig::default(),
            window_config: WindowConfig::default(),
        }
    }
}

/// The id of the task of a batch: `<point>-<first offset>-<last offset>`.
pub open spec fn batch_task_id(b: WindowBatch) -> Seq<char> {
    b.measurement_point_id@ + "-"@ + decimal(b.start_offset as nat) + "-"@ + decimal(b.end_offset as nat)
}

/// Whether `t` is the task made of batch `b`: named after it, running the
/// window aggregation at normal priority, with up to three retries.
pub open spec fn is_batch_task(t: ScheduledTask, b: WindowBatch) -> bool {
    &&& t.id@ == batch_task_id(b)
    &&& t.request.id@ == batch_task_id(b)
    &&& t.request.algorithm@ == "window_aggregation"@
    &&& t.priority == TaskPriority::Normal
    &&& t.retry_count == 0
    &&& t.max_retries == 3
}

/// The JSON object of an item: its sequence number, its timestamp and its data.
pub open spec fn item_tree(d: WindowData) -> Map<Seq<char>, JsonTree> {
    map![
        "sequence"@ => JsonTree::Number(decimal(d.sequence as nat)),
        "timestamp"@ => JsonTree::Number(decimal(d.timestamp as nat)),
        "data"@ => json_tree(d.data),
    ]
}

/// The JSON value of an item.
fn item_value(d: &WindowData) -> (v: serde_json::Value)
    ensures
        json_tree(v) == JsonTree::Object(item_tree(*d)),
{
    let mut fields: Vec<(String, JsonField)> = Vec::new();
    fields.push((String::from_str("sequence"), JsonField::Count(d.sequence)));
    fields.push((String::from_str("timestamp"), JsonField::Count(d.timestamp)));
    fields.push((String::from_str("data"), JsonField::Value(d.data.clone())));
    proof {
        reveal_with_fuel(fields_tree, 4);
        assert(fields_tree(report_view(fields@)) =~= item_tree(*d));
    }
    json_object(&fields)
}

/// The JSON object of a batch: its point, offsets, time range, count and items.
pub open spec fn batch_tree(b: WindowBatch) -> Map<Seq<char>, JsonTree> {
    map![
        "measurement_point_id"@ => JsonTree::Str(b.measurement_point_id@),
        "start_offset"@ => JsonTree::Number(decimal(b.start_offset as nat)),
        "end_offset"@ => JsonTree::Number(decimal(b.end_offset as nat)),
        "time_range"@ => JsonTree::Array(
            seq![JsonTree::Number(decimal(b.time_range.0 as nat)), JsonTree::Number(decimal(b.time_range.1 as nat))],
        ),
        "count"@ => JsonTree::Number(decimal(b.count as nat)),
        "data"@ => JsonTree::Array(b.data@.map_values(|d: WindowData| JsonTree::Object(item_tree(d)))),
    ]
}

/// The request that asks for a batch to be aggregated; its parameters are the
/// batch as JSON text.
pub fn batch_request(batch: &WindowBatch) -> (r: ComputeRequest)
    ensures
        r.id@ == batch_task_id(*batch),
        r.algorithm@ == "window_aggregation"@,
        r.parameters@ == json_compact_text(JsonTree::Object(batch_tree(*batch))),
{
    let mut id = batch.measurement_point_id.clone();
    id.append("-");
    let a = decimal_string(batch.start_offset);
    id.append(a.as_str());
    id.append("-");
    let b = decimal_string(batch.end_offset);
    id.append(b.as_str());
    let mut items: Vec<serde_json::Value> = Vec::new();
    let mut i: usize = 0;
    while i < batch.data.len()
        invariant
            i <= batch.data@.len(),
            items@.len() == i,
            forall|j: int| 0 <= j < i ==> json_tree(#[trigger] items@[j]) == JsonTree::Object(item_tree(batch.data@[j])),
        decreases batch.data@.len() - i,
    {
        items.push(item_value(&batch.data[i]));
        i += 1;
    }
    let mut range: Vec<u64> = Vec::new();
    range.push(batch.time_range.0);
    range.push(batch.time_range.1);
    let mut fields: Vec<(String, JsonField)> = Vec::new();
    fields.push((String::from_str("measurement_point_id"), JsonField::Text(batch.measurement_point_id.clone())));
    fields.push((String::from_str("start_offset"), JsonField::Count(batch.start_offset)));
    fields.push((String::from_str("end_offset"), JsonField::Count(batch.end_offset)));
    fields.push((String::from_str("time_range"), JsonField::Counts(range)));
    fields.push((String::from_str("count"), JsonField::Count(batch.count as u64)));
    fields.push((String::from_str("data"), JsonField::Values(items)));
    proof {
        reveal_with_fuel(fields_tree, 7);
        assert(items@.map_values(|v: serde_json::Value| json_tree(v)) =~= batch.data@.map_values(
            |d: WindowData| JsonTree::Object(item_tree(d)),
        ));
        assert(range@.map_values(|n: u64| JsonTree::Number(decimal(n as nat))) =~= seq![
            JsonTree::Number(decimal(batch.time_range.0 as nat)),
            JsonTree::Number(decimal(batch.time_range.1 as nat)),
        ]);
        assert(fields_tree(report_view(fields@)) =~= batch_tree(*batch));
    }
    let parameters = json_text(&json_object(&fields));
    ComputeRequest { id, algorithm: String::from_str("window_aggregation"), parameters }
}

/// Hands a fired window to the scheduler as a task; its id is returned.
pub fn submit_window_batch(scheduler: &mut TaskScheduler, batch: &WindowBatch) -> (id: String)
    requires
        old(scheduler).wf(),
    ensures
        final(scheduler).wf(),
        final(scheduler).configuration() == old(scheduler).configuration(),
        id@ == batch_task_id(*batch),
        final(scheduler).queued().len() == old(scheduler).queued().len() + 1,
        final(scheduler).queued().drop_last() == old(scheduler).queued(),
        is_batch_task(final(scheduler).queued().last(), *batch),
        final(scheduler).active_tasks() == old(scheduler).active_tasks().insert(
            batch_task_id(*batch),
            final(scheduler).queued().last(),
        ),
{
    let request = batch_request(batch);
    let task = ScheduledTask::new(request).with_priority(TaskPriority::Normal);
    let (id, _t) = scheduler.submit_task(task);
    id
}

/// What submitting batches `fired`, in order, did to the scheduler.
pub open spec fn submitted_all(
    before: TaskScheduler,
    after: TaskScheduler,
    fired: Seq<WindowBatch>,
    ids: Seq<Seq<char>>,
) -> bool {
    &&& after.wf()
    &&& after.configuration() == before.configuration()
    &&& ids.len() == fired.len()
    &&& forall|i: int| 0 <= i < fired.len() ==> #[trigger] ids[i] == batch_task_id(fired[i])
    &&& after.queued().len() == before.queued().len() + fired.len()
    &&& after.queued().take(before.queued().len() as int) == before.queued()
    &&& forall|i: int|
        0 <= i < fired.len() ==> is_batch_task(#[trigger] after.queued()[before.queued().len() + i], fired[i])
    &&& after.active_tasks().dom() == before.active_tasks().dom().union(ids.to_set())
}

/// Submits each batch in turn; their task ids are returned in the same order.
pub fn submit_batches(scheduler: &mut TaskScheduler, fired: &Vec<WindowBatch>) -> (ids: Vec<String>)
    requires
        old(scheduler).wf(),
    ensures
        submitted_all(*old(scheduler), *final(scheduler), fired@, chars_of(ids@)),
{
    let ghost start = *scheduler;
    let mut ids: Vec<String> = Vec::new();
    let mut i: usize = 0;
    assert(scheduler.queued().take(start.queued().len() as int) =~= start.queued());
    assert(start.active_tasks().dom().union(Seq::<Seq<char>>::empty().to_set()) =~= start.active_tasks().dom());
    assert(chars_of(ids@) =~= Seq::<Seq<char>>::empty());
    assert(fired@.take(0) =~= Seq::<WindowBatch>::empty());
    while i < fired.len()
        invariant
            i <= fired@.len(),
            submitted_all(start, *scheduler, fired@.take(i as int), chars_of(ids@)),
        decreases fired@.len() - i,
    {
        let ghost before = *scheduler;
        let ghost ids_before = chars_of(ids@);
        let id = submit_window_batch(scheduler, &fired[i]);
        ids.push(id);
        proof {
            let ids_now = chars_of(ids@);
            assert(ids_now =~= ids_before.push(batch_task_id(fired@[i as int])));
            let f = fired@.take(i + 1);
            assert(f.take(i as int) =~= fired@.take(i as int));
            assert forall|j: int| 0 <= j < f.len() implies #[trigger] ids_now[j] == batch_task_id(f[j]) by {
                if j < i {
                    assert(ids_now[j] == ids_before[j]);
                    assert(fired@.take(i as int)[j] == f[j]);
                }
            }
            let q0 = start.queued().len();
            assert(scheduler.queued().take(q0 as int) =~= start.queued()) by {
                assert(before.queued().take(q0 as int) == start.queued());
                assert forall|j: int| 0 <= j < q0 implies scheduler.queued()[j] == before.queued()[j] by {
                    assert(scheduler.queued().drop_last()[j] == scheduler.queued()[j]);
                }
            }
            assert forall|j: int| 0 <= j < f.len() implies is_batch_task(
                #[trigger] scheduler.queued()[q0 + j],
                f[j],
            ) by {
                if j < i {
                    assert(fired@.take(i as int)[j] == f[j]);
                    assert(is_batch_task(before.queued()[q0 + j], fired@.take(i as int)[j]));
                    assert(scheduler.queued().drop_last()[q0 + j] == scheduler.queued()[q0 + j]);
                } else {
                    assert(scheduler.queued()[q0 + j] == scheduler.queued().last());
                }
            }
            assert(ids_now.to_set() =~= ids_before.to_set().insert(batch_task_id(fired@[i as int]))) by {
                assert forall|x: Seq<char>| ids_now.to_set().contains(x) <==> ids_before.to_set().insert(
                    batch_task_id(fired@[i as int]),
                ).contains(x) by {
                    if ids_now.contains(x) {
                        let k = choose|k: int| 0 <= k < ids_now.len() && ids_now[k] == x;
                        if k < ids_before.len() {
                            assert(ids_before[k] == x);
                        }
                    }
                    if ids_before.contains(x) {
                        let k = choose|k: int| 0 <= k < ids_before.len() && ids_before[k] == x;
                        assert(ids_now[k] == x);
                    }
                    if x == batch_task_id(fired@[i as int]) {
                        assert(ids_now[ids_now.len() - 1] == x);
                    }
                }
            }
            assert(scheduler.active_tasks().dom() =~= start.active_tasks().dom().union(ids_now.to_set()));
        }
        i += 1;
    }
    assert(fired@.take(fired@.len() as int) =~= fired@);
    ids
}

/// What processing one message did: how many messages it released in order, and
/// the tasks of the windows that fired.
#[derive(Debug)]
pub struct ProcessingStep {
    pub released: usize,
    pub submitted: Vec<String>,
}

/// What processing `message` at `now_ms` did, given the run the tracker released
/// and the windows that fired.
pub open spec fn process_effect(
    before: OrderedWindowProcessor,
    after: OrderedWindowProcessor,
    message: ZeroMQMessage,
    now_ms: u64,
    step: ProcessingStep,
    run: Seq<WindowData>,
    fired: Seq<WindowBatch>,
) -> bool {
    &&& receive_effect(
        before.tracker(),
        after.tracker(),
        message.measurement_point_id@,
        message.sequence,
        message.timestamp,
        message.payload,
        now_ms,
        run,
    )
    &&& step.released == run.len()
    &&& after.counters().messages_received == before.counters().messages_received + 1
    &&& after.counters().active_measurement_points == before.counters().active_measurement_points
    &&& after.counters().total_continuous_data_points == (if before.counters().total_continuous_data_points + run.len() <= u64::MAX {
        before.counters().total_continuous_data_points + run.len()
    } else {
        u64::MAX as int
    })
    &&& if run.len() == 0 {
        &&& fired.len() == 0
        &&& after.aggregator() == before.aggregator()
        &&& after.counters().windows_processed == before.counters().windows_processed
        &&& after.counters().errors_count == before.counters().errors_count
    } else if offsets_bounded(run) {
        &&& add_effect(
            before.aggregator(),
            after.aggregator(),
            message.measurement_point_id@,
            run,
            now_ms,
            fired,
        )
        &&& after.counters().windows_processed == before.counters().windows_processed
            + 1
        &&& after.counters().errors_count == before.counters().errors_count
    } else {
        &&& fired.len() == 0
        &&& after.aggregator() == before.aggregator()
        &&& after.counters().windows_processed == before.counters().windows_processed
        &&& after.counters().errors_count == before.counters().errors_count + 1
    }
    &&& submitted_all(
        before.task_scheduler(),
        after.task_scheduler(),
        fired,
        chars_of(step.submitted@),
    )
}

/// Reorders messages per point, feeds the windows, and schedules fired windows.
pub struct OrderedWindowProcessor {
    offset_tracker: OffsetTracker,
    window_aggregator: SlidingWindowAggregator,
    scheduler: TaskScheduler,
    stats: ProcessorStats,
    is_running: bool,
}

impl OrderedWindowProcessor {
    pub closed spec fn wf(&self) -> bool {
        &&& self.offset_tracker.wf()
        &&& self.window_aggregator.wf()
        &&& self.scheduler.wf()
    }

    pub closed spec fn tracker(&self) -> OffsetTracker {
        self.offset_tracker
    }

    pub closed spec fn aggregator(&self) -> SlidingWindowAggregator {
        self.window_aggregator
    }

    pub closed spec fn task_scheduler(&self) -> TaskScheduler {
        self.scheduler
    }

    pub closed spec fn counters(&self) -> ProcessorStats {
        self.stats
    }

    pub closed spec fn running(&self) -> bool {
        self.is_running
    }

    /// A stopped pipeline with the configured parts and the given scheduler.
    pub fn new(config: OrderedWindowProcessorConfig, scheduler: TaskScheduler) -> (r: Result<
        OrderedWindowProcessor,
        String,
    >)
        requires
            scheduler.wf(),
        ensures
            r matches Ok(p) && p.wf() && !p.running() && p.counters() == ProcessorStats::zero()
                && p.tracker().configuration() == config.offset_config && p.tracker().states() == Map::<
                Seq<char>,
                crate::offset_tracker::OffsetState,
            >::empty() && p.aggregator().configuration() == config.window_config && p.aggregator().windows()
                == Map::<Seq<char>, crate::window_aggregator::WindowBuffer>::empty() && p.task_scheduler()
                == scheduler,
    {
        Ok(
            OrderedWindowProcessor {
                offset_tracker: OffsetTracker::new(config.offset_config),
                window_aggregator: SlidingWindowAggregator::new(config.window_config),
                scheduler,
                stats: ProcessorStats {
                    messages_received: 0,
                    windows_processed: 0,
                    errors_count: 0,
                    active_measurement_points: 0,
                    total_continuous_data_points: 0,
                },
                is_running: false,
            },
        )
    }

    /// Starts the pipeline once its source has started; a running pipeline
    /// refuses, and a source that failed to start leaves it stopped.
    pub fn start(&mut self, source_started: Result<(), String>) -> (r: Result<(), String>)
        ensures
            final(self).wf() == old(self).wf(),
            final(self).counters() == old(self).counters(),
            old(self).running() ==> (r matches Err(m) && m@ == "Ordered window processor is already running"@)
                && final(self).running(),
            !old(self).running() ==> match source_started {
                Ok(()) => r is Ok && final(self).running(),
                Err(e) => r == Err::<(), String>(e) && !final(self).running(),
            },
    {
        if self.is_running {
            return Err(String::from_str("Ordered window processor is already running"));
        }
        match source_started {
            Ok(()) => {
                self.is_running = true;
                Ok(())
            },
            Err(e) => Err(e),
        }
    }

    /// Stops the pipeline; whether it was running is returned (its source is
    /// then to be stopped).
    pub fn stop(&mut self) -> (was_running: bool)
        ensures
            final(self).wf() == old(self).wf(),
            final(self).counters() == old(self).counters(),
            !final(self).running(),
            was_running == old(self).running(),
    {
        let was = self.is_running;
        self.is_running = false;
        was
    }

    pub fn is_running(&self) -> (b: bool)
        ensures
            b == self.running(),
    {
        self.is_running
    }

    /// Processes one message at clock reading `now_ms`: it is counted, given to
    /// the offset tracker, and the messages it releases in order (if any) are
    /// counted and handed to the windows, which may fire; fired windows become
    /// tasks.  Released messages carrying the largest possible offset cannot be
    /// windowed: they count as an error.
    pub fn process_message(&mut self, message: ZeroMQMessage, now_ms: u64) -> (step: ProcessingStep)
        requires
            old(self).wf(),
            old(self).counters().messages_received < u64::MAX,
            old(self).counters().windows_processed < u64::MAX,
            old(self).counters().errors_count < u64::MAX,
        ensures
            final(self).wf(),
            final(self).running() == old(self).running(),
            exists|run: Seq<WindowData>, fired: Seq<WindowBatch>|
                #[trigger] process_effect(*old(self), *final(self), message, now_ms, step, run, fired),
    {
        let ghost msg = message;
        self.stats.messages_received = self.stats.messages_received + 1;
        let run = self.offset_tracker.receive_message(
            message.measurement_point_id.as_str(),
            message.sequence,
            message.timestamp,
            message.payload,
            now_ms,
        );
        let released = run.len();
        let ghost run_g = run@;
        let fired: Vec<WindowBatch> = if run.len() == 0 {
            Vec::new()
        } else {
            self.stats.total_continuous_data_points = self.stats.total_continuous_data_points.saturating_add(
                released as u64,
            );
            if all_offsets_bounded(&run) {
                let f = self.window_aggregator.add_data(message.measurement_point_id.as_str(), run, now_ms);
                self.stats.windows_processed = self.stats.windows_processed + 1;
                f
            } else {
                self.stats.errors_count = self.stats.errors_count + 1;
                Vec::new()
            }
        };
        let submitted = submit_batches(&mut self.scheduler, &fired);
        let step = ProcessingStep { released, submitted };
        assert(process_effect(*old(self), *self, msg, now_ms, step, run_g, fired@));
        step
    }

    /// Fires the windows idle past their time-out at `now_ms` and schedules them.
    pub fn check_window_timeouts(&mut self, now_ms: u64) -> (ids: Vec<String>)
        requires
            old(self).wf(),
        ensures
            final(self).wf(),
            final(self).tracker() == old(self).tracker(),
            final(self).counters() == old(self).counters(),
            final(self).running() == old(self).running(),
            final(self).aggregator().configuration() == old(self).aggregator().configuration(),
            exists|fired: Seq<WindowBatch>|
                #[trigger] timeouts_effect(old(self).aggregator(), final(self).aggregator(), now_ms, fired)
                    && submitted_all(old(self).task_scheduler(), final(self).task_scheduler(), fired, chars_of(ids@)),
    {
        let fired = self.window_aggregator.check_timeouts(now_ms);
        let ids = submit_batches(&mut self.scheduler, &fired);
        assert(timeouts_effect(old(self).aggregator(), self.aggregator(), now_ms, fired@));
        assert(submitted_all(old(self).task_scheduler(), self.task_scheduler(), fired@, chars_of(ids@)));
        ids
    }

    /// The counters, with the number of measurement points being tracked.
    pub fn get_stats(&self) -> (s: ProcessorStats)
        requires
            self.wf(),
        ensures
            s == (ProcessorStats {
                active_measurement_points: self.tracker().states().dom().len() as usize,
                ..self.counters()
            }),
    {
        ProcessorStats { active_measurement_points: self.offset_tracker.get_active_count(), ..self.stats }
    }

    pub fn get_offset_state(&self, measurement_point_id: &str) -> (r: Option<OffsetStateInfo>)
        requires
            self.wf(),
        ensures
            r is Some <==> self.tracker().states().dom().contains(measurement_point_id@),
    {
        self.offset_tracker.get_offset_state(measurement_point_id)
    }

    pub fn get_window_status(&self, measurement_point_id: &str) -> (r: Option<WindowStatus>)
        requires
            self.wf(),
        ensures
            r is Some <==> self.aggregator().windows().dom().contains(measurement_point_id@),
    {
        self.window_aggregator.get_window_status(measurement_point_id)
    }
}

/// Whether every item's offset can be followed by another.
fn all_offsets_bounded(items: &Vec<WindowData>) -> (b: bool)
    ensures
        b == offsets_bounded(items@),
{
    let mut i: usize = 0;
    while i < items.len()
        invariant
            i <= items@.len(),
            forall|j: int| 0 <= j < i ==> #[trigger] items@[j].sequence < u64::MAX,
        decreases items@.len() - i,
    {
        if items[i].sequence == u64::MAX {
            return false;
        }
        i += 1;
    }
    true
}

} // verus!
