//! Sliding-window aggregation of contiguous data per measurement point.  A window
//! fires when it holds `window_size` items; it then moves on by `window_slide`
//! items.  An idle window may fire incomplete.
use vstd::prelude::*;
use crate::time::elapsed_ms;
use crate::offset_tracker::WindowData;
use crate::string_map::StringMap;

verus! {

/// Window configuration.
#[derive(Debug, Clone)]
pub struct WindowConfig {
    /// Items per window.
    pub window_size: usize,
    /// Items the window moves on by after it fires.
    pub window_slide: usize,
    /// Idle time (milliseconds) after which an incomplete window may fire.
    pub window_timeout_ms: u64,
    /// Whether an incomplete window may fire.
    pub allow_incomplete_window: bool,
}

impl WindowConfig {
    pub fn default() -> (c: WindowConfig)
        ensures
            c.window_size == 100,
            c.window_slide == 50,
            c.window_timeout_ms == 5000,
            c.allow_incomplete_window,
    {
        WindowConfig {
            window_size: 100,
            window_slide: 50,
            window_timeout_ms: 5000,
            allow_incomplete_window: true,
        }
    }
}

/// Buffered items of one measurement point.
#[derive(Debug, Clone)]
pub struct WindowBuffer {
    pub measurement_point_id: String,
    /// Buffered items, in offset order.
    pub data: Vec<WindowData>,
    /// Offset that follows the last fired window.
    pub window_start_offset: u64,
    pub window_end_offset: u64,
    pub window_created_ms: u64,
    pub last_updated_ms: u64,
}

/// A fired window.
#[derive(Debug)]
pub struct WindowBatch {
    pub measurement_point_id: String,
    /// Offset of the first item.
    pub start_offset: u64,
    /// Offset of the last item.
    pub end_offset: u64,
    /// The items, in offset order.
    pub data: Vec<WindowData>,
    /// Time stamps of the first and the last item.
    pub time_range: (u64, u64),
    /// Number of items.
    pub count: usize,
}

/// Monitoring summary of one window.
#[derive(Debug, Clone)]
pub struct WindowStatus {
    pub measurement_point_id: String,
    pub data_count: usize,
    pub window_start_offset: u64,
    pub window_end_offset: u64,
    pub window_created_ms: u64,
    pub last_updated_ms: u64,
}

/// `b` is the batch of point `id` made of the (non-empty) items `items`.
pub open spec fn batch_of(b: WindowBatch, id: Seq<char>, items: Seq<WindowData>) -> bool {
    &&& items.len() > 0
    &&& b.measurement_point_id@ == id
    &&& b.data@ == items
    &&& b.count == items.len()
    &&& b.start_offset == items[0].sequence
    &&& b.end_offset == items.last().sequence
    &&& b.time_range == (items[0].timestamp, items.last().timestamp)
}

pub open spec fn min(a: int, b: int) -> int {
    if a <= b { a } else { b }
}

/// Items a window of `buf` fires with: the first `window_size` ones (all of them if fewer).
pub open spec fn fired_items(buf: Seq<WindowData>, cfg: WindowConfig) -> Seq<WindowData> {
    buf.take(min(cfg.window_size as int, buf.len() as int))
}

/// What remains of `buf` after its window fired.
pub open spec fn after_firing(buf: Seq<WindowData>, cfg: WindowConfig) -> Seq<WindowData> {
    if fired_items(buf, cfg).len() == 0 {
        buf
    } else {
        buf.skip(min(cfg.window_slide as int, buf.len() as int))
    }
}

/// The window `w` is idle long enough at `now` to fire incomplete.
pub open spec fn timed_out(w: WindowBuffer, cfg: WindowConfig, now: u64) -> bool {
    cfg.allow_incomplete_window && w.data@.len() > 0 && elapsed_ms(now, w.last_updated_ms)
        >= cfg.window_timeout_ms
}

/// Every buffered offset can be followed by another one.
pub open spec fn offsets_bounded(items: Seq<WindowData>) -> bool {
    forall|i: int| 0 <= i < items.len() ==> #[trigger] items[i].sequence < u64::MAX
}

/// Aggregates contiguous items into windows, per measurement point.
pub struct SlidingWindowAggregator {
    config: WindowConfig,
    windows: StringMap<WindowBuffer>,
}

fn first_items(items: &Vec<WindowData>, n: usize) -> (r: Vec<WindowData>)
    requires
        n <= items@.len(),
    ensures
        r@ == items@.take(n as int),
{
    let mut r: Vec<WindowData> = Vec::new();
    let mut i: usize = 0;
    while i < n
        invariant
            i <= n <= items@.len(),
            r@ == items@.take(i as int),
        decreases n - i,
    {
        r.push(items[i].duplicate());
        assert(r@ =~= items@.take(i + 1));
        i += 1;
    }
    r
}

fn items_from(items: &Vec<WindowData>, n: usize) -> (r: Vec<WindowData>)
    requires
        n <= items@.len(),
    ensures
        r@ == items@.skip(n as int),
{
    let mut r: Vec<WindowData> = Vec::new();
    let mut i: usize = n;
    while i < items.len()
        invariant
            n <= i <= items@.len(),
            r@ == items@.subrange(n as int, i as int),
        decreases items.len() - i,
    {
        r.push(items[i].duplicate());
        assert(r@ =~= items@.subrange(n as int, i + 1));
        i += 1;
    }
    assert(r@ =~= items@.skip(n as int));
    r
}

fn make_batch(id: &String, items: Vec<WindowData>) -> (b: WindowBatch)
    requires
        items@.len() > 0,
    ensures
        batch_of(b, id@, items@),
{
    let first = items[0].sequence;
    let last = items[items.len() - 1].sequence;
    let t0 = items[0].timestamp;
    let t1 = items[items.len() - 1].timestamp;
    let count = items.len();
    WindowBatch {
        measurement_point_id: id.clone(),
        start_offset: first,
        end_offset: last,
        data: items,
        time_range: (t0, t1),
        count,
    }
}

/// What adding items of point `id` at `now` does to the aggregator: nothing for
/// no items; otherwise the items join the point's buffer, a full window fires its
/// first `window_size` items and slides by `window_slide`, a window with no
/// waiting time fires what is left at once, and other points are untouched.
pub open spec fn add_effect(
    before: SlidingWindowAggregator,
    after: SlidingWindowAggregator,
    id: Seq<char>,
    data: Seq<WindowData>,
    now_ms: u64,
    fired: Seq<WindowBatch>,
) -> bool {
    &&& (after.configuration() == before.configuration())
    &&& (data.len() == 0 ==> after.windows() =~= before.windows() && fired.len() == 0)
    &&& (data.len() > 0 ==> after.windows().dom() =~= before.windows().dom().insert(id))
    &&& (forall|k: Seq<char>|
            k != id && #[trigger] before.windows().dom().contains(k) ==> after.windows()[k]
                == before.windows()[k])
    &&& (data.len() > 0 ==> ({
            let cfg = before.configuration();
            let buf0 = if before.windows().dom().contains(id) {
                before.windows()[id].data@
            } else {
                Seq::<WindowData>::empty()
            };
            let all = buf0 + data;
            let full = all.len() >= cfg.window_size;
            let mid = if full { after_firing(all, cfg) } else { all };
            let idle = cfg.window_timeout_ms == 0 && cfg.allow_incomplete_window && mid.len() > 0;
            let end = if idle { after_firing(mid, cfg) } else { mid };
            let first_fire = full && fired_items(all, cfg).len() > 0;
            let second_fire = idle && fired_items(mid, cfg).len() > 0;
            &&& after.windows()[id].data@ =~= end
            &&& after.windows()[id].last_updated_ms == now_ms
            &&& fired.len() == (if first_fire { 1int } else { 0 }) + (if second_fire {
                1int
            } else {
                0
            })
            &&& first_fire ==> batch_of(fired[0], id, fired_items(all, cfg))
            &&& second_fire ==> batch_of(
                fired[fired.len() - 1],
                id,
                fired_items(mid, cfg),
            )
        }))
}

/// Some batch of `fired` is the batch of point `k` made of `items`.
pub open spec fn fires_batch(fired: Seq<WindowBatch>, k: Seq<char>, items: Seq<WindowData>) -> bool {
    exists|b: int| 0 <= b < fired.len() && #[trigger] fired[b].measurement_point_id@ == k && batch_of(fired[b], k, items)
}

/// No two batches of `fired` belong to the same point.
pub open spec fn one_batch_per_point(fired: Seq<WindowBatch>) -> bool {
    forall|a: int, b: int|
        0 <= a < fired.len() && 0 <= b < fired.len() && a != b ==> #[trigger] fired[a].measurement_point_id@
            != #[trigger] fired[b].measurement_point_id@
}

/// A window emptied by its time-out: only its items are gone.
pub open spec fn emptied(before: WindowBuffer, after: WindowBuffer) -> bool {
    &&& after.data@.len() == 0
    &&& after.measurement_point_id == before.measurement_point_id
    &&& after.window_start_offset == before.window_start_offset
    &&& after.window_end_offset == before.window_end_offset
    &&& after.window_created_ms == before.window_created_ms
    &&& after.last_updated_ms == before.last_updated_ms
}

/// What the time-out check at `now_ms` does: each window idle past its time-out
/// (when incomplete windows are allowed) fires all its items as one batch and is
/// emptied; every other window stays; exactly those batches fire, one per point.
pub open spec fn timeouts_effect(
    before: SlidingWindowAggregator,
    after: SlidingWindowAggregator,
    now_ms: u64,
    fired: Seq<WindowBatch>,
) -> bool {
    &&& (after.configuration() == before.configuration())
    &&& (after.windows().dom() == before.windows().dom())
    &&& (forall|b: int|
                0 <= b < fired.len() ==> before.windows().dom().contains(
                    #[trigger] fired[b].measurement_point_id@,
                ) && batch_of(
                    fired[b],
                    fired[b].measurement_point_id@,
                    before.windows()[fired[b].measurement_point_id@].data@,
                ))
    &&& (forall|b: int|
                0 <= b < fired.len() ==> timed_out(
                    before.windows()[#[trigger] fired[b].measurement_point_id@],
                    before.configuration(),
                    now_ms,
                ))
    &&& (one_batch_per_point(fired))
    &&& (fired.len() == before.windows().dom().filter(
        |k: Seq<char>| timed_out(before.windows()[k], before.configuration(), now_ms),
    ).len())
    &&& (forall|k: Seq<char>| #[trigger]
                before.windows().dom().contains(k) ==> ({
                    let w = before.windows()[k];
                    if timed_out(w, before.configuration(), now_ms) {
                        &&& emptied(w, after.windows()[k])
                        &&& fires_batch(fired, k, w.data@)
                    } else {
                        after.windows()[k] == w
                    }
                }))
}

impl SlidingWindowAggregator {
    pub closed spec fn wf(&self) -> bool {
        &&& self.windows.wf()
        &&& forall|k: Seq<char>| #[trigger]
            self.windows@.dom().contains(k) ==> self.windows@[k].measurement_point_id@ == k
                && offsets_bounded(self.windows@[k].data@)
    }

    /// The window of each measurement point seen so far.
    pub closed spec fn windows(&self) -> Map<Seq<char>, WindowBuffer> {
        self.windows@
    }

    pub closed spec fn configuration(&self) -> WindowConfig {
        self.config
    }

    pub fn new(config: WindowConfig) -> (a: SlidingWindowAggregator)
        ensures
            a.wf(),
            a.configuration() == config,
            a.windows() == Map::<Seq<char>, WindowBuffer>::empty(),
    {
        SlidingWindowAggregator { config, windows: StringMap::new() }
    }

    /// Fires the window `w` once, if it holds anything the configuration lets fire.
    fn trigger_window(&self, w: &mut WindowBuffer) -> (b: Option<WindowBatch>)
        requires
            offsets_bounded(old(w).data@),
        ensures
            offsets_bounded(final(w).data@),
            final(w).measurement_point_id == old(w).measurement_point_id,
            final(w).data@ == after_firing(old(w).data@, self.config),
            final(w).last_updated_ms == old(w).last_updated_ms,
            final(w).window_created_ms == old(w).window_created_ms,
            match b {
                Some(batch) => batch_of(
                    batch,
                    old(w).measurement_point_id@,
                    fired_items(old(w).data@, self.config),
                ),
                None => fired_items(old(w).data@, self.config).len() == 0,
            },
    {
        let n = if self.config.window_size <= w.data.len() {
            self.config.window_size
        } else {
            w.data.len()
        };
        if n == 0 {
            return None;
        }
        let items = first_items(&w.data, n);
        let slide = if self.config.window_slide <= w.data.len() {
            self.config.window_slide
        } else {
            w.data.len()
        };
        let rest = items_from(&w.data, slide);
        let end = items[items.len() - 1].sequence;
        proof {
            assert(items@[items@.len() - 1] == w.data@[n - 1]);
        }
        w.window_start_offset = end + 1;
        let ghost before = w.data@;
        w.data = rest;
        proof {
            assert forall|i: int| 0 <= i < w.data@.len() implies #[trigger] w.data@[i].sequence
                < u64::MAX by {
                assert(w.data@[i] == before[i + slide]);
            }
        }
        Some(make_batch(&w.measurement_point_id, items))
    }

    /// Appends contiguous items of point `id` (clock reading `now_ms`) and returns the
    /// windows that fired: first a full window, then, once the idle time has run out,
    /// an incomplete one.
    pub fn add_data(&mut self, id: &str, data: Vec<WindowData>, now_ms: u64) -> (fired: Vec<
        WindowBatch,
    >)
        requires
            old(self).wf(),
            offsets_bounded(data@),
        ensures
            final(self).wf(),
            add_effect(*old(self), *final(self), id@, data@, now_ms, fired@),
    {
        let mut fired: Vec<WindowBatch> = Vec::new();
        if data.len() == 0 {
            return fired;
        }
        let ghost old_map = self.windows@;
        let key = String::from_str(id);
        let mut w = match self.windows.take(id) {
            Some(w) => w,
            None => WindowBuffer {
                measurement_point_id: String::from_str(id),
                data: Vec::new(),
                window_start_offset: 0,
                window_end_offset: 0,
                window_created_ms: now_ms,
                last_updated_ms: now_ms,
            },
        };
        let ghost buf0 = w.data@;
        proof {
            if !old_map.dom().contains(id@) {
                assert(buf0 =~= Seq::<WindowData>::empty());
            }
        }
        let mut i: usize = 0;
        while i < data.len()
            invariant
                i <= data@.len(),
                w.data@ == buf0 + data@.take(i as int),
                offsets_bounded(buf0),
                offsets_bounded(data@),
                w.measurement_point_id@ == id@,
            decreases data@.len() - i,
        {
            w.data.push(data[i].duplicate());
            assert(w.data@ =~= buf0 + data@.take(i + 1));
            i += 1;
        }
        assert(data@.take(data@.len() as int) =~= data@);
        let ghost all = w.data@;
        proof {
            assert forall|j: int| 0 <= j < all.len() implies #[trigger] all[j].sequence < u64::MAX by {
                if j >= buf0.len() {
                    assert(all[j] == data@[j - buf0.len()]);
                }
            }
        }
        w.last_updated_ms = now_ms;
        if w.data.len() >= self.config.window_size {
            match self.trigger_window(&mut w) {
                Some(b) => fired.push(b),
                None => {},
            }
        }
        let elapsed = now_ms - w.last_updated_ms;
        if elapsed >= self.config.window_timeout_ms {
            if self.config.allow_incomplete_window && w.data.len() > 0 {
                match self.trigger_window(&mut w) {
                    Some(b) => fired.push(b),
                    None => {},
                }
            }
        }
        self.windows.insert(key, w);
        proof {
            assert forall|k: Seq<char>| #[trigger] self.windows@.dom().contains(k) implies self.windows@[
                k].measurement_point_id@ == k && offsets_bounded(self.windows@[k].data@) by {
                if k != id@ {
                    assert(old_map.dom().contains(k));
                }
            }
        }
        fired
    }

    /// Fires, as one incomplete batch each, the windows idle for at least the
    /// timeout at clock reading `now_ms`, if incomplete windows are allowed.
    pub fn check_timeouts(&mut self, now_ms: u64) -> (fired: Vec<WindowBatch>)
        requires
            old(self).wf(),
        ensures
            final(self).wf(),
            timeouts_effect(*old(self), *final(self), now_ms, fired@),
    {
        let ghost old_map = self.windows@;
        let ks = self.windows.keys();
        proof {
            self.windows.lemma_enumeration();
        }
        let mut fired: Vec<WindowBatch> = Vec::new();
        let mut i: usize = 0;
        while i < ks.len()
            invariant
                self.wf(),
                self.config == old(self).config,
                i <= ks@.len(),
                crate::string_map::chars_of(ks@) == old(self).windows.key_seq(),
                old(self).windows.key_seq().no_duplicates(),
                old_map == old(self).windows@,
                old_map.dom() == old(self).windows.key_seq().to_set(),
                self.windows@.dom() == old_map.dom(),
                forall|j: int| #![trigger ks@[j]]
                    i <= j < ks@.len() ==> self.windows@[ks@[j]@] == old_map[ks@[j]@],
                forall|j: int| #![trigger ks@[j]]
                    0 <= j < i ==> ({
                        let w = old_map[ks@[j]@];
                        if timed_out(w, self.config, now_ms) {
                            &&& emptied(w, self.windows@[ks@[j]@])
                            &&& fires_batch(fired@, ks@[j]@, w.data@)
                        } else {
                            self.windows@[ks@[j]@] == w
                        }
                    }),
                forall|b: int|
                    0 <= b < fired@.len() ==> old_map.dom().contains(
                        #[trigger] fired@[b].measurement_point_id@,
                    ) && batch_of(
                        fired@[b],
                        fired@[b].measurement_point_id@,
                        old_map[fired@[b].measurement_point_id@].data@,
                    ) && timed_out(old_map[fired@[b].measurement_point_id@], self.config, now_ms)
                        && exists|j: int| 0 <= j < i && ks@[j]@ == fired@[b].measurement_point_id@,
                one_batch_per_point(fired@),
            decreases ks@.len() - i,
        {
            let ghost k = ks@[i as int]@;
            proof {
                assert(crate::string_map::chars_of(ks@)[i as int] == k);
                assert(old(self).windows.key_seq().contains(k));
            }
            let key = ks[i].clone();
            match self.windows.take(key.as_str()) {
                None => {},
                Some(mut w) => {
                    let ghost w0 = w;
                    let elapsed = if now_ms >= w.last_updated_ms {
                        now_ms - w.last_updated_ms
                    } else {
                        0
                    };
                    let due = self.config.allow_incomplete_window && w.data.len() > 0 && elapsed
                        >= self.config.window_timeout_ms;
                    let ghost fired0 = fired@;
                    if due {
                        let mut items: Vec<WindowData> = Vec::new();
                        std::mem::swap(&mut items, &mut w.data);
                        fired.push(make_batch(&w.measurement_point_id, items));
                        proof {
                            assert(fired@[fired0.len() as int].measurement_point_id@ == k);
                            assert forall|b: int| 0 <= b < fired0.len() implies #[trigger] fired0[b].measurement_point_id@
                                != k by {
                                let j = choose|j: int| 0 <= j < i && ks@[j]@ == fired0[b].measurement_point_id@;
                                assert(crate::string_map::chars_of(ks@)[j] == ks@[j]@);
                                assert(crate::string_map::chars_of(ks@)[j] != crate::string_map::chars_of(ks@)[i as int]);
                            }
                            assert(fires_batch(fired@, k, w0.data@));
                        }
                    }
                    proof {
                        assert forall|b: int| 0 <= b < fired0.len() implies fired@[b] == fired0[b] by {}
                    }
                    self.windows.insert(key, w);
                    proof {
                        assert(w0 == old_map[k]);
                        assert(due == timed_out(w0, self.config, now_ms));
                        assert(ks@[i as int]@ == k);
                        assert forall|j: int| #![trigger ks@[j]] i < j < ks@.len() implies self.windows@[
                            ks@[j]@] == old_map[ks@[j]@] by {
                            assert(crate::string_map::chars_of(ks@)[j] == ks@[j]@);
                            assert(ks@[j]@ != k) by {
                                assert(crate::string_map::chars_of(ks@)[j] != crate::string_map::chars_of(ks@)[i as int]);
                            }
                        }
                        assert forall|j: int| #![trigger ks@[j]] 0 <= j < i implies ks@[j]@ != k by {
                            assert(crate::string_map::chars_of(ks@)[j] == ks@[j]@);
                            assert(crate::string_map::chars_of(ks@)[j] != crate::string_map::chars_of(ks@)[i as int]);
                        }
                        assert forall|kk: Seq<char>| #[trigger] self.windows@.dom().contains(kk) implies self.windows@[
                            kk].measurement_point_id@ == kk && offsets_bounded(self.windows@[kk].data@) by {
                        }
                    }
                },
            }
            i += 1;
        }
        proof {
            assert forall|k: Seq<char>| #[trigger] old_map.dom().contains(k) implies ({
                let w = old_map[k];
                if timed_out(w, self.config, now_ms) {
                    &&& emptied(w, self.windows@[k])
                    &&& fires_batch(fired@, k, w.data@)
                } else {
                    self.windows@[k] == w
                }
            }) by {
                let ksq = old(self).windows.key_seq();
                assert(ksq.contains(k));
                let j = choose|j: int| 0 <= j < ksq.len() && ksq[j] == k;
                assert(crate::string_map::chars_of(ks@)[j] == ks@[j]@);
                assert(ks@[j]@ == k);
            }
            let ids = fired@.map_values(|b: WindowBatch| b.measurement_point_id@);
            let due = old_map.dom().filter(|k: Seq<char>| timed_out(old_map[k], self.config, now_ms));
            assert(ids.no_duplicates()) by {
                assert forall|a: int, b: int| 0 <= a < ids.len() && 0 <= b < ids.len() && a != b implies ids[a]
                    != ids[b] by {
                    assert(fired@[a].measurement_point_id@ != fired@[b].measurement_point_id@);
                }
            }
            assert forall|k: Seq<char>| ids.to_set().contains(k) <==> due.contains(k) by {
                if ids.to_set().contains(k) {
                    let b = choose|b: int| 0 <= b < ids.len() && ids[b] == k;
                    assert(fired@[b].measurement_point_id@ == k);
                }
                if due.contains(k) {
                    assert(old_map.dom().contains(k));
                    assert(fires_batch(fired@, k, old_map[k].data@));
                    let b = choose|b: int| 0 <= b < fired@.len() && #[trigger] fired@[b].measurement_point_id@ == k
                        && batch_of(fired@[b], k, old_map[k].data@);
                    assert(ids[b] == k);
                    assert(ids.contains(k));
                }
            }
            assert(ids.to_set() =~= due);
            ids.unique_seq_to_set();
        }
        fired
    }

    /// Monitoring summary of the window of point `id`.
    pub fn get_window_status(&self, id: &str) -> (r: Option<WindowStatus>)
        requires
            self.wf(),
        ensures
            match r {
                Some(s) => self.windows().dom().contains(id@) && s.data_count
                    == self.windows()[id@].data@.len() && s.window_start_offset
                    == self.windows()[id@].window_start_offset && s.measurement_point_id@ == id@,
                None => !self.windows().dom().contains(id@),
            },
    {
        match self.windows.get(id) {
            Some(w) => Some(
                WindowStatus {
                    measurement_point_id: w.measurement_point_id.clone(),
                    data_count: w.data.len(),
                    window_start_offset: w.window_start_offset,
                    window_end_offset: w.window_end_offset,
                    window_created_ms: w.window_created_ms,
                    last_updated_ms: w.last_updated_ms,
                },
            ),
            None => None,
        }
    }
}

} // verus!
