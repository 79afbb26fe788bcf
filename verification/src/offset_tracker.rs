//! Per measurement point, the largest contiguous consumed offset.  Messages may
//! arrive out of order or twice; a message is released exactly once, and only when
//! every smaller offset has been released before it.
use vstd::prelude::*;
use crate::string_map::{chars_of, StringMap};
use crate::time::{elapsed_between, elapsed_ms};

verus! {

broadcast use vstd::seq_lib::group_filter_ensures;

/// One message waiting in, or released from, a window buffer.
#[derive(Debug, Clone)]
pub struct WindowData {
    /// Offset of the message (its sequence number).
    pub sequence: u64,
    /// Time stamp of the message.
    pub timestamp: u64,
    /// Payload.
    pub data: serde_json::Value,
}

impl WindowData {
    /// A copy of this item.
    pub fn duplicate(&self) -> (r: WindowData)
        ensures
            r == *self,
    {
        WindowData { sequence: self.sequence, timestamp: self.timestamp, data: self.data.clone() }
    }
}

/// Tracker configuration.
#[derive(Debug, Clone)]
pub struct OffsetTrackerConfig {
    /// Number of waiting offsets above which a gap is worth reporting.
    pub max_waiting_offsets: usize,
    /// Idle time (milliseconds) after which an empty state may be dropped.
    pub offset_timeout_ms: u64,
}

impl OffsetTrackerConfig {
    pub fn default() -> (c: OffsetTrackerConfig)
        ensures
            c.max_waiting_offsets == 1000,
            c.offset_timeout_ms == 5000,
    {
        OffsetTrackerConfig { max_waiting_offsets: 1000, offset_timeout_ms: 5000 }
    }
}

/// Offset state of one measurement point.
#[derive(Debug, Clone)]
pub struct OffsetState {
    /// Largest contiguous consumed offset.
    pub committed_offset: u64,
    /// Offsets received but not yet released (each once).
    pub received_offsets: Vec<u64>,
    /// Messages received but not yet released, in arrival order.
    pub window_buffer: Vec<WindowData>,
    /// Clock reading (milliseconds) of the last accepted message.
    pub last_updated_ms: u64,
}

/// Monitoring summary of one measurement point.
#[derive(Debug, Clone)]
pub struct OffsetStateInfo {
    pub committed_offset: u64,
    pub waiting_count: usize,
    pub received_offsets_count: usize,
    pub last_updated_ms: u64,
}

/// Whether some item of `buf` has sequence number `s`.
pub open spec fn has_seq(buf: Seq<WindowData>, s: int) -> bool {
    exists|i: int| 0 <= i < buf.len() && buf[i].sequence == s
}

/// `i` is the first position of `buf` holding sequence number `s`.
pub open spec fn first_with_seq(buf: Seq<WindowData>, i: int, s: int) -> bool {
    &&& 0 <= i < buf.len()
    &&& buf[i].sequence == s
    &&& forall|j: int| 0 <= j < i ==> buf[j].sequence != s
}

/// `run` is what is released from `buf` above `committed`: for each offset
/// `committed + 1`, `committed + 2`, ... in turn, the first buffered message with that
/// offset, up to the first offset that no buffered message has.
pub open spec fn continuous_run(buf: Seq<WindowData>, committed: u64, run: Seq<WindowData>) -> bool {
    &&& forall|k: int|
        0 <= k < run.len() ==> #[trigger] run[k].sequence == committed + 1 + k && exists|i: int|
            first_with_seq(buf, i, committed + 1 + k) && buf[i] == run[k]
    &&& !has_seq(buf, committed + 1 + run.len())
}

/// The state of a point: every buffered offset is above the committed one, none
/// is the next one (that one would have been released), and the received offsets
/// are exactly the buffered offsets, each listed once.
pub open spec fn state_ok(st: OffsetState) -> bool {
    &&& forall|i: int|
        0 <= i < st.window_buffer@.len() ==> #[trigger] st.window_buffer@[i].sequence
            > st.committed_offset
    &&& !has_seq(st.window_buffer@, st.committed_offset + 1)
    &&& st.received_offsets@.no_duplicates()
    &&& forall|x: u64| #[trigger]
        st.received_offsets@.contains(x) <==> has_seq(st.window_buffer@, x as int)
}

/// `st` is the state of a point that had not been seen before `now_ms`.
pub open spec fn is_fresh(st: OffsetState, now_ms: u64) -> bool {
    &&& st.committed_offset == 0
    &&& st.received_offsets@ == Seq::<u64>::empty()
    &&& st.window_buffer@ == Seq::<WindowData>::empty()
    &&& st.last_updated_ms == now_ms
}

/// Whether a point's state stays through a cleanup at `now_ms`: it was updated
/// within the time-out, or it still holds waiting messages.
pub open spec fn kept_state(st: OffsetState, timeout_ms: u64, now_ms: u64) -> bool {
    elapsed_ms(now_ms, st.last_updated_ms) < timeout_ms || st.window_buffer@.len() > 0
}

/// Keeps, per measurement point, the largest contiguous offset and the messages
/// that wait for a gap to close.
pub struct OffsetTracker {
    offsets: StringMap<OffsetState>,
    config: OffsetTrackerConfig,
}

fn find_first_seq(buf: &Vec<WindowData>, s: u64) -> (r: Option<usize>)
    ensures
        match r {
            Some(i) => first_with_seq(buf@, i as int, s as int),
            None => !has_seq(buf@, s as int),
        },
{
    let mut i: usize = 0;
    while i < buf.len()
        invariant
            i <= buf.len(),
            forall|j: int| 0 <= j < i ==> buf@[j].sequence != s,
        decreases buf.len() - i,
    {
        if buf[i].sequence == s {
            return Some(i);
        }
        i += 1;
    }
    None
}

/// Entry `k` of `run` is the first message of `buf` with offset `committed + 1 + k`.
pub open spec fn run_entry(buf: Seq<WindowData>, committed: u64, run: Seq<WindowData>, k: int) -> bool {
    &&& run[k].sequence == committed + 1 + k
    &&& exists|i: int| first_with_seq(buf, i, committed + 1 + k) && buf[i] == run[k]
}

/// The messages released from `buf` above `committed`.
pub fn find_continuous(buf: &Vec<WindowData>, committed: u64) -> (run: Vec<WindowData>)
    requires
        forall|i: int| 0 <= i < buf@.len() ==> #[trigger] buf@[i].sequence > committed,
    ensures
        continuous_run(buf@, committed, run@),
{
    let mut run: Vec<WindowData> = Vec::new();
    if !(committed < u64::MAX) {
        assert(!has_seq(buf@, committed + 1)) by {
            if has_seq(buf@, committed + 1) {
                let i = choose|i: int| 0 <= i < buf@.len() && buf@[i].sequence == committed + 1;
                assert(buf@[i].sequence <= u64::MAX);
            }
        }
        return run;
    }
    let mut expected: u64 = committed + 1;
    loop
        invariant_except_break
            expected == committed + 1 + run@.len(),
        invariant
            committed < u64::MAX,
            forall|i: int| 0 <= i < buf@.len() ==> #[trigger] buf@[i].sequence > committed,
            forall|k: int| 0 <= k < run@.len() ==> #[trigger] run_entry(buf@, committed, run@, k),
        ensures
            forall|k: int| 0 <= k < run@.len() ==> #[trigger] run_entry(buf@, committed, run@, k),
            !has_seq(buf@, committed + 1 + run@.len()),
        decreases u64::MAX - expected,
    {
        match find_first_seq(buf, expected) {
            None => {
                break;
            },
            Some(i) => {
                let ghost old_run = run@;
                let item = buf[i].duplicate();
                run.push(item);
                proof {
                    assert forall|k: int| 0 <= k < run@.len() implies #[trigger] run_entry(
                        buf@,
                        committed,
                        run@,
                        k,
                    ) by {
                        if k == run@.len() - 1 {
                            assert(first_with_seq(buf@, i as int, committed + 1 + k));
                            assert(run@[k] == buf@[i as int]);
                        } else {
                            assert(run_entry(buf@, committed, old_run, k));
                            assert(run@[k] == old_run[k]);
                        }
                    }
                }
                if expected == u64::MAX {
                    assert(!has_seq(buf@, committed + 1 + run@.len())) by {
                        if has_seq(buf@, committed + 1 + run@.len()) {
                            let j = choose|j: int|
                                0 <= j < buf@.len() && buf@[j].sequence == committed + 1 + run@.len();
                            assert(buf@[j].sequence <= u64::MAX);
                        }
                    }
                    break;
                }
                expected = expected + 1;
            },
        }
    }
    assert forall|k: int| 0 <= k < run@.len() implies #[trigger] run@[k].sequence == committed + 1 + k
        && exists|i: int| first_with_seq(buf@, i, committed + 1 + k) && buf@[i] == run@[k] by {
        assert(run_entry(buf@, committed, run@, k));
    }
    run
}

/// The messages of `buf` whose offset is above `limit`, in order.
fn keep_after(buf: &Vec<WindowData>, limit: u64) -> (r: Vec<WindowData>)
    ensures
        r@ == buf@.filter(|d: WindowData| d.sequence > limit),
{
    let ghost p = |d: WindowData| d.sequence > limit;
    let mut r: Vec<WindowData> = Vec::new();
    let mut i: usize = 0;
    proof {
        reveal_with_fuel(Seq::filter, 1);
        assert(buf@.subrange(0, 0).filter(p) =~= Seq::<WindowData>::empty());
    }
    while i < buf.len()
        invariant
            i <= buf.len(),
            p == (|d: WindowData| d.sequence > limit),
            r@ == buf@.subrange(0, i as int).filter(p),
        decreases buf.len() - i,
    {
        let ghost prev = buf@.subrange(0, i as int);
        proof {
            assert(buf@.subrange(0, i + 1) =~= prev.push(buf@[i as int]));
            prev.lemma_filter_push(buf@[i as int], p);
        }
        if buf[i].sequence > limit {
            r.push(buf[i].duplicate());
        }
        i += 1;
    }
    assert(buf@.subrange(0, buf@.len() as int) =~= buf@);
    r
}

/// The offsets of `v` that are above `limit`, each once.
fn offsets_after(v: &Vec<u64>, limit: u64) -> (r: Vec<u64>)
    requires
        v@.no_duplicates(),
    ensures
        r@.no_duplicates(),
        forall|x: u64| #[trigger] r@.contains(x) <==> v@.contains(x) && x > limit,
{
    let mut r: Vec<u64> = Vec::new();
    let mut i: usize = 0;
    while i < v.len()
        invariant
            i <= v.len(),
            v@.no_duplicates(),
            r@.no_duplicates(),
            forall|x: u64| #[trigger]
                r@.contains(x) <==> v@.subrange(0, i as int).contains(x) && x > limit,
        decreases v.len() - i,
    {
        let x = v[i];
        let ghost old_r = r@;
        proof {
            assert forall|y: u64| #[trigger] v@.subrange(0, i + 1).contains(y) <==> v@.subrange(
                0,
                i as int,
            ).contains(y) || y == x by {
                if v@.subrange(0, i + 1).contains(y) && y != x {
                    let vs = v@.subrange(0, i + 1);
                    let j = choose|j: int| 0 <= j < vs.len() && vs[j] == y;
                    assert(v@.subrange(0, i as int)[j] == y);
                }
                if v@.subrange(0, i as int).contains(y) {
                    let vs = v@.subrange(0, i as int);
                    let j = choose|j: int| 0 <= j < vs.len() && vs[j] == y;
                    assert(v@.subrange(0, i + 1)[j] == y);
                }
                if y == x {
                    assert(v@.subrange(0, i + 1)[i as int] == y);
                }
            }
        }
        if x > limit {
            proof {
                if old_r.contains(x) {
                    let vs = v@.subrange(0, i as int);
                    let j = choose|j: int| 0 <= j < vs.len() && vs[j] == x;
                    assert(v@[j] == v@[i as int]);
                }
            }
            r.push(x);
            proof {
                assert forall|y: u64| #[trigger] r@.contains(y) <==> old_r.contains(y) || y == x by {
                    if r@.contains(y) && y != x {
                        let k = choose|k: int| 0 <= k < r@.len() && r@[k] == y;
                        assert(old_r[k] == y);
                    }
                    if old_r.contains(y) {
                        let k = choose|k: int| 0 <= k < old_r.len() && old_r[k] == y;
                        assert(r@[k] == y);
                    }
                    if y == x {
                        assert(r@[old_r.len() as int] == y);
                    }
                }
                assert forall|a: int, b: int| 0 <= a < r@.len() && 0 <= b < r@.len() && a != b
                    implies r@[a] != r@[b] by {
                    if a == old_r.len() as int {
                        assert(old_r.contains(r@[b]));
                    } else if b == old_r.len() as int {
                        assert(old_r.contains(r@[a]));
                    }
                }
            }
        }
        i += 1;
    }
    assert(v@.subrange(0, v@.len() as int) =~= v@);
    r
}

fn contains_offset(v: &Vec<u64>, x: u64) -> (b: bool)
    ensures
        b == v@.contains(x),
{
    let mut i: usize = 0;
    while i < v.len()
        invariant
            i <= v.len(),
            forall|j: int| 0 <= j < i ==> v@[j] != x,
        decreases v.len() - i,
    {
        if v[i] == x {
            assert(v@[i as int] == x);
            return true;
        }
        i += 1;
    }
    false
}

/// What receiving a message does to the tracker: the point is registered,
/// committed offsets never move back, the released messages lie between the old and
/// the new committed offset of the point, other points are untouched, and the
/// point's state follows the message: an already committed offset changes nothing
/// (an unseen point starts fresh), any other joins the buffer, from which the
/// contiguous run is released and committed.
pub open spec fn receive_effect(
    before: OffsetTracker,
    after: OffsetTracker,
    id: Seq<char>,
    sequence: u64,
    timestamp: u64,
    data: serde_json::Value,
    now_ms: u64,
    run: Seq<WindowData>,
) -> bool {
    &&& (after.configuration() == before.configuration())
    &&& (after.states().dom() =~= before.states().dom().insert(id))
    &&& (forall|k: Seq<char>| #[trigger] after.committed_of(k) >= before.committed_of(k))
    &&& (forall|k: int|
            0 <= k < run.len() ==> before.committed_of(id) < #[trigger] run[k].sequence
                <= after.committed_of(id))
    &&& (forall|k: Seq<char>|
            k != id && #[trigger] before.states().dom().contains(k) ==> after.states()[k]
                == before.states()[k])
    &&& (({
            let known = before.states().dom().contains(id);
            let c0 = before.committed_of(id);
            let buf0 = if known {
                before.states()[id].window_buffer@
            } else {
                Seq::<WindowData>::empty()
            };
            let st = after.states()[id];
            if sequence <= c0 {
                &&& run.len() == 0
                &&& known ==> st == before.states()[id]
                &&& !known ==> is_fresh(st, now_ms)
            } else {
                let buf = buf0.push(WindowData { sequence, timestamp, data });
                &&& continuous_run(buf, c0, run)
                &&& st.committed_offset == c0 + run.len()
                &&& st.window_buffer@ =~= buf.filter(
                    |d: WindowData| d.sequence > st.committed_offset,
                )
                &&& st.last_updated_ms == now_ms
            }
        }))
}

impl OffsetTracker {
    /// Every point's state is consistent.
    pub closed spec fn wf(&self) -> bool {
        &&& self.offsets.wf()
        &&& forall|k: Seq<char>| #[trigger]
            self.offsets@.dom().contains(k) ==> state_ok(self.offsets@[k])
    }

    /// The state of each measurement point seen so far.
    pub closed spec fn states(&self) -> Map<Seq<char>, OffsetState> {
        self.offsets@
    }

    /// The state of every point of a consistent tracker is consistent.
    pub proof fn lemma_states_ok(&self)
        requires
            self.wf(),
        ensures
            forall|k: Seq<char>| #[trigger] self.states().dom().contains(k) ==> state_ok(self.states()[k]),
    {
    }

    /// The configuration the tracker was made with.
    pub closed spec fn configuration(&self) -> OffsetTrackerConfig {
        self.config
    }

    /// The committed offset of a point; 0 for a point not seen yet.
    pub open spec fn committed_of(&self, id: Seq<char>) -> u64 {
        if self.states().dom().contains(id) {
            self.states()[id].committed_offset
        } else {
            0
        }
    }

    pub fn new(config: OffsetTrackerConfig) -> (t: OffsetTracker)
        ensures
            t.wf(),
            t.states() == Map::<Seq<char>, OffsetState>::empty(),
            t.configuration() == config,
    {
        OffsetTracker { offsets: StringMap::new(), config }
    }

    /// Accepts a message of point `id` and returns the messages that became
    /// contiguous, in offset order.  A message whose offset is already committed is
    /// ignored (an unseen point is still registered).
    pub fn receive_message(
        &mut self,
        id: &str,
        sequence: u64,
        timestamp: u64,
        data: serde_json::Value,
        now_ms: u64,
    ) -> (run: Vec<WindowData>)
        requires
            old(self).wf(),
        ensures
            final(self).wf(),
            receive_effect(*old(self), *final(self), id@, sequence, timestamp, data, now_ms, run@),
    {
        let ghost old_map = self.offsets@;
        proof {
            self.offsets.lemma_enumeration();
        }
        let key = String::from_str(id);
        let mut st = match self.offsets.take(id) {
            Some(s) => s,
            None => OffsetState {
                committed_offset: 0,
                received_offsets: Vec::new(),
                window_buffer: Vec::new(),
                last_updated_ms: now_ms,
            },
        };
        let ghost before = st;
        proof {
            if !old_map.dom().contains(id@) {
                assert(st.received_offsets@ =~= Seq::<u64>::empty());
                assert(st.window_buffer@ =~= Seq::<WindowData>::empty());
                assert(is_fresh(st, now_ms));
            }
            assert(state_ok(st));
        }
        if sequence <= st.committed_offset {
            self.offsets.insert(key, st);
            proof {
                assert(self.offsets@ =~= old_map.insert(id@, before));
            }
            return Vec::new();
        }
        let ghost c = st.committed_offset;
        if !contains_offset(&st.received_offsets, sequence) {
            st.received_offsets.push(sequence);
        }
        st.window_buffer.push(WindowData { sequence, timestamp, data });
        st.last_updated_ms = now_ms;
        let ghost buf = st.window_buffer@;
        proof {
            assert(buf =~= before.window_buffer@.push(WindowData { sequence, timestamp, data }));
            assert(st.received_offsets@.no_duplicates()) by {
                if !before.received_offsets@.contains(sequence) {
                    assert forall|a: int, b: int|
                        0 <= a < st.received_offsets@.len() && 0 <= b < st.received_offsets@.len()
                            && a != b implies st.received_offsets@[a] != st.received_offsets@[b] by {
                        let n = before.received_offsets@.len() as int;
                        if a == n {
                            assert(before.received_offsets@.contains(st.received_offsets@[b]));
                        } else if b == n {
                            assert(before.received_offsets@.contains(st.received_offsets@[a]));
                        }
                    }
                }
            }
            assert forall|x: u64| #[trigger]
                st.received_offsets@.contains(x) <==> has_seq(buf, x as int) by {
                let n = before.window_buffer@.len() as int;
                if has_seq(buf, x as int) {
                    let i = choose|i: int| 0 <= i < buf.len() && buf[i].sequence == x as int;
                    if i < n {
                        assert(has_seq(before.window_buffer@, x as int));
                        assert(before.received_offsets@.contains(x));
                        let j = choose|j: int|
                            0 <= j < before.received_offsets@.len() && before.received_offsets@[j] == x;
                        assert(st.received_offsets@[j] == x);
                    } else {
                        assert(x == sequence);
                        if !before.received_offsets@.contains(sequence) {
                            assert(st.received_offsets@[st.received_offsets@.len() - 1] == x);
                        }
                    }
                }
                if st.received_offsets@.contains(x) {
                    if x == sequence {
                        assert(buf[n].sequence == x);
                    } else {
                        let j = choose|j: int|
                            0 <= j < st.received_offsets@.len() && st.received_offsets@[j] == x;
                        assert(before.received_offsets@.contains(x)) by {
                            if !before.received_offsets@.contains(sequence) {
                                assert(j < before.received_offsets@.len());
                            }
                            assert(before.received_offsets@[j] == x);
                        }
                        assert(has_seq(before.window_buffer@, x as int));
                        let i = choose|i: int|
                            0 <= i < before.window_buffer@.len() && before.window_buffer@[i].sequence
                                == x;
                        assert(buf[i].sequence == x);
                    }
                }
            }
        }
        let run = find_continuous(&st.window_buffer, st.committed_offset);
        if run.len() > 0 {
            let top = run[run.len() - 1].sequence;
            st.committed_offset = top;
            st.received_offsets = offsets_after(&st.received_offsets, top);
            st.window_buffer = keep_after(&st.window_buffer, top);
        } else {
            proof {
                let q = |d: WindowData| d.sequence > c;
                assert forall|i: int| 0 <= i < buf.len() implies q(#[trigger] buf[i]) by {}
                lemma_filter_keeps_all(buf, q);
            }
        }
        proof {
            let after = st;
            assert(after.committed_offset == c + run@.len());
            let p = |d: WindowData| d.sequence > after.committed_offset;
            assert(after.window_buffer@ == buf.filter(p));
            assert forall|i: int| 0 <= i < after.window_buffer@.len() implies #[trigger]
                after.window_buffer@[i].sequence > after.committed_offset by {
                assert(p(buf.filter(p)[i]));
            }
            assert(!has_seq(after.window_buffer@, after.committed_offset + 1)) by {
                assert(!has_seq(buf, c + 1 + run@.len()));
                if has_seq(after.window_buffer@, after.committed_offset + 1) {
                    let i = choose|i: int|
                        0 <= i < after.window_buffer@.len() && after.window_buffer@[i].sequence
                            == after.committed_offset + 1;
                    assert(buf.filter(p).contains(after.window_buffer@[i]));
                    buf.lemma_filter_contains_rev(p, after.window_buffer@[i]);
                    let j = choose|j: int| 0 <= j < buf.len() && buf[j] == after.window_buffer@[i];
                    assert(buf[j].sequence == c + 1 + run@.len());
                }
            }
            assert forall|x: u64| #[trigger]
                after.received_offsets@.contains(x) <==> has_seq(after.window_buffer@, x as int) by {
                if run@.len() > 0 {
                    if has_seq(after.window_buffer@, x as int) {
                        let i = choose|i: int|
                            0 <= i < after.window_buffer@.len() && after.window_buffer@[i].sequence
                                == x;
                        assert(buf.filter(p).contains(after.window_buffer@[i]));
                        buf.lemma_filter_contains_rev(p, after.window_buffer@[i]);
                        let j = choose|j: int| 0 <= j < buf.len() && buf[j] == after.window_buffer@[i];
                        assert(has_seq(buf, x as int));
                        assert(p(after.window_buffer@[i]));
                    }
                    if after.received_offsets@.contains(x) {
                        assert(has_seq(buf, x as int));
                        let j = choose|j: int| 0 <= j < buf.len() && buf[j].sequence == x;
                        assert(p(buf[j]));
                        assert(buf.filter(p).contains(buf[j]));
                        let i = choose|i: int|
                            0 <= i < buf.filter(p).len() && buf.filter(p)[i] == buf[j];
                        assert(after.window_buffer@[i].sequence == x);
                    }
                }
            }
            assert(state_ok(after));
        }
        self.offsets.insert(key, st);
        proof {
            assert forall|k: Seq<char>| #[trigger] self.offsets@.dom().contains(k) implies state_ok(
                self.offsets@[k],
            ) by {
                if k != id@ {
                    assert(old_map.dom().contains(k));
                }
            }
        }
        run
    }

    /// The committed offset of point `id` (0 if unknown).
    pub fn get_committed_offset(&self, id: &str) -> (c: u64)
        requires
            self.wf(),
        ensures
            c == self.committed_of(id@),
    {
        match self.offsets.get(id) {
            Some(st) => st.committed_offset,
            None => 0,
        }
    }

    /// Number of messages of point `id` waiting for a gap to close (0 if unknown).
    pub fn get_waiting_count(&self, id: &str) -> (n: usize)
        requires
            self.wf(),
        ensures
            n == (if self.states().dom().contains(id@) {
                self.states()[id@].window_buffer@.len() as int
            } else {
                0
            }),
    {
        match self.offsets.get(id) {
            Some(st) => st.window_buffer.len(),
            None => 0,
        }
    }

    /// Monitoring summary of point `id`, if it has been seen.
    pub fn get_offset_state(&self, id: &str) -> (r: Option<OffsetStateInfo>)
        requires
            self.wf(),
        ensures
            match r {
                Some(info) => self.states().dom().contains(id@) && ({
                    let st = self.states()[id@];
                    &&& info.committed_offset == st.committed_offset
                    &&& info.waiting_count == st.window_buffer@.len()
                    &&& info.received_offsets_count == st.received_offsets@.len()
                    &&& info.last_updated_ms == st.last_updated_ms
                }),
                None => !self.states().dom().contains(id@),
            },
    {
        match self.offsets.get(id) {
            Some(st) => Some(
                OffsetStateInfo {
                    committed_offset: st.committed_offset,
                    waiting_count: st.window_buffer.len(),
                    received_offsets_count: st.received_offsets.len(),
                    last_updated_ms: st.last_updated_ms,
                },
            ),
            None => None,
        }
    }

    /// The measurement points seen, each once.
    pub fn get_measurement_point_ids(&self) -> (v: Vec<String>)
        requires
            self.wf(),
        ensures
            chars_of(v@).to_set() == self.states().dom(),
            chars_of(v@).no_duplicates(),
    {
        proof {
            self.offsets.lemma_enumeration();
        }
        self.offsets.keys()
    }

    /// Forgets the points that were not updated within the time-out, as seen at
    /// `now_ms`, and hold no waiting messages.
    pub fn cleanup_expired_states(&mut self, now_ms: u64)
        requires
            old(self).wf(),
        ensures
            final(self).wf(),
            final(self).configuration() == old(self).configuration(),
            final(self).states() == old(self).states().restrict(
                old(self).states().dom().filter(
                    |k: Seq<char>| kept_state(old(self).states()[k], old(self).configuration().offset_timeout_ms, now_ms),
                ),
            ),
    {
        let ghost before = self.offsets@;
        let timeout = self.config.offset_timeout_ms;
        let keys = self.offsets.keys();
        proof {
            self.offsets.lemma_enumeration();
        }
        let mut i: usize = 0;
        while i < keys.len()
            invariant
                self.wf(),
                self.config == old(self).config,
                timeout == self.config.offset_timeout_ms,
                before == old(self).offsets@,
                chars_of(keys@) == old(self).offsets.key_seq(),
                before.dom() == old(self).offsets.key_seq().to_set(),
                i <= keys.len(),
                self.offsets@ == before.restrict(
                    before.dom().filter(
                        |k: Seq<char>| !(!kept_state(before[k], timeout, now_ms) && chars_of(keys@).take(i as int).contains(k)),
                    ),
                ),
            decreases keys.len() - i,
        {
            let ghost prev = self.offsets@;
            let key = &keys[i];
            proof {
                assert(chars_of(keys@)[i as int] == key@);
                assert(old(self).offsets.key_seq().contains(key@));
            }
            let drop = match self.offsets.get(key.as_str()) {
                Some(st) => elapsed_between(now_ms, st.last_updated_ms) >= timeout && st.window_buffer.len() == 0,
                None => false,
            };
            if drop {
                let _ = self.offsets.take(key.as_str());
            }
            proof {
                let t0 = chars_of(keys@).take(i as int);
                let t1 = chars_of(keys@).take(i as int + 1);
                assert(t1 =~= t0.push(key@));
                assert(prev.contains_key(key@) ==> prev[key@] == before[key@]);
                assert(self.offsets@ =~= before.restrict(
                    before.dom().filter(
                        |k: Seq<char>| !(!kept_state(before[k], timeout, now_ms) && t1.contains(k)),
                    ),
                )) by {
                    assert forall|k: Seq<char>| t1.contains(k) <==> (t0.contains(k) || k == key@) by {
                        if t1.contains(k) {
                            let x = choose|x: int| 0 <= x < t1.len() && t1[x] == k;
                            if x < t0.len() {
                                assert(t0[x] == k);
                            }
                        }
                        if t0.contains(k) {
                            let x = choose|x: int| 0 <= x < t0.len() && t0[x] == k;
                            assert(t1[x] == k);
                        }
                        if k == key@ {
                            assert(t1[i as int] == k);
                        }
                    }
                }
            }
            i += 1;
        }
        proof {
            let ks = chars_of(keys@);
            assert(ks.take(keys@.len() as int) =~= ks);
            assert(self.offsets@ =~= before.restrict(
                before.dom().filter(|k: Seq<char>| kept_state(before[k], timeout, now_ms)),
            )) by {
                assert forall|k: Seq<char>| before.contains_key(k) implies ks.contains(k) by {
                    assert(before.dom().contains(k));
                }
            }
        }
    }

    /// Number of measurement points seen.
    pub fn get_active_count(&self) -> (n: usize)
        requires
            self.wf(),
        ensures
            n == self.states().dom().len(),
    {
        self.offsets.len()
    }
}

proof fn lemma_filter_keeps_all<A>(s: Seq<A>, p: spec_fn(A) -> bool)
    requires
        forall|i: int| 0 <= i < s.len() ==> p(#[trigger] s[i]),
    ensures
        s.filter(p) == s,
    decreases s.len(),
{
    reveal_with_fuel(Seq::filter, 1);
    if s.len() > 0 {
        lemma_filter_keeps_all(s.drop_last(), p);
        assert(s.drop_last().push(s.last()) =~= s);
    } else {
        assert(s.filter(p) =~= s);
    }
}

/// The messages of a point are handed on in order and never twice: over two
/// successive receptions, every sequence number released by the first comes
/// before every one released by the second, and each release counts up by one.
pub proof fn lemma_releases_in_order(
    t0: OffsetTracker,
    t1: OffsetTracker,
    t2: OffsetTracker,
    id: Seq<char>,
    first: (u64, u64, serde_json::Value, u64),
    run1: Seq<WindowData>,
    second: (u64, u64, serde_json::Value, u64),
    run2: Seq<WindowData>,
)
    requires
        receive_effect(t0, t1, id, first.0, first.1, first.2, first.3, run1),
        receive_effect(t1, t2, id, second.0, second.1, second.2, second.3, run2),
    ensures
        forall|i: int, j: int|
            0 <= i < run1.len() && 0 <= j < run2.len() ==> #[trigger] run1[i].sequence < #[trigger] run2[j].sequence,
        forall|k: int| 0 < k < run1.len() ==> #[trigger] run1[k].sequence == run1[k - 1].sequence + 1,
        forall|k: int| 0 < k < run2.len() ==> #[trigger] run2[k].sequence == run2[k - 1].sequence + 1,
{
    assert forall|k: int| 0 < k < run1.len() implies #[trigger] run1[k].sequence == run1[k - 1].sequence + 1 by {
        if first.0 > t0.committed_of(id) {
            let known = t0.states().dom().contains(id);
            let buf0 = if known { t0.states()[id].window_buffer@ } else { Seq::<WindowData>::empty() };
            let buf = buf0.push(WindowData { sequence: first.0, timestamp: first.1, data: first.2 });
            assert(continuous_run(buf, t0.committed_of(id), run1));
            assert(run1[k].sequence == t0.committed_of(id) + 1 + k);
            assert(run1[k - 1].sequence == t0.committed_of(id) + 1 + (k - 1));
        }
    }
    assert forall|k: int| 0 < k < run2.len() implies #[trigger] run2[k].sequence == run2[k - 1].sequence + 1 by {
        if second.0 > t1.committed_of(id) {
            let known = t1.states().dom().contains(id);
            let buf0 = if known { t1.states()[id].window_buffer@ } else { Seq::<WindowData>::empty() };
            let buf = buf0.push(WindowData { sequence: second.0, timestamp: second.1, data: second.2 });
            assert(continuous_run(buf, t1.committed_of(id), run2));
            assert(run2[k].sequence == t1.committed_of(id) + 1 + k);
            assert(run2[k - 1].sequence == t1.committed_of(id) + 1 + (k - 1));
        }
    }
}

/// A reception releases messages only when it brings the next offset of its point:
/// the released offsets are the committed offset plus 1, 2, ... in order, the
/// first being the one just received; the committed offset moves up by the number
/// released; an offset already committed releases nothing and leaves a known
/// point's state as it was.
pub proof fn lemma_release_follows_commit(
    t0: OffsetTracker,
    t1: OffsetTracker,
    id: Seq<char>,
    sequence: u64,
    timestamp: u64,
    data: serde_json::Value,
    now_ms: u64,
    run: Seq<WindowData>,
)
    requires
        t0.wf(),
        receive_effect(t0, t1, id, sequence, timestamp, data, now_ms, run),
    ensures
        t1.committed_of(id) == t0.committed_of(id) + run.len(),
        forall|k: int| 0 <= k < run.len() ==> #[trigger] run[k].sequence == t0.committed_of(id) + 1 + k,
        run.len() > 0 ==> sequence == t0.committed_of(id) + 1 && run[0].sequence == sequence,
        sequence <= t0.committed_of(id) ==> run.len() == 0 && (t0.states().dom().contains(id) ==> t1.states()[id]
            == t0.states()[id]),
{
    t0.lemma_states_ok();
    let c0 = t0.committed_of(id);
    assert(t1.states().dom().contains(id));
    if sequence > c0 {
        let known = t0.states().dom().contains(id);
        let buf0 = if known { t0.states()[id].window_buffer@ } else { Seq::<WindowData>::empty() };
        let buf = buf0.push(WindowData { sequence, timestamp, data });
        assert(continuous_run(buf, c0, run));
        assert forall|k: int| 0 <= k < run.len() implies #[trigger] run[k].sequence == c0 + 1 + k by {}
        if run.len() > 0 {
            assert(run[0].sequence == c0 + 1);
            let i = choose|i: int| first_with_seq(buf, i, c0 + 1) && buf[i] == run[0];
            if i < buf0.len() {
                assert(buf0[i].sequence == c0 + 1);
                assert(has_seq(buf0, c0 + 1));
                assert(known);
            }
            assert(i == buf0.len());
        }
    }
}

} // verus!
