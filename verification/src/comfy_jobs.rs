//! The status of ComfyUI jobs as the server's websocket reports it: queued,
//! running (with progress), finished; and which finished jobs are kept.
//! Progress is the bit pattern of an `f32`; times are milliseconds.

use vstd::prelude::*;
use crate::keyed_map::KeyedMap;
use crate::text::{chars_eq, chars_of};

verus! {

/// Where a job stands.
#[derive(Clone, Copy, Debug, PartialEq, Eq, Structural)]
pub enum ComfyJobStatus {
    Queued,
    Running,
    Completed,
    Failed,
}

/// A job's status, its progress (`f32` bits, from 0 to 1) and when it last
/// changed.
#[derive(Clone, Copy, Debug, PartialEq, Eq, Structural)]
pub struct ComfyJobInfo {
    pub status: ComfyJobStatus,
    pub progress_bits: u32,
    pub updated_at_ms: u64,
}

impl View for ComfyJobInfo {
    type V = ComfyJobInfo;

    open spec fn view(&self) -> ComfyJobInfo {
        *self
    }
}

/// What the websocket reports, with a job's progress already worked out
/// (the share of its steps done, from 0 to 1, as `f32` bits).
#[derive(Debug)]
pub enum ComfyWsEvent {
    Queue { pending: Vec<String>, running: Vec<String> },
    Progress { prompt_id: String, progress_bits: u32 },
    ExecutionStart { prompt_id: String },
    ExecutionEnd { prompt_id: String },
}

/// The jobs the editor knows of, by prompt id.
#[derive(Debug)]
pub struct ComfyJobTable {
    pub jobs: KeyedMap<ComfyJobInfo>,
}

/// `0.01f32`.
pub const ONE_PERCENT_BITS: u32 = 0x3c23_d70a;

/// `1.0f32`.
pub const FULL_PROGRESS_BITS: u32 = 0x3f80_0000;

/// How long a finished job stays listed.
pub const FINISHED_JOB_KEEP_MS: u64 = 30_000;

/// `progress < 0.01` on `f32` bits: not a NaN, and negative (any sign bit)
/// or below 0.01; non-negative floats order as their bit patterns.
pub open spec fn below_one_percent(b: u32) -> bool {
    b % 0x8000_0000 <= 0x7f80_0000 && (b >= 0x8000_0000 || b < ONE_PERCENT_BITS)
}

/// The list holds the id `k`.
pub open spec fn listed(l: Seq<String>, k: Seq<char>) -> bool {
    exists|i: int| 0 <= i < l.len() && #[trigger] l[i]@ == k
}

/// A job's progress before an update; a new job has none.
pub open spec fn progress_of(before: Map<Seq<char>, ComfyJobInfo>, k: Seq<char>) -> u32 {
    if before.dom().contains(k) {
        before[k].progress_bits
    } else {
        0
    }
}

/// A job after a queue report: running if the server runs it (with at
/// least 1% progress), queued if it waits, done (at full progress) if it
/// was queued or running and is neither now; any other job stays.
pub open spec fn after_queue_entry(
    before: Map<Seq<char>, ComfyJobInfo>,
    pending: Seq<String>,
    running: Seq<String>,
    now: u64,
    k: Seq<char>,
) -> ComfyJobInfo {
    let p = progress_of(before, k);
    if listed(running, k) {
        ComfyJobInfo {
            status: ComfyJobStatus::Running,
            progress_bits: if below_one_percent(p) {
                ONE_PERCENT_BITS
            } else {
                p
            },
            updated_at_ms: now,
        }
    } else if listed(pending, k) {
        ComfyJobInfo { status: ComfyJobStatus::Queued, progress_bits: p, updated_at_ms: now }
    } else if before[k].status == ComfyJobStatus::Queued || before[k].status == ComfyJobStatus::Running {
        ComfyJobInfo { status: ComfyJobStatus::Completed, progress_bits: FULL_PROGRESS_BITS, updated_at_ms: now }
    } else {
        before[k]
    }
}

/// The jobs after a queue report: those known and those reported.
pub open spec fn after_queue(before: Map<Seq<char>, ComfyJobInfo>, pending: Seq<String>, running: Seq<String>, now: u64) -> Map<
    Seq<char>,
    ComfyJobInfo,
> {
    Map::new(
        |k: Seq<char>| before.dom().contains(k) || listed(pending, k) || listed(running, k),
        |k: Seq<char>| after_queue_entry(before, pending, running, now, k),
    )
}

/// The jobs after an event at time `now`.
pub open spec fn after_event(before: Map<Seq<char>, ComfyJobInfo>, event: ComfyWsEvent, now: u64) -> Map<Seq<char>, ComfyJobInfo> {
    match event {
        ComfyWsEvent::Queue { pending, running } => after_queue(before, pending@, running@, now),
        ComfyWsEvent::Progress { prompt_id, progress_bits } => before.insert(
            prompt_id@,
            ComfyJobInfo { status: ComfyJobStatus::Running, progress_bits, updated_at_ms: now },
        ),
        ComfyWsEvent::ExecutionStart { prompt_id } => before.insert(
            prompt_id@,
            ComfyJobInfo { status: ComfyJobStatus::Running, progress_bits: progress_of(before, prompt_id@), updated_at_ms: now },
        ),
        ComfyWsEvent::ExecutionEnd { prompt_id } => before.insert(
            prompt_id@,
            ComfyJobInfo { status: ComfyJobStatus::Completed, progress_bits: FULL_PROGRESS_BITS, updated_at_ms: now },
        ),
    }
}

/// A job stays listed at time `now`: it is not finished, or it finished
/// less than `FINISHED_JOB_KEEP_MS` ago.
pub open spec fn keeps_job(info: ComfyJobInfo, now: u64) -> bool {
    !(info.status == ComfyJobStatus::Completed || info.status == ComfyJobStatus::Failed) || now < info.updated_at_ms
        + FINISHED_JOB_KEEP_MS
}

/// `progress < 0.01` on bits; see `below_one_percent`.
fn below_one_percent_exec(b: u32) -> (r: bool)
    ensures
        r == below_one_percent(b),
{
    b % 0x8000_0000 <= 0x7f80_0000 && (b >= 0x8000_0000 || b < ONE_PERCENT_BITS)
}

/// Whether the list holds `k`.
fn is_listed(l: &Vec<String>, k: &String) -> (r: bool)
    ensures
        r == listed(l@, k@),
{
    let kc = chars_of(k.as_str());
    let mut i: usize = 0;
    while i < l.len()
        invariant
            kc@ == k@,
            i <= l@.len(),
            forall|j: int| 0 <= j < i ==> l@[j]@ != k@,
        decreases l@.len() - i,
    {
        if chars_eq(chars_of(l[i].as_str()).as_slice(), kc.as_slice()) {
            assert(l@[i as int]@ == k@);
            return true;
        }
        i = i + 1;
    }
    false
}

/// The keys of a table, in order.
fn table_keys(m: &KeyedMap<ComfyJobInfo>) -> (r: Vec<String>)
    ensures
        forall|k: Seq<char>| #[trigger] m@.dom().contains(k) <==> listed(r@, k),
{
    let n = m.len();
    let mut out: Vec<String> = Vec::new();
    let mut i: usize = 0;
    while i < n
        invariant
            n == m.members().len(),
            i <= n,
            out@.len() == i,
            forall|j: int| 0 <= j < i ==> #[trigger] out@[j]@ == m.members()[j].0@,
            forall|k: Seq<char>| #[trigger] m@.dom().contains(k) <==> exists|j: int| 0 <= j < m.members().len() && m.members()[j].0@ == k,
        decreases n - i,
    {
        let (k, _) = m.member_at(i);
        out.push(k.clone());
        i = i + 1;
    }
    proof {
        assert forall|k: Seq<char>| #[trigger] m@.dom().contains(k) implies listed(out@, k) by {
            let j = choose|j: int| 0 <= j < m.members().len() && m.members()[j].0@ == k;
            assert(out@[j]@ == k);
        }
        assert forall|k: Seq<char>| listed(out@, k) implies #[trigger] m@.dom().contains(k) by {
            let j = choose|j: int| 0 <= j < out@.len() && out@[j]@ == k;
            assert(m.members()[j].0@ == k);
        }
    }
    out
}

impl ComfyJobTable {
    /// A table without jobs.
    pub fn new() -> (r: Self)
        ensures
            r.jobs@ == Map::<Seq<char>, ComfyJobInfo>::empty(),
    {
        ComfyJobTable { jobs: KeyedMap::new() }
    }

    /// A queue report at time `now`; see `after_queue`.
    pub fn apply_queue(&mut self, pending: &Vec<String>, running: &Vec<String>, now_ms: u64)
        ensures
            final(self).jobs@ == after_queue(old(self).jobs@, pending@, running@, now_ms),
    {
        let ghost before = self.jobs@;
        let mut i: usize = 0;
        while i < pending.len()
            invariant
                i <= pending@.len(),
                self.jobs@ == Map::new(
                    |k: Seq<char>| before.dom().contains(k) || listed(pending@.subrange(0, i as int), k),
                    |k: Seq<char>| if listed(pending@.subrange(0, i as int), k) {
                        ComfyJobInfo { status: ComfyJobStatus::Queued, progress_bits: progress_of(before, k), updated_at_ms: now_ms }
                    } else {
                        before[k]
                    },
                ),
            decreases pending@.len() - i,
        {
            let pid = &pending[i];
            let p = match self.jobs.get(pid.as_str()) {
                Some(info) => info.progress_bits,
                None => 0,
            };
            let ghost prev = self.jobs@;
            self.jobs.insert(pid.clone(), ComfyJobInfo { status: ComfyJobStatus::Queued, progress_bits: p, updated_at_ms: now_ms });
            proof {
                let pre = pending@.subrange(0, i as int);
                let nxt = pending@.subrange(0, i + 1);
                assert forall|k: Seq<char>| listed(nxt, k) <==> (listed(pre, k) || k == pid@) by {
                    if listed(nxt, k) {
                        let j = choose|j: int| 0 <= j < nxt.len() && nxt[j]@ == k;
                        if j < i {
                            assert(pre[j] == nxt[j]);
                        }
                    }
                    if listed(pre, k) {
                        let j = choose|j: int| 0 <= j < pre.len() && pre[j]@ == k;
                        assert(nxt[j] == pre[j]);
                    }
                    if k == pid@ {
                        assert(nxt[i as int]@ == k);
                    }
                }
                assert(listed(pre, pid@) ==> prev[pid@].progress_bits == progress_of(before, pid@));
                assert(self.jobs@ =~= Map::new(
                    |k: Seq<char>| before.dom().contains(k) || listed(nxt, k),
                    |k: Seq<char>| if listed(nxt, k) {
                        ComfyJobInfo { status: ComfyJobStatus::Queued, progress_bits: progress_of(before, k), updated_at_ms: now_ms }
                    } else {
                        before[k]
                    },
                ));
            }
            i = i + 1;
        }
        assert(pending@.subrange(0, i as int) =~= pending@);
        let ghost mid = self.jobs@;
        let mut j: usize = 0;
        while j < running.len()
            invariant
                j <= running@.len(),
                self.jobs@ == Map::new(
                    |k: Seq<char>| mid.dom().contains(k) || listed(running@.subrange(0, j as int), k),
                    |k: Seq<char>| if listed(running@.subrange(0, j as int), k) {
                        ComfyJobInfo {
                            status: ComfyJobStatus::Running,
                            progress_bits: if below_one_percent(progress_of(mid, k)) {
                                ONE_PERCENT_BITS
                            } else {
                                progress_of(mid, k)
                            },
                            updated_at_ms: now_ms,
                        }
                    } else {
                        mid[k]
                    },
                ),
            decreases running@.len() - j,
        {
            let pid = &running[j];
            let p = match self.jobs.get(pid.as_str()) {
                Some(info) => info.progress_bits,
                None => 0,
            };
            let raised = if below_one_percent_exec(p) {
                ONE_PERCENT_BITS
            } else {
                p
            };
            let ghost prev = self.jobs@;
            self.jobs.insert(pid.clone(), ComfyJobInfo { status: ComfyJobStatus::Running, progress_bits: raised, updated_at_ms: now_ms });
            proof {
                let pre = running@.subrange(0, j as int);
                let nxt = running@.subrange(0, j + 1);
                assert forall|k: Seq<char>| listed(nxt, k) <==> (listed(pre, k) || k == pid@) by {
                    if listed(nxt, k) {
                        let t = choose|t: int| 0 <= t < nxt.len() && nxt[t]@ == k;
                        if t < j {
                            assert(pre[t] == nxt[t]);
                        }
                    }
                    if listed(pre, k) {
                        let t = choose|t: int| 0 <= t < pre.len() && pre[t]@ == k;
                        assert(nxt[t] == pre[t]);
                    }
                    if k == pid@ {
                        assert(nxt[j as int]@ == k);
                    }
                }
                assert(self.jobs@ =~= Map::new(
                    |k: Seq<char>| mid.dom().contains(k) || listed(nxt, k),
                    |k: Seq<char>| if listed(nxt, k) {
                        ComfyJobInfo {
                            status: ComfyJobStatus::Running,
                            progress_bits: if below_one_percent(progress_of(mid, k)) {
                                ONE_PERCENT_BITS
                            } else {
                                progress_of(mid, k)
                            },
                            updated_at_ms: now_ms,
                        }
                    } else {
                        mid[k]
                    },
                ));
            }
            j = j + 1;
        }
        assert(running@.subrange(0, j as int) =~= running@);
        let ghost mid2 = self.jobs@;
        let keys = table_keys(&self.jobs);
        let mut t: usize = 0;
        while t < keys.len()
            invariant
                t <= keys@.len(),
                forall|k: Seq<char>| #[trigger] mid2.dom().contains(k) <==> listed(keys@, k),
                self.jobs@.dom() == mid2.dom(),
                forall|k: Seq<char>| #[trigger] self.jobs@.dom().contains(k) ==> self.jobs@[k] == if listed(keys@.subrange(0, t as int), k)
                    && !listed(pending@, k) && !listed(running@, k) && (mid2[k].status == ComfyJobStatus::Queued || mid2[k].status
                    == ComfyJobStatus::Running) {
                    ComfyJobInfo { status: ComfyJobStatus::Completed, progress_bits: FULL_PROGRESS_BITS, updated_at_ms: now_ms }
                } else {
                    mid2[k]
                },
            decreases keys@.len() - t,
        {
            let key = &keys[t];
            let ghost prev = self.jobs@;
            assert(listed(keys@, key@)) by {
                assert(keys@[t as int]@ == key@);
            }
            let seen = is_listed(pending, key) || is_listed(running, key);
            if !seen {
                let active = match self.jobs.get(key.as_str()) {
                    Some(info) => info.status == ComfyJobStatus::Queued || info.status == ComfyJobStatus::Running,
                    None => false,
                };
                if active {
                    self.jobs.insert(
                        key.clone(),
                        ComfyJobInfo { status: ComfyJobStatus::Completed, progress_bits: FULL_PROGRESS_BITS, updated_at_ms: now_ms },
                    );
                }
            }
            proof {
                let pre = keys@.subrange(0, t as int);
                let nxt = keys@.subrange(0, t + 1);
                assert forall|k: Seq<char>| listed(nxt, k) <==> (listed(pre, k) || k == key@) by {
                    if listed(nxt, k) {
                        let w = choose|w: int| 0 <= w < nxt.len() && nxt[w]@ == k;
                        if w < t {
                            assert(pre[w] == nxt[w]);
                        }
                    }
                    if listed(pre, k) {
                        let w = choose|w: int| 0 <= w < pre.len() && pre[w]@ == k;
                        assert(nxt[w] == pre[w]);
                    }
                    if k == key@ {
                        assert(nxt[t as int]@ == k);
                    }
                }
                assert(self.jobs@.dom() =~= mid2.dom());
            }
            t = t + 1;
        }
        proof {
            assert(keys@.subrange(0, t as int) =~= keys@);
            let target = after_queue(before, pending@, running@, now_ms);
            assert forall|k: Seq<char>| #[trigger] self.jobs@.dom().contains(k) <==> target.dom().contains(k) by {
            }
            assert forall|k: Seq<char>| #[trigger] self.jobs@.dom().contains(k) implies self.jobs@[k] == target[k] by {
                if listed(running@, k) {
                } else if listed(pending@, k) {
                } else {
                    assert(mid2[k] == mid[k]);
                    assert(mid[k] == before[k]);
                }
            }
            assert(self.jobs@ =~= target);
        }
    }

    /// A job's progress at time `now`: it is running with that progress.
    pub fn apply_progress(&mut self, prompt_id: &String, progress_bits: u32, now_ms: u64)
        ensures
            final(self).jobs@ == old(self).jobs@.insert(
                prompt_id@,
                ComfyJobInfo { status: ComfyJobStatus::Running, progress_bits, updated_at_ms: now_ms },
            ),
    {
        self.jobs.insert(prompt_id.clone(), ComfyJobInfo { status: ComfyJobStatus::Running, progress_bits, updated_at_ms: now_ms });
    }

    /// A job starts running at time `now`, keeping its progress.
    pub fn apply_execution_start(&mut self, prompt_id: &String, now_ms: u64)
        ensures
            final(self).jobs@ == old(self).jobs@.insert(
                prompt_id@,
                ComfyJobInfo {
                    status: ComfyJobStatus::Running,
                    progress_bits: progress_of(old(self).jobs@, prompt_id@),
                    updated_at_ms: now_ms,
                },
            ),
    {
        let p = match self.jobs.get(prompt_id.as_str()) {
            Some(info) => info.progress_bits,
            None => 0,
        };
        self.jobs.insert(prompt_id.clone(), ComfyJobInfo { status: ComfyJobStatus::Running, progress_bits: p, updated_at_ms: now_ms });
    }

    /// A job ends at time `now`: done, at full progress.
    pub fn apply_execution_end(&mut self, prompt_id: &String, now_ms: u64)
        ensures
            final(self).jobs@ == old(self).jobs@.insert(
                prompt_id@,
                ComfyJobInfo { status: ComfyJobStatus::Completed, progress_bits: FULL_PROGRESS_BITS, updated_at_ms: now_ms },
            ),
    {
        self.jobs.insert(
            prompt_id.clone(),
            ComfyJobInfo { status: ComfyJobStatus::Completed, progress_bits: FULL_PROGRESS_BITS, updated_at_ms: now_ms },
        );
    }

    /// `handle_comfy_ws_event`, the job table's part: the jobs after an
    /// event at time `now` (see `after_event`).
    pub fn handle_comfy_ws_event(&mut self, event: &ComfyWsEvent, now_ms: u64)
        ensures
            final(self).jobs@ == after_event(old(self).jobs@, *event, now_ms),
    {
        match event {
            ComfyWsEvent::Queue { pending, running } => self.apply_queue(pending, running, now_ms),
            ComfyWsEvent::Progress { prompt_id, progress_bits } => self.apply_progress(prompt_id, *progress_bits, now_ms),
            ComfyWsEvent::ExecutionStart { prompt_id } => self.apply_execution_start(prompt_id, now_ms),
            ComfyWsEvent::ExecutionEnd { prompt_id } => self.apply_execution_end(prompt_id, now_ms),
        }
    }

    /// `prune_comfy_jobs`: finished jobs are dropped
    /// `FINISHED_JOB_KEEP_MS` after their last change; others stay.
    pub fn prune_comfy_jobs(&mut self, now_ms: u64)
        ensures
            final(self).jobs@ == old(self).jobs@.restrict(
                old(self).jobs@.dom().filter(|k: Seq<char>| keeps_job(old(self).jobs@[k], now_ms)),
            ),
    {
        let ghost before = self.jobs@;
        let keys = table_keys(&self.jobs);
        let mut t: usize = 0;
        while t < keys.len()
            invariant
                t <= keys@.len(),
                forall|k: Seq<char>| #[trigger] before.dom().contains(k) <==> listed(keys@, k),
                forall|k: Seq<char>| #[trigger] self.jobs@.dom().contains(k) <==> before.dom().contains(k) && !(listed(
                    keys@.subrange(0, t as int),
                    k,
                ) && !keeps_job(before[k], now_ms)),
                forall|k: Seq<char>| #[trigger] self.jobs@.dom().contains(k) ==> self.jobs@[k] == before[k],
            decreases keys@.len() - t,
        {
            let key = &keys[t];
            let drop = match self.jobs.get(key.as_str()) {
                Some(info) => (info.status == ComfyJobStatus::Completed || info.status == ComfyJobStatus::Failed)
                    && now_ms as u128 >= info.updated_at_ms as u128 + FINISHED_JOB_KEEP_MS as u128,
                None => false,
            };
            let ghost prev = self.jobs@;
            if drop {
                self.jobs.remove(key.as_str());
            }
            proof {
                let pre = keys@.subrange(0, t as int);
                let nxt = keys@.subrange(0, t + 1);
                assert forall|k: Seq<char>| listed(nxt, k) <==> (listed(pre, k) || k == key@) by {
                    if listed(nxt, k) {
                        let w = choose|w: int| 0 <= w < nxt.len() && nxt[w]@ == k;
                        if w < t {
                            assert(pre[w] == nxt[w]);
                        }
                    }
                    if listed(pre, k) {
                        let w = choose|w: int| 0 <= w < pre.len() && pre[w]@ == k;
                        assert(nxt[w] == pre[w]);
                    }
                    if k == key@ {
                        assert(nxt[t as int]@ == k);
                    }
                }
                assert(listed(keys@, key@)) by {
                    assert(keys@[t as int]@ == key@);
                }
            }
            t = t + 1;
        }
        proof {
            assert(keys@.subrange(0, t as int) =~= keys@);
            assert(self.jobs@ =~= before.restrict(before.dom().filter(|k: Seq<char>| keeps_job(before[k], now_ms))));
        }
    }
}

} // verus!
