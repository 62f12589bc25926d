//! The bookkeeping of cloud jobs while the editor watches them: the log,
//! the phase plan and progress of each job, which job is active, and the
//! queue counts. The worker that polls the backend reports events; the
//! editor keeps the floating-point progress and the times itself.

use vstd::prelude::*;
use crate::chat::log_view;
use crate::keyed_map::KeyedMap;
use crate::phase_plan::{compute_phase_plan_from_payload, phase_plan_spec, PhasePlan};

verus! {

/// How many log lines are kept.
pub const MONITOR_LOG_LIMIT: usize = 256;

/// The progress of a job per phase: the highest step and step count seen
/// while sampling and while encoding, and whether its result is being or
/// has been imported.
#[derive(Clone, Copy, Debug, PartialEq, Eq, Structural)]
pub struct PhaseAgg {
    pub s_cur: u32,
    pub s_tot: u32,
    pub e_cur: u32,
    pub e_tot: u32,
    pub importing: bool,
    pub imported: bool,
}

impl View for PhaseAgg {
    type V = PhaseAgg;

    open spec fn view(&self) -> PhaseAgg {
        *self
    }
}

/// Progress not yet seen.
pub open spec fn idle_agg() -> PhaseAgg {
    PhaseAgg { s_cur: 0, s_tot: 0, e_cur: 0, e_tot: 0, importing: false, imported: false }
}

/// What the worker reports.
pub enum MonitorEvent {
    Log(String),
    JobQueued(String),
    /// A job queued with the file prefix its outputs will carry; it becomes
    /// the active job.
    JobQueuedWithPrefix(String, String),
    CloudStatus { pending: usize, running: usize },
    CloudProgress { job_id: String, current: u32, total: u32, node_id: Option<String> },
    JobImporting(String),
    JobImported(String),
}

/// The state kept while cloud jobs are watched.
pub struct CloudMonitor {
    /// The payload jobs are queued with; their phase plans come from it.
    pub payload: String,
    pub logs: Vec<String>,
    pub phase_plans: KeyedMap<PhasePlan>,
    pub phase_agg: KeyedMap<PhaseAgg>,
    pub known_jobs: KeyedMap<()>,
    pub job_prefixes: KeyedMap<String>,
    pub active_job: Option<String>,
    pub monitor_requested: bool,
    pub queue_pending: usize,
    pub queue_running: usize,
}

/// The log with a line added, keeping the last `MONITOR_LOG_LIMIT` lines.
pub open spec fn monitor_log(l: Seq<Seq<char>>, line: Seq<char>) -> Seq<Seq<char>> {
    let p = l.push(line);
    if p.len() > MONITOR_LOG_LIMIT {
        p.subrange(p.len() - MONITOR_LOG_LIMIT, p.len() as int)
    } else {
        p
    }
}

/// Whether a progress step belongs to sampling: by the job's plan when the
/// node is in it, else when the step count is below 32.
pub open spec fn sampling_step(plan: Option<(Seq<Seq<char>>, Seq<Seq<char>>)>, node: Option<Seq<char>>, total: u32) -> bool {
    match (plan, node) {
        (Some(p), Some(n)) => if p.0.contains(n) {
            true
        } else if p.1.contains(n) {
            false
        } else {
            total < 32
        },
        _ => total < 32,
    }
}

/// The larger of two counts.
pub open spec fn max_u32(a: u32, b: u32) -> u32 {
    if a >= b {
        a
    } else {
        b
    }
}

/// A job's progress after a step of the phase given.
pub open spec fn advanced(a: PhaseAgg, sampling: bool, current: u32, total: u32) -> PhaseAgg {
    if sampling {
        PhaseAgg { s_cur: max_u32(a.s_cur, current), s_tot: max_u32(a.s_tot, total), ..a }
    } else {
        PhaseAgg { e_cur: max_u32(a.e_cur, current), e_tot: max_u32(a.e_tot, total), ..a }
    }
}

/// Whether an event of a job counts: it is the active job, or none is.
pub open spec fn accepts(active: Option<String>, job: Seq<char>) -> bool {
    match active {
        Some(a) => a@ == job,
        None => true,
    }
}

/// Whether a name is among the members of a sequence.
fn seq_has(v: &Vec<String>, x: &str) -> (r: bool)
    ensures
        r == crate::screenplay::strings_view(v@).contains(x@),
{
    let ghost sv = crate::screenplay::strings_view(v@);
    let mut i: usize = 0;
    while i < v.len()
        invariant
            i <= v@.len(),
            sv == crate::screenplay::strings_view(v@),
            sv.len() == v@.len(),
            forall|j: int| 0 <= j < i ==> #[trigger] sv[j] != x@,
        decreases v@.len() - i,
    {
        assert(sv[i as int] == v@[i as int]@);
        if crate::json::string_eq(&v[i], &String::from_str(x)) {
            assert(sv[i as int] == x@);
            return true;
        }
        i = i + 1;
    }
    false
}

impl CloudMonitor {
    /// All fields but the log stay.
    pub open spec fn same_but_log(&self, other: &Self) -> bool {
        &&& self.payload == other.payload
        &&& self.phase_plans@ == other.phase_plans@
        &&& self.phase_agg@ == other.phase_agg@
        &&& self.known_jobs@ == other.known_jobs@
        &&& self.job_prefixes@ == other.job_prefixes@
        &&& self.active_job == other.active_job
        &&& self.monitor_requested == other.monitor_requested
        &&& self.queue_pending == other.queue_pending
        &&& self.queue_running == other.queue_running
    }

    /// A line added to the log; see `monitor_log`.
    fn push_log(&mut self, line: String)
        ensures
            log_view(final(self).logs@) == monitor_log(log_view(old(self).logs@), line@),
            final(self).same_but_log(&*old(self)),
    {
        let ghost p = log_view(self.logs@).push(line@);
        self.logs.push(line);
        assert(log_view(self.logs@) =~= p);
        while self.logs.len() > MONITOR_LOG_LIMIT
            invariant
                p.len() >= log_view(self.logs@).len(),
                log_view(self.logs@) == p.subrange(p.len() - log_view(self.logs@).len(), p.len() as int),
                log_view(self.logs@).len() == self.logs@.len(),
                p.len() <= MONITOR_LOG_LIMIT ==> log_view(self.logs@) == p,
                p.len() > MONITOR_LOG_LIMIT ==> self.logs@.len() >= MONITOR_LOG_LIMIT,
                self.same_but_log(&*old(self)),
            decreases self.logs@.len(),
        {
            let ghost before = log_view(self.logs@);
            self.logs.remove(0);
            assert(log_view(self.logs@) =~= before.drop_first());
        }
        proof {
            if p.len() <= MONITOR_LOG_LIMIT {
                assert(p.subrange(0, p.len() as int) =~= p);
            }
        }
    }

    /// The phase plan of the payload.
    fn plan(&self) -> (r: PhasePlan)
        ensures
            r@ == (phase_plan_spec(self.payload@, true), phase_plan_spec(self.payload@, false)),
    {
        compute_phase_plan_from_payload(self.payload.as_str())
    }

    /// Takes one event of the worker:
    /// - a log line is added (see `monitor_log`);
    /// - a queued job is logged, gets the payload's phase plan and (when it
    ///   has none) empty progress, becomes known, and watching is asked for;
    /// - a job queued with its prefix becomes the active and only job: its
    ///   plan, empty progress, known, with that prefix;
    /// - queue counts are taken;
    /// - a progress step of an accepted job (see `accepts`) advances its
    ///   phase (see `sampling_step`, `advanced`) and makes it known; a step
    ///   of another job changes nothing;
    /// - an importing job is marked so;
    /// - an imported job is forgotten, is no longer active, and watching
    ///   stops.
    /// The result says whether progress was seen (the editor then notes the
    /// time, and for a step keeps its fraction).
    pub fn handle_monitor_event(&mut self, event: MonitorEvent) -> (r: bool)
        ensures
            final(self).payload == old(self).payload,
            match event {
                MonitorEvent::Log(line) => !r && log_view(final(self).logs@) == monitor_log(log_view(old(self).logs@), line@)
                    && final(self).same_but_log(&*old(self)),
                MonitorEvent::JobQueued(id) => {
                    &&& !r
                    &&& log_view(final(self).logs@) == monitor_log(log_view(old(self).logs@), "Queued job: "@ + id@)
                    &&& final(self).phase_plans@ == old(self).phase_plans@.insert(
                        id@,
                        (phase_plan_spec(old(self).payload@, true), phase_plan_spec(old(self).payload@, false)),
                    )
                    &&& final(self).phase_agg@ == if old(self).phase_agg@.dom().contains(id@) {
                        old(self).phase_agg@
                    } else {
                        old(self).phase_agg@.insert(id@, idle_agg())
                    }
                    &&& final(self).known_jobs@ == old(self).known_jobs@.insert(id@, ())
                    &&& final(self).monitor_requested
                    &&& final(self).job_prefixes@ == old(self).job_prefixes@
                    &&& final(self).active_job == old(self).active_job
                    &&& final(self).queue_pending == old(self).queue_pending
                    &&& final(self).queue_running == old(self).queue_running
                },
                MonitorEvent::JobQueuedWithPrefix(id, prefix) => {
                    &&& !r
                    &&& final(self).logs == old(self).logs
                    &&& final(self).active_job matches Some(a) && a@ == id@
                    &&& final(self).phase_plans@ == Map::<Seq<char>, (Seq<Seq<char>>, Seq<Seq<char>>)>::empty().insert(
                        id@,
                        (phase_plan_spec(old(self).payload@, true), phase_plan_spec(old(self).payload@, false)),
                    )
                    &&& final(self).phase_agg@ == Map::<Seq<char>, PhaseAgg>::empty().insert(id@, idle_agg())
                    &&& final(self).known_jobs@ == Map::<Seq<char>, ()>::empty().insert(id@, ())
                    &&& final(self).job_prefixes@ == Map::<Seq<char>, Seq<char>>::empty().insert(id@, prefix@)
                    &&& final(self).monitor_requested == old(self).monitor_requested
                    &&& final(self).queue_pending == old(self).queue_pending
                    &&& final(self).queue_running == old(self).queue_running
                },
                MonitorEvent::CloudStatus { pending, running } => {
                    &&& r == (pending > 0 || running > 0)
                    &&& final(self).queue_pending == pending
                    &&& final(self).queue_running == running
                    &&& final(self).logs == old(self).logs
                    &&& final(self).phase_plans@ == old(self).phase_plans@
                    &&& final(self).phase_agg@ == old(self).phase_agg@
                    &&& final(self).known_jobs@ == old(self).known_jobs@
                    &&& final(self).job_prefixes@ == old(self).job_prefixes@
                    &&& final(self).active_job == old(self).active_job
                    &&& final(self).monitor_requested == old(self).monitor_requested
                },
                MonitorEvent::CloudProgress { job_id, current, total, node_id } => {
                    &&& r == accepts(old(self).active_job, job_id@)
                    &&& final(self).logs == old(self).logs
                    &&& final(self).phase_plans@ == old(self).phase_plans@
                    &&& final(self).job_prefixes@ == old(self).job_prefixes@
                    &&& final(self).active_job == old(self).active_job
                    &&& final(self).monitor_requested == old(self).monitor_requested
                    &&& final(self).queue_pending == old(self).queue_pending
                    &&& final(self).queue_running == old(self).queue_running
                    &&& if r {
                        let before = if old(self).phase_agg@.dom().contains(job_id@) {
                            old(self).phase_agg@[job_id@]
                        } else {
                            idle_agg()
                        };
                        let plan = if old(self).phase_plans@.dom().contains(job_id@) {
                            Some(old(self).phase_plans@[job_id@])
                        } else {
                            None
                        };
                        let node = match node_id {
                            Some(n) => Some(n@),
                            None => None,
                        };
                        &&& final(self).phase_agg@ == old(self).phase_agg@.insert(
                            job_id@,
                            advanced(before, sampling_step(plan, node, total), current, total),
                        )
                        &&& final(self).known_jobs@ == old(self).known_jobs@.insert(job_id@, ())
                    } else {
                        &&& final(self).phase_agg@ == old(self).phase_agg@
                        &&& final(self).known_jobs@ == old(self).known_jobs@
                    }
                },
                MonitorEvent::JobImporting(id) => {
                    &&& !r
                    &&& final(self).phase_agg@ == if old(self).phase_agg@.dom().contains(id@) {
                        old(self).phase_agg@.insert(id@, PhaseAgg { importing: true, ..old(self).phase_agg@[id@] })
                    } else {
                        old(self).phase_agg@
                    }
                    &&& final(self).logs == old(self).logs
                    &&& final(self).phase_plans@ == old(self).phase_plans@
                    &&& final(self).known_jobs@ == old(self).known_jobs@
                    &&& final(self).job_prefixes@ == old(self).job_prefixes@
                    &&& final(self).active_job == old(self).active_job
                    &&& final(self).monitor_requested == old(self).monitor_requested
                    &&& final(self).queue_pending == old(self).queue_pending
                    &&& final(self).queue_running == old(self).queue_running
                },
                MonitorEvent::JobImported(id) => {
                    &&& !r
                    &&& final(self).phase_agg@ == old(self).phase_agg@.remove(id@)
                    &&& final(self).phase_plans@ == old(self).phase_plans@.remove(id@)
                    &&& final(self).known_jobs@ == old(self).known_jobs@.remove(id@)
                    &&& final(self).active_job == if old(self).active_job matches Some(a) && a@ == id@ {
                        None
                    } else {
                        old(self).active_job
                    }
                    &&& !final(self).monitor_requested
                    &&& final(self).logs == old(self).logs
                    &&& final(self).job_prefixes@ == old(self).job_prefixes@
                    &&& final(self).queue_pending == old(self).queue_pending
                    &&& final(self).queue_running == old(self).queue_running
                },
            },
    {
        match event {
            MonitorEvent::Log(line) => {
                self.push_log(line);
                false
            },
            MonitorEvent::JobQueued(id) => {
                self.push_log(crate::text::cat("Queued job: ", id.as_str()));
                let plan = self.plan();
                self.phase_plans.insert(id.clone(), plan);
                if !self.phase_agg.contains_key(id.as_str()) {
                    self.phase_agg.insert(
                        id.clone(),
                        PhaseAgg { s_cur: 0, s_tot: 0, e_cur: 0, e_tot: 0, importing: false, imported: false },
                    );
                }
                self.monitor_requested = true;
                self.known_jobs.insert(id, ());
                false
            },
            MonitorEvent::JobQueuedWithPrefix(id, prefix) => {
                self.active_job = Some(id.clone());
                self.phase_agg.clear();
                self.phase_plans.clear();
                self.known_jobs.clear();
                self.known_jobs.insert(id.clone(), ());
                self.job_prefixes.clear();
                let plan = self.plan();
                self.phase_plans.insert(id.clone(), plan);
                self.phase_agg.insert(
                    id.clone(),
                    PhaseAgg { s_cur: 0, s_tot: 0, e_cur: 0, e_tot: 0, importing: false, imported: false },
                );
                self.job_prefixes.insert(id, prefix);
                false
            },
            MonitorEvent::CloudStatus { pending, running } => {
                self.queue_pending = pending;
                self.queue_running = running;
                pending > 0 || running > 0
            },
            MonitorEvent::CloudProgress { job_id, current, total, node_id } => {
                let accepted = match &self.active_job {
                    Some(a) => crate::json::string_eq(a, &job_id),
                    None => true,
                };
                if !accepted {
                    return false;
                }
                let before = match self.phase_agg.get(job_id.as_str()) {
                    Some(a) => *a,
                    None => PhaseAgg { s_cur: 0, s_tot: 0, e_cur: 0, e_tot: 0, importing: false, imported: false },
                };
                let sampling = match (self.phase_plans.get(job_id.as_str()), &node_id) {
                    (Some(p), Some(n)) => if seq_has(&p.sampling, n.as_str()) {
                        true
                    } else if seq_has(&p.encoding, n.as_str()) {
                        false
                    } else {
                        total < 32
                    },
                    _ => total < 32,
                };
                let after = if sampling {
                    PhaseAgg {
                        s_cur: if before.s_cur >= current { before.s_cur } else { current },
                        s_tot: if before.s_tot >= total { before.s_tot } else { total },
                        ..before
                    }
                } else {
                    PhaseAgg {
                        e_cur: if before.e_cur >= current { before.e_cur } else { current },
                        e_tot: if before.e_tot >= total { before.e_tot } else { total },
                        ..before
                    }
                };
                self.phase_agg.insert(job_id.clone(), after);
                self.known_jobs.insert(job_id, ());
                true
            },
            MonitorEvent::JobImporting(id) => {
                let current = match self.phase_agg.get(id.as_str()) {
                    Some(a) => Some(*a),
                    None => None,
                };
                if let Some(a) = current {
                    self.phase_agg.insert(id, PhaseAgg { importing: true, ..a });
                }
                false
            },
            MonitorEvent::JobImported(id) => {
                self.phase_agg.remove(id.as_str());
                self.phase_plans.remove(id.as_str());
                let clear = match &self.active_job {
                    Some(a) => crate::json::string_eq(a, &id),
                    None => false,
                };
                if clear {
                    self.active_job = None;
                }
                self.known_jobs.remove(id.as_str());
                self.monitor_requested = false;
                false
            },
        }
    }
}

} // verus!
