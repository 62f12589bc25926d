use gausian_collab::cloud_monitor::{CloudMonitor, MonitorEvent, PhaseAgg, MONITOR_LOG_LIMIT};
use gausian_collab::keyed_map::KeyedMap;

const PAYLOAD: &str = r#"{"prompt": {"3": {"class_type": "KSampler"}, "9": {"class_type": "VHS_VideoCombine"}}}"#;

fn monitor() -> CloudMonitor {
    CloudMonitor {
        payload: PAYLOAD.to_string(),
        logs: Vec::new(),
        phase_plans: KeyedMap::new(),
        phase_agg: KeyedMap::new(),
        known_jobs: KeyedMap::new(),
        job_prefixes: KeyedMap::new(),
        active_job: None,
        monitor_requested: false,
        queue_pending: 0,
        queue_running: 0,
    }
}

fn idle() -> PhaseAgg {
    PhaseAgg { s_cur: 0, s_tot: 0, e_cur: 0, e_tot: 0, importing: false, imported: false }
}

fn progress(job: &str, current: u32, total: u32, node: Option<&str>) -> MonitorEvent {
    MonitorEvent::CloudProgress {
        job_id: job.to_string(),
        current,
        total,
        node_id: node.map(|n| n.to_string()),
    }
}

#[test]
fn monitor_log_keeps_the_last_lines() {
    let mut m = monitor();
    for i in 0..(MONITOR_LOG_LIMIT + 4) {
        assert!(!m.handle_monitor_event(MonitorEvent::Log(format!("line {}", i))));
    }
    assert_eq!(m.logs.len(), MONITOR_LOG_LIMIT);
    assert_eq!(m.logs[0], "line 4");
    assert_eq!(m.logs[MONITOR_LOG_LIMIT - 1], format!("line {}", MONITOR_LOG_LIMIT + 3));
}

#[test]
fn queued_job_gets_plan_and_empty_progress() {
    let mut m = monitor();
    assert!(!m.handle_monitor_event(MonitorEvent::JobQueued("job-1".to_string())));
    assert_eq!(m.logs, vec!["Queued job: job-1".to_string()]);
    let plan = m.phase_plans.get("job-1").expect("plan");
    assert_eq!(plan.sampling, vec!["3".to_string()]);
    assert_eq!(plan.encoding, vec!["9".to_string()]);
    assert_eq!(m.phase_agg.get("job-1"), Some(&idle()));
    assert!(m.known_jobs.contains_key("job-1"));
    assert!(m.monitor_requested);
    assert_eq!(m.active_job, None);
}

#[test]
fn queued_job_keeps_progress_already_seen() {
    let mut m = monitor();
    m.handle_monitor_event(progress("job-1", 2, 20, Some("3")));
    m.handle_monitor_event(MonitorEvent::JobQueued("job-1".to_string()));
    assert_eq!(m.phase_agg.get("job-1").map(|a| a.s_cur), Some(2));
}

#[test]
fn job_with_prefix_becomes_the_only_job() {
    let mut m = monitor();
    m.handle_monitor_event(MonitorEvent::JobQueued("old".to_string()));
    assert!(!m.handle_monitor_event(MonitorEvent::JobQueuedWithPrefix("new".to_string(), "shot_01".to_string())));
    assert_eq!(m.active_job, Some("new".to_string()));
    assert_eq!(m.phase_plans.len(), 1);
    assert_eq!(m.phase_agg.get("new"), Some(&idle()));
    assert!(m.phase_agg.get("old").is_none());
    assert!(!m.known_jobs.contains_key("old"));
    assert_eq!(m.job_prefixes.get("new"), Some(&"shot_01".to_string()));
    assert_eq!(m.logs.len(), 1);
}

#[test]
fn cloud_status_reports_activity() {
    let mut m = monitor();
    assert!(m.handle_monitor_event(MonitorEvent::CloudStatus { pending: 2, running: 0 }));
    assert_eq!((m.queue_pending, m.queue_running), (2, 0));
    assert!(!m.handle_monitor_event(MonitorEvent::CloudStatus { pending: 0, running: 0 }));
    assert_eq!((m.queue_pending, m.queue_running), (0, 0));
}

#[test]
fn progress_follows_the_plan_then_the_step_count() {
    let mut m = monitor();
    m.handle_monitor_event(MonitorEvent::JobQueued("job".to_string()));
    assert!(m.handle_monitor_event(progress("job", 5, 20, Some("3"))));
    assert!(m.handle_monitor_event(progress("job", 3, 20, Some("3"))));
    assert!(m.handle_monitor_event(progress("job", 1, 4, Some("9"))));
    let a = *m.phase_agg.get("job").unwrap();
    assert_eq!((a.s_cur, a.s_tot, a.e_cur, a.e_tot), (5, 20, 1, 4));
    // Without a plan entry for the node, 32 steps or more count as encoding.
    assert!(m.handle_monitor_event(progress("job", 10, 40, None)));
    assert!(m.handle_monitor_event(progress("job", 7, 31, Some("77"))));
    let a = *m.phase_agg.get("job").unwrap();
    assert_eq!((a.s_cur, a.s_tot, a.e_cur, a.e_tot), (7, 31, 10, 40));
}

#[test]
fn progress_of_another_job_is_ignored() {
    let mut m = monitor();
    m.handle_monitor_event(MonitorEvent::JobQueuedWithPrefix("mine".to_string(), "p".to_string()));
    assert!(!m.handle_monitor_event(progress("other", 1, 10, None)));
    assert!(m.phase_agg.get("other").is_none());
    assert!(!m.known_jobs.contains_key("other"));
    assert!(m.handle_monitor_event(progress("mine", 1, 10, None)));
    assert_eq!(m.phase_agg.get("mine").map(|a| a.s_cur), Some(1));
}

#[test]
fn progress_without_an_active_job_makes_it_known() {
    let mut m = monitor();
    assert!(m.handle_monitor_event(progress("fresh", 2, 8, None)));
    assert!(m.known_jobs.contains_key("fresh"));
    assert_eq!(m.phase_agg.get("fresh").map(|a| (a.s_cur, a.s_tot)), Some((2, 8)));
}

#[test]
fn importing_then_imported() {
    let mut m = monitor();
    m.handle_monitor_event(MonitorEvent::JobQueuedWithPrefix("job".to_string(), "p".to_string()));
    m.handle_monitor_event(MonitorEvent::JobQueued("job".to_string()));
    assert!(!m.handle_monitor_event(MonitorEvent::JobImporting("job".to_string())));
    assert!(m.phase_agg.get("job").unwrap().importing);
    assert!(!m.handle_monitor_event(MonitorEvent::JobImporting("unknown".to_string())));
    assert!(m.phase_agg.get("unknown").is_none());
    assert!(!m.handle_monitor_event(MonitorEvent::JobImported("job".to_string())));
    assert!(m.phase_agg.get("job").is_none());
    assert!(m.phase_plans.get("job").is_none());
    assert!(!m.known_jobs.contains_key("job"));
    assert_eq!(m.active_job, None);
    assert!(!m.monitor_requested);
    assert_eq!(m.job_prefixes.get("job"), Some(&"p".to_string()));
}
