use flatpakmgr::flatpak_service::job::{JobEvent, JobId, JobManager, JobStatus};

fn make_manager() -> JobManager {
    JobManager::new()
}

#[test]
fn job_manager_apply_started() {
    let mut mgr = make_manager();
    let id = JobId(1);
    mgr.apply(&JobEvent::Started { id, description: "test job".into() });
    assert!(mgr.handles().is_empty());
}

#[test]
fn job_manager_apply_progress() {
    let mut mgr = make_manager();
    let id = JobId(1);
    mgr.apply(&JobEvent::Progress { id, pct: Some(50), line: "downloading...".into() });
    assert!(mgr.handles().is_empty());
}

#[test]
fn job_manager_apply_finished() {
    let mut mgr = make_manager();
    let id = JobId(1);
    mgr.apply(&JobEvent::Finished { id });
    assert!(mgr.handles().is_empty());
}

#[test]
fn job_manager_apply_failed() {
    let mut mgr = make_manager();
    let id = JobId(1);
    mgr.apply(&JobEvent::Failed { id, msg: "something broke".into() });
    assert!(mgr.handles().is_empty());
}

#[test]
fn job_manager_any_running_empty() {
    let mgr = make_manager();
    assert!(!mgr.any_running());
}

#[test]
fn job_manager_handles_empty() {
    let mgr = make_manager();
    assert!(mgr.handles().is_empty());
}

#[test]
fn register_hands_out_increasing_ids() {
    let mut mgr = make_manager();
    let a = mgr.register("update zen".to_string());
    let b = mgr.register("uninstall foo".to_string());
    assert_eq!(a, JobId(1));
    assert_eq!(b, JobId(2));
    assert_eq!(mgr.next_job_id(), 3);
    let h = mgr.handles();
    assert_eq!(h.len(), 2);
    assert_eq!(h[0].description, "update zen");
    assert_eq!(h[1].status, JobStatus::Running);
    assert!(mgr.any_running());
}

#[test]
fn events_update_the_matching_job_only() {
    let mut mgr = make_manager();
    let a = mgr.register("a".to_string());
    let b = mgr.register("b".to_string());
    mgr.apply(&JobEvent::Progress { id: b, pct: None, line: "line 1".into() });
    mgr.apply(&JobEvent::Progress { id: b, pct: Some(3), line: "line 2".into() });
    mgr.apply(&JobEvent::Finished { id: a });
    mgr.apply(&JobEvent::Progress { id: JobId(99), pct: None, line: "lost".into() });
    let h = mgr.handles();
    assert_eq!(h[0].status, JobStatus::Finished);
    assert!(h[0].log.is_empty());
    assert_eq!(h[1].log, vec!["line 1".to_string(), "line 2".to_string()]);
    assert_eq!(h[1].status, JobStatus::Running);
    assert!(mgr.any_running());
    mgr.apply(&JobEvent::Failed { id: b, msg: "exit code 1".into() });
    assert_eq!(mgr.handles()[1].status, JobStatus::Failed);
    assert!(!mgr.any_running());
}

#[test]
fn registration_after_events_takes_next_id_and_appends() {
    let mut mgr = JobManager::new();
    let a = mgr.register("first".into());
    mgr.apply(&JobEvent::Progress { id: a, pct: Some(5), line: "[#] 5%".into() });
    mgr.apply(&JobEvent::Finished { id: a });
    let b = mgr.register("second".into());
    mgr.apply(&JobEvent::Failed { id: b, msg: "x".into() });
    let before: Vec<(JobId, String)> = mgr.handles().iter().map(|h| (h.id, h.description.clone())).collect();
    let c = mgr.register("third".into());
    assert_eq!(c, JobId(3));
    let h = mgr.handles();
    assert_eq!(h.len(), 3);
    for (i, (id, d)) in before.iter().enumerate() {
        assert_eq!(h[i].id, *id);
        assert_eq!(&h[i].description, d);
    }
    assert_eq!(h[2].id, JobId(3));
    assert_eq!(h[2].description, "third");
    assert_eq!(h[2].status, JobStatus::Running);
    assert!(h[2].log.is_empty());
    assert!(mgr.any_running());
}
