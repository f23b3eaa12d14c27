use kueue::jobs::JobStatus;
use kueue::manager::{Manager, RemoveOutcome};
use kueue::resources::Resources;

fn res(slots: u64, cpus: u64, ram: u64) -> Resources {
    Resources::new(slots, cpus, ram)
}

fn ls_cmd() -> Vec<String> {
    vec!["ls".to_string(), "-la".to_string()]
}

fn add_ls_job(manager: &mut Manager) -> u64 {
    let info = manager.add_new_job(ls_cmd(), "/tmp".to_string(), res(1, 1, 100), 0);
    info.job_id
}

#[test]
fn add_new_worker() {
    let mut manager = Manager::new();
    let worker_id = manager.add_new_worker("test_worker".into(), 0);
    assert_eq!(worker_id, 0);
}

#[test]
fn add_new_job() {
    let mut manager = Manager::new();
    let cmd = vec!["ls".to_string(), "-la".to_string()];
    let cwd: String = "/tmp".into();
    manager.add_new_job(cmd, cwd, res(1, 1, 100), 0);
    assert_eq!(manager.get_all_job_infos().len(), 1);
}

#[test]
fn get_job_waiting_for_assignment() {
    let mut manager = Manager::new();
    let cmd = vec!["ls".to_string(), "-la".to_string()];
    let cwd: String = "/tmp".into();
    let job = manager.add_new_job(cmd, cwd, res(1, 1, 100), 0);
    let worker = manager.add_new_worker("w".into(), 0);

    // Put job on exclude list.
    let mut exclude: Vec<u64> = Vec::new();
    exclude.push(job.job_id);

    // Now, we should not get it.
    let job = manager.get_job_waiting_for_assignment(worker, &exclude);
    assert!(job.is_none());

    // Now we want any job. One is waiting to be assigned.
    exclude.clear();
    let job = manager.get_job_waiting_for_assignment(worker, &exclude);
    assert!(job.is_some());

    // We want any job, again. But none are left.
    let job = manager.get_job_waiting_for_assignment(worker, &exclude);
    assert!(job.is_none());
}

#[test]
fn two_jobs_fifo_order() {
    let mut manager = Manager::new();
    let a = add_ls_job(&mut manager);
    let b = add_ls_job(&mut manager);
    assert_eq!(a, 0);
    assert_eq!(b, 1);
    let w = manager.add_new_worker("w".into(), 0);
    let none: Vec<u64> = Vec::new();
    assert_eq!(manager.get_job_waiting_for_assignment(w, &none), Some(0));
    assert_eq!(manager.get_job_waiting_for_assignment(w, &none), Some(1));
    assert_eq!(manager.get_job_waiting_for_assignment(w, &none), None);
}

#[test]
fn exclude_then_pick() {
    let mut manager = Manager::new();
    let id = add_ls_job(&mut manager);
    assert_eq!(id, 0);
    let w = manager.add_new_worker("w".into(), 0);
    let excl = vec![0u64];
    assert_eq!(manager.get_job_waiting_for_assignment(w, &excl), None);
    let none: Vec<u64> = Vec::new();
    assert_eq!(manager.get_job_waiting_for_assignment(w, &none), Some(0));
    assert_eq!(manager.get_job_waiting_for_assignment(w, &none), None);
}

#[test]
fn defer_requeues_and_excludes() {
    let mut manager = Manager::new();
    for _ in 0..6 {
        add_ls_job(&mut manager);
    }
    let sink = manager.add_new_worker("sink".into(), 0);
    let same = manager.add_new_worker("same".into(), 0);
    let other = manager.add_new_worker("other".into(), 0);
    let none: Vec<u64> = Vec::new();
    // park jobs 0..=4 on another worker so only job 5 waits
    for expected in 0..5u64 {
        assert_eq!(manager.get_job_waiting_for_assignment(sink, &none), Some(expected));
    }
    assert_eq!(manager.get_job_waiting_for_assignment(same, &none), Some(5));
    assert!(manager.on_worker_defer(same, 5));
    // job 5 is back in waiting, but excluded for the deferring worker
    let excl = manager.exclude_list(same);
    assert!(excl.contains(&5));
    assert_eq!(manager.get_job_waiting_for_assignment(same, &excl), None);
    // another worker gets it at once
    assert_eq!(manager.get_job_waiting_for_assignment(other, &none), Some(5));
}

#[test]
fn reject_is_sticky_defer_is_not() {
    let mut manager = Manager::new();
    add_ls_job(&mut manager);
    let w = manager.add_new_worker("w".into(), 0);
    let none: Vec<u64> = Vec::new();
    assert_eq!(manager.get_job_waiting_for_assignment(w, &none), Some(0));
    assert!(manager.on_worker_reject(w, 0));
    assert!(manager.exclude_list(w).contains(&0));
    // a resource report that shows growth forgives deferrals, not rejects
    manager.update_worker_resources(w, Resources::new(4, 4, 4096), 1);
    assert!(manager.exclude_list(w).contains(&0));

    // deferred jobs are forgiven by a grown report
    let mut manager = Manager::new();
    add_ls_job(&mut manager);
    let w = manager.add_new_worker("w".into(), 0);
    assert_eq!(manager.get_job_waiting_for_assignment(w, &none), Some(0));
    assert!(manager.on_worker_defer(w, 0));
    assert!(manager.exclude_list(w).contains(&0));
    manager.update_worker_resources(w, Resources::new(4, 4, 4096), 1);
    assert!(!manager.exclude_list(w).contains(&0));
}

#[test]
fn accept_confirms_and_runs() {
    let mut manager = Manager::new();
    add_ls_job(&mut manager);
    let w = manager.add_new_worker("w".into(), 0);
    let none: Vec<u64> = Vec::new();
    assert_eq!(manager.get_job_waiting_for_assignment(w, &none), Some(0));
    // accept while the offer stands: confirmed
    assert!(manager.on_worker_accept(w, 0, 11));
    let info = manager.get_job(0).unwrap();
    match info.status {
        JobStatus::Running { worker_id, started_at } => {
            assert_eq!(worker_id, w);
            assert_eq!(started_at, 11);
        }
        _ => panic!("expected Running"),
    }
    assert_eq!(info.started_at, Some(11));
    // a second accept for the same job: withdraw
    assert!(!manager.on_worker_accept(w, 0, 12));
}

#[test]
fn worker_loss_requeues_within_maintenance() {
    let mut manager = Manager::new();
    for _ in 0..8 {
        add_ls_job(&mut manager);
    }
    let sink = manager.add_new_worker("sink".into(), 0);
    let w = manager.add_new_worker("w".into(), 0);
    let none: Vec<u64> = Vec::new();
    for expected in 0..7u64 {
        assert_eq!(manager.get_job_waiting_for_assignment(sink, &none), Some(expected));
    }
    // worker w runs job 7, then its connection drops
    assert_eq!(manager.get_job_waiting_for_assignment(w, &none), Some(7));
    assert!(manager.on_worker_accept(w, 7, 5));
    manager.disconnect_worker(w);
    manager.run_maintenance();
    // job 7 is Pending again and back in the waiting list
    let info = manager.get_job(7).unwrap();
    assert!(matches!(info.status, JobStatus::Pending));
    let other = manager.add_new_worker("other".into(), 99);
    assert_eq!(manager.get_job_waiting_for_assignment(other, &none), Some(7));
    // the dead worker is gone from the registry
    let infos = manager.get_all_worker_infos();
    assert!(infos.iter().all(|wi| wi.worker_id != w));
}

#[test]
fn remove_running_job_with_kill() {
    let mut manager = Manager::new();
    for _ in 0..4 {
        add_ls_job(&mut manager);
    }
    let w = manager.add_new_worker("w".into(), 0);
    let none: Vec<u64> = Vec::new();
    for expected in 0..4u64 {
        assert_eq!(manager.get_job_waiting_for_assignment(w, &none), Some(expected));
        assert!(manager.on_worker_accept(w, expected, 1));
    }
    // client removes job 3 with kill while it runs on w
    assert!(matches!(manager.remove_job(3, true), RemoveOutcome::KillRequested));
    // the worker's next turn sends a KillJob for it
    assert_eq!(manager.next_kill_for(w), Some(3));
    assert_eq!(manager.next_kill_for(w), None);
    // the worker reports the kill as Canceled; that is authoritative
    let accepted = manager.update_job_status(
        w,
        3,
        JobStatus::Canceled { reason: "killed on request".to_string() },
        20,
    );
    assert!(accepted);
    let info = manager.get_job(3).unwrap();
    assert!(matches!(info.status, JobStatus::Canceled { .. }));
}

#[test]
fn remove_pending_and_unknown() {
    let mut manager = Manager::new();
    add_ls_job(&mut manager);
    assert!(matches!(manager.remove_job(0, false), RemoveOutcome::Deleted));
    assert!(manager.get_job(0).is_none());
    assert!(matches!(manager.remove_job(0, false), RemoveOutcome::NotFound));
    assert!(matches!(manager.remove_job(42, true), RemoveOutcome::NotFound));
}

#[test]
fn remove_running_without_kill_is_refused() {
    let mut manager = Manager::new();
    add_ls_job(&mut manager);
    let w = manager.add_new_worker("w".into(), 0);
    let none: Vec<u64> = Vec::new();
    assert_eq!(manager.get_job_waiting_for_assignment(w, &none), Some(0));
    assert!(manager.on_worker_accept(w, 0, 1));
    assert!(matches!(manager.remove_job(0, false), RemoveOutcome::Refused));
    assert!(manager.get_job(0).is_some());
}

#[test]
fn update_job_status_needs_running_holder() {
    let mut manager = Manager::new();
    add_ls_job(&mut manager);
    let w = manager.add_new_worker("w".into(), 0);
    // not running: report ignored
    assert!(!manager.update_job_status(
        w,
        0,
        JobStatus::Finished {
            return_code: 0,
            run_time_seconds: 1,
            worker: "w".to_string(),
            comment: String::new(),
        },
        9,
    ));
    let none: Vec<u64> = Vec::new();
    assert_eq!(manager.get_job_waiting_for_assignment(w, &none), Some(0));
    assert!(manager.on_worker_accept(w, 0, 2));
    // non-terminal report ignored
    assert!(!manager.update_job_status(w, 0, JobStatus::Pending, 9));
    // terminal report from the holder accepted
    assert!(manager.update_job_status(
        w,
        0,
        JobStatus::Finished {
            return_code: 0,
            run_time_seconds: 7,
            worker: "w".to_string(),
            comment: String::new(),
        },
        9,
    ));
    let info = manager.get_job(0).unwrap();
    assert!(matches!(info.status, JobStatus::Finished { run_time_seconds: 7, .. }));
    assert_eq!(info.finished_at, Some(9));
}

#[test]
fn update_job_results_appends() {
    let mut manager = Manager::new();
    add_ls_job(&mut manager);
    assert!(manager.update_job_results(0, Some("out".to_string()), None));
    assert!(manager.update_job_results(0, Some("put".to_string()), Some("err".to_string())));
    let (stdout_text, stderr_text) = manager.get_job_outputs(0).unwrap();
    assert_eq!(stdout_text, Some("output".to_string()));
    assert_eq!(stderr_text, Some("err".to_string()));
    assert!(!manager.update_job_results(9, None, None));
    assert!(manager.get_job_outputs(9).is_none());
}

#[test]
fn clean_jobs_removes_terminal_only() {
    let mut manager = Manager::new();
    add_ls_job(&mut manager);
    add_ls_job(&mut manager);
    let w = manager.add_new_worker("w".into(), 0);
    let none: Vec<u64> = Vec::new();
    assert_eq!(manager.get_job_waiting_for_assignment(w, &none), Some(0));
    assert!(manager.on_worker_accept(w, 0, 1));
    assert!(manager.update_job_status(
        w,
        0,
        JobStatus::Finished {
            return_code: 0,
            run_time_seconds: 1,
            worker: "w".to_string(),
            comment: String::new(),
        },
        2,
    ));
    manager.clean_jobs(false, "cleaned".to_string());
    assert!(manager.get_job(0).is_none());
    assert!(manager.get_job(1).is_some());

    manager.clean_jobs(true, "cleaned".to_string());
    assert!(manager.get_job(1).is_none());
    assert_eq!(manager.get_all_job_infos().len(), 0);
}

#[test]
fn list_workers_shows_live_ones() {
    let mut manager = Manager::new();
    let a = manager.add_new_worker("alpha".into(), 3);
    let _b = manager.add_new_worker("beta".into(), 4);
    let infos = manager.get_all_worker_infos();
    assert_eq!(infos.len(), 2);
    assert_eq!(infos[0].worker_id, a);
    assert_eq!(infos[0].worker_name, "alpha".to_string());
}

#[test]
fn job_statistics_counts_and_average() {
    let mut manager = Manager::new();
    for _ in 0..4 {
        add_ls_job(&mut manager);
    }
    let w = manager.add_new_worker("w".into(), 0);
    let none: Vec<u64> = Vec::new();
    // job 0 finishes with code 0 in 10 s, job 1 with code 2 in 20 s
    for id in 0..2u64 {
        assert_eq!(manager.get_job_waiting_for_assignment(w, &none), Some(id));
        assert!(manager.on_worker_accept(w, id, 1));
        assert!(manager.update_job_status(
            w,
            id,
            JobStatus::Finished {
                return_code: (id as i64) * 2,
                run_time_seconds: 10 + 10 * (id as i64),
                worker: "w".to_string(),
                comment: String::new(),
            },
            2,
        ));
    }
    // job 2 is offered, job 3 stays pending
    assert_eq!(manager.get_job_waiting_for_assignment(w, &none), Some(2));
    let (pending, offered, running, succeeded, failed, canceled, avg) = manager.job_statistics();
    assert_eq!(pending, 1);
    assert_eq!(offered, 1);
    assert_eq!(running, 0);
    assert_eq!(succeeded, 1);
    assert_eq!(failed, 1);
    assert_eq!(canceled, 0);
    assert_eq!(avg, 15);
}
