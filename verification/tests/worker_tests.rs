use kueue::jobs::{JobInfo, JobStatus};
use kueue::messages::WorkerToServerMessage;
use kueue::resources::Resources;
use kueue::worker::{SystemProbe, WorkerConfig, WorkerState};

fn config(dynamic: bool) -> WorkerConfig {
    WorkerConfig {
        worker_name: "unit".to_string(),
        max_parallel_jobs: 4,
        dynamic_check_free_resources: dynamic,
        dynamic_cpu_load_scale_milli: 1000,
    }
}

fn probe(cores: u64, load_one_milli: u64) -> SystemProbe {
    SystemProbe {
        cpu_cores: cores,
        cpu_frequency_sum: cores * 2400,
        total_ram_mb: 8192,
        available_ram_mb: 6000,
        load_one_milli,
        load_five_milli: load_one_milli,
        load_fifteen_milli: load_one_milli,
    }
}

fn job(id: u64, slots: u64, cpus: u64, ram: u64) -> JobInfo {
    JobInfo::new(
        id,
        vec!["ls".to_string(), "-la".to_string()],
        "/tmp".to_string(),
        Resources::new(slots, cpus, ram),
        0,
    )
}

#[test]
fn offer_rejected_without_cwd() {
    let mut st = WorkerState::new(config(false));
    let r = st.on_offer_job(job(0, 1, 1, 100), false, probe(4, 0));
    assert!(matches!(r, WorkerToServerMessage::RejectJobOffer(_)));
}

#[test]
fn offer_accepted_when_it_fits() {
    let mut st = WorkerState::new(config(false));
    let r = st.on_offer_job(job(0, 1, 2, 1000), true, probe(4, 0));
    assert!(matches!(r, WorkerToServerMessage::AcceptJobOffer(_)));
    // slots: 1 of 4 gone
    let avail = st.get_available_resources(probe(4, 0));
    assert_eq!(avail.job_slots, 3);
    assert_eq!(avail.cpus, 2);
    assert_eq!(avail.ram_mb, 7192);
}

#[test]
fn offer_deferred_when_it_does_not_fit() {
    let mut st = WorkerState::new(config(false));
    let r = st.on_offer_job(job(0, 1, 8, 100), true, probe(4, 0));
    assert!(matches!(r, WorkerToServerMessage::DeferJobOffer(_)));
    let avail = st.get_available_resources(probe(4, 0));
    assert_eq!(avail.job_slots, 4);
}

#[test]
fn dynamic_load_blocks_offers() {
    // dynamic mode, load 3.2, scale 1.0, 4 cpus, 1 allocated:
    // busy = ceil(3.2) = 4, available = max(0, 4 - max(1, 4)) = 0
    let mut st = WorkerState::new(config(true));
    let quiet = probe(4, 0);
    let r = st.on_offer_job(job(0, 1, 1, 100), true, quiet);
    assert!(matches!(r, WorkerToServerMessage::AcceptJobOffer(_)));
    let loaded = probe(4, 3200);
    let avail = st.get_available_resources(loaded);
    assert_eq!(avail.cpus, 0);
    let r = st.on_offer_job(job(1, 1, 1, 100), true, loaded);
    assert!(matches!(r, WorkerToServerMessage::DeferJobOffer(_)));
}

#[test]
fn dynamic_ram_is_capped_by_os_figure() {
    let st = WorkerState::new(config(true));
    let p = probe(4, 0);
    let avail = st.get_available_resources(p);
    // total 8192 minus nothing, capped at the 6000 the system reports free
    assert_eq!(avail.ram_mb, 6000);
}

#[test]
fn confirm_moves_to_running_and_finish_reports_once() {
    let mut st = WorkerState::new(config(false));
    let r = st.on_offer_job(job(0, 1, 1, 100), true, probe(4, 0));
    assert!(matches!(r, WorkerToServerMessage::AcceptJobOffer(_)));
    let spawned = st.on_confirm_job_offer(0, JobStatus::Running { worker_id: 0, started_at: 5 });
    assert!(spawned.is_some());
    assert_eq!(spawned.unwrap().job_id, 0);
    // slots still held while running
    assert_eq!(st.get_available_resources(probe(4, 0)).job_slots, 3);

    let report = st.finish_job(0, 0, 12, String::new(), "hello".to_string(), String::new());
    let (info, out, err) = report.unwrap();
    match info.status {
        JobStatus::Finished { return_code, run_time_seconds, worker, comment } => {
            assert_eq!(return_code, 0);
            assert_eq!(run_time_seconds, 12);
            assert_eq!(worker, "unit".to_string());
            assert_eq!(comment, String::new());
        }
        _ => panic!("expected Finished"),
    }
    assert_eq!(out, Some("hello".to_string()));
    assert_eq!(err, None);
    // the conclusion was reported; a second report cannot happen
    assert!(st.finish_job(0, 0, 12, String::new(), String::new(), String::new()).is_none());
    // and the demand is free again
    assert_eq!(st.get_available_resources(probe(4, 0)).job_slots, 4);
}

#[test]
fn confirm_for_unknown_job_is_ignored() {
    let mut st = WorkerState::new(config(false));
    assert!(st.on_confirm_job_offer(7, JobStatus::Running { worker_id: 0, started_at: 5 }).is_none());
}

#[test]
fn withdraw_drops_accepted_job() {
    let mut st = WorkerState::new(config(false));
    st.on_offer_job(job(0, 2, 1, 100), true, probe(4, 0));
    assert_eq!(st.get_available_resources(probe(4, 0)).job_slots, 2);
    assert!(st.on_withdraw_job_offer(0));
    assert_eq!(st.get_available_resources(probe(4, 0)).job_slots, 4);
    assert!(!st.on_withdraw_job_offer(0));
}

#[test]
fn killed_job_reports_canceled() {
    let mut st = WorkerState::new(config(false));
    st.on_offer_job(job(0, 1, 1, 100), true, probe(4, 0));
    st.on_confirm_job_offer(0, JobStatus::Running { worker_id: 0, started_at: 5 });
    assert!(st.on_kill_job(0, JobStatus::Canceled { reason: "removed".to_string() }));
    // the child exits after the signal; the report keeps Canceled
    let (info, _, _) = st
        .finish_job(0, 137, 3, String::new(), String::new(), String::new())
        .unwrap();
    assert!(matches!(info.status, JobStatus::Canceled { .. }));
    assert!(!st.on_kill_job(0, JobStatus::Canceled { reason: "again".to_string() }));
}

#[test]
fn failed_start_reports_synthesized_exit() {
    let mut st = WorkerState::new(config(false));
    st.on_offer_job(job(0, 1, 1, 100), true, probe(4, 0));
    st.on_confirm_job_offer(0, JobStatus::Running { worker_id: 0, started_at: 5 });
    // the spawn failed: the conclusion pipeline reports the marker code
    let (info, out, _) = st
        .finish_job(0, -43, 0, "Failed to start job: no such file".to_string(), String::new(), String::new())
        .unwrap();
    match info.status {
        JobStatus::Finished { return_code, run_time_seconds, comment, .. } => {
            assert_eq!(return_code, -43);
            assert_eq!(run_time_seconds, 0);
            assert_eq!(comment, "Failed to start job: no such file".to_string());
        }
        _ => panic!("expected Finished"),
    }
    assert_eq!(out, None);
}

#[test]
fn system_info_averages_frequency() {
    let st = WorkerState::new(config(false));
    let p = SystemProbe {
        cpu_cores: 4,
        cpu_frequency_sum: 10000,
        total_ram_mb: 8192,
        available_ram_mb: 6000,
        load_one_milli: 1500,
        load_five_milli: 1200,
        load_fifteen_milli: 900,
    };
    let si = st.build_system_info(p, "linux".to_string(), "generic".to_string());
    assert_eq!(si.cpu_cores, 4);
    assert_eq!(si.cpu_frequency, 2500);
    assert_eq!(si.total_ram_mb, 8192);
    assert_eq!(si.load_info.one_milli, 1500);

    let empty = SystemProbe { cpu_cores: 0, cpu_frequency_sum: 0, ..p };
    let si = st.build_system_info(empty, "linux".to_string(), "generic".to_string());
    assert_eq!(si.cpu_frequency, 0);
}
