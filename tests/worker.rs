use falconeri::connect_via::ConnectVia;
use falconeri::models::{Job, OutputFile};
use falconeri::rest_api::DatumPatch;
use falconeri::status::Status;
use falconeri::worker::{
    output_file_patches, output_file_posts, worker_step, WorkerAction, WorkerEvent, WorkerState,
};

#[test]
fn worker_loop_decisions() {
    assert_eq!(
        worker_step(WorkerState::FetchingJob, WorkerEvent::JobFetched(Status::Running)),
        Some((WorkerState::Reserving, WorkerAction::ReserveDatum))
    );
    assert_eq!(
        worker_step(WorkerState::FetchingJob, WorkerEvent::JobFetched(Status::Done)),
        Some((WorkerState::Finished, WorkerAction::Exit))
    );
    assert_eq!(
        worker_step(WorkerState::Reserving, WorkerEvent::DatumReserved),
        Some((WorkerState::Processing, WorkerAction::ProcessDatum))
    );
    assert_eq!(
        worker_step(WorkerState::Reserving, WorkerEvent::NoDatumAvailable),
        Some((WorkerState::Rechecking, WorkerAction::FetchJob))
    );
    assert_eq!(
        worker_step(WorkerState::Rechecking, WorkerEvent::JobFetched(Status::Running)),
        Some((WorkerState::FetchingJob, WorkerAction::SleepThenFetchJob(30)))
    );
    assert_eq!(
        worker_step(WorkerState::Rechecking, WorkerEvent::JobFetched(Status::Error)),
        Some((WorkerState::Finished, WorkerAction::Exit))
    );
    assert_eq!(
        worker_step(WorkerState::Processing, WorkerEvent::DatumReported),
        Some((WorkerState::FetchingJob, WorkerAction::FetchJob))
    );
    assert_eq!(worker_step(WorkerState::Finished, WorkerEvent::DatumReported), None);
}

#[test]
fn datum_patches() {
    let done = DatumPatch::done("out".to_string());
    assert!(done.is_done_patch());
    assert!(!done.is_error_patch());
    let err = DatumPatch::error("out".to_string(), "boom".to_string(), "bt".to_string());
    assert!(err.is_error_patch());
    assert_eq!(err.error_message.as_deref(), Some("boom"));
    assert_eq!(err.backtrace.as_deref(), Some("bt"));
}

#[test]
fn upload_records() {
    let posts = output_file_posts("gs://b/out", &vec!["x".to_string(), "d/y".to_string()]);
    assert_eq!(posts.len(), 2);
    assert_eq!(posts[0].uri, "gs://b/out/x");
    assert_eq!(posts[1].uri, "gs://b/out/d/y");
    let job = Job::factory(1, 0);
    let files = vec![OutputFile {
        id: 7,
        created_at: 0,
        datum_id: 1,
        job_id: job.id,
        uri: "gs://b/out/x".to_string(),
        status: Status::Running,
    }];
    let ok = output_file_patches(&files, true);
    assert_eq!(ok[0].id, 7);
    assert_eq!(ok[0].status, Status::Done);
    let failed = output_file_patches(&files, false);
    assert_eq!(failed[0].status, Status::Error);
}

#[test]
fn retry_policies() {
    assert!(ConnectVia::Cluster.should_retry_by_default());
    assert!(!ConnectVia::Proxy.should_retry_by_default());
    let p = ConnectVia::Cluster.retry_policy();
    assert!(p.retry);
    assert_eq!(p.min_delay_ms, 500);
    assert!(p.jitter);
    assert!(!ConnectVia::Proxy.retry_policy().retry);
}
