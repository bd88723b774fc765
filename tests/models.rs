use falconeri::models::{Datum, DatumStatusCount, InputFile, Job};
use falconeri::rest_api::{DatumDescribeResponse, JobDescribeResponse};
use falconeri::status::Status;

#[test]
fn render_template() {
    let job = Job::factory(1, 1_700_000_000);
    let datum = Datum::factory(&job, 2, 1_700_000_000);
    let input_file = InputFile::factory(&datum, 3, 1_700_000_000);
    let input_files = vec![input_file];
    let params = DatumDescribeResponse { datum, input_files };
    assert_eq!(params.input_files.len(), 1);
    assert_eq!(params.input_files[0].datum_id, params.datum.id);
    assert_eq!(params.input_files[0].job_id, job.id);
    assert_eq!(params.input_files[0].uri, "gs://example-bucket/input/file.csv");
    assert_eq!(params.input_files[0].local_path, "/pfs/input/file.csv");
    assert_eq!(params.datum.status, Status::Running);
}

#[test]
fn describe_render_template() {
    let job = Job::factory(1, 1_700_000_000);
    let dsc = |status: Status, count: u64, rerunable_count: u64| DatumStatusCount {
        status,
        count,
        rerunable_count,
    };
    let datum_status_counts = vec![
        dsc(Status::Ready, 1, 0),
        dsc(Status::Running, 1, 0),
        dsc(Status::Error, 2, 1),
    ];
    let mut running_datum = Datum::factory(&job, 2, 1_700_000_000);
    running_datum.status = Status::Running;
    let running_datums = vec![running_datum];
    let mut error_datum = Datum::factory(&job, 3, 1_700_000_000);
    error_datum.status = Status::Error;
    error_datum.error_message = Some("Ooops.".to_owned());
    let error_datums = vec![error_datum];
    let params = JobDescribeResponse {
        job,
        datum_status_counts,
        running_datums,
        error_datums,
        output_file_counts: vec![],
    };
    assert_eq!(params.datum_status_counts.len(), 3);
    assert_eq!(params.running_datums[0].job_id, params.job.id);
    assert_eq!(params.error_datums[0].error_message.as_deref(), Some("Ooops."));
    assert_ne!(params.running_datums[0].id, params.error_datums[0].id);
}

#[test]
fn factories_use_given_ids() {
    let job = Job::factory(10, 5);
    let a = Datum::factory(&job, 11, 6);
    let b = Datum::factory(&job, 12, 7);
    assert_ne!(a.id, b.id);
    assert_eq!(a.id, 11);
    assert_eq!(a.created_at, 6);
    assert_eq!(a.job_id, 10);
    assert_eq!(job.created_at, 5);
    assert_eq!(a.attempted_run_count, 0);
    assert_eq!(a.maximum_allowed_run_count, 1);
    assert_eq!(job.command, vec!["true".to_string()]);
    assert_eq!(job.status, Status::Running);
}

#[test]
fn status_has_finished() {
    assert!(!Status::Ready.has_finished());
    assert!(!Status::Running.has_finished());
    assert!(Status::Done.has_finished());
    assert!(Status::Error.has_finished());
    assert!(Status::Cancelled.has_finished());
    assert_eq!(Status::Cancelled.as_str(), "cancelled");
    assert_eq!(Status::Running.as_str(), "running");
}

#[test]
fn datum_is_rerunable() {
    let job = Job::factory(1, 0);
    let mut d = Datum::factory(&job, 2, 0);
    d.maximum_allowed_run_count = 2;
    d.attempted_run_count = 1;
    d.status = Status::Error;
    assert!(d.is_rerunable());
    d.attempted_run_count = 2;
    assert!(!d.is_rerunable());
    d.attempted_run_count = 1;
    d.status = Status::Done;
    assert!(!d.is_rerunable());
}
