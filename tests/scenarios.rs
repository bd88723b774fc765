use falconeri::errors::{FalconeridError, InternalError};
use falconeri::models::{DatumInput, DatumOwnershipError, Job};
use falconeri::rest_api::{DatumPatch, OutputFilePatch, OutputFilePost};
use falconeri::status::Status;
use falconeri::store::Db;

fn input(uri: &str, local_path: &str) -> DatumInput {
    DatumInput {
        uri: uri.to_string(),
        local_path: local_path.to_string(),
    }
}

fn one_input_each(n: usize) -> Vec<Vec<DatumInput>> {
    (0..n)
        .map(|i| vec![input(&format!("gs://in/{}", i), &format!("/pfs/in/{}", i))])
        .collect()
}

fn new_job(db: &mut Db, name: &str, max_runs: i32, inputs: Vec<Vec<DatumInput>>, now: i64) -> Job {
    let command = vec!["/bin/sh".to_string(), "-c".to_string(), "true".to_string()];
    db.create_job(
        &name.to_string(),
        &command,
        &"gs://out/".to_string(),
        &"{\"pipeline\":{\"name\":\"p\"}}".to_string(),
        max_runs,
        &inputs,
        now,
    )
    .unwrap()
}

fn s(x: &str) -> String {
    x.to_string()
}

fn job_status(db: &Db, id: u128) -> Status {
    db.find_job(id).unwrap().status
}

#[test]
fn happy_path_single_datum() {
    let mut db = Db::new();
    let job = new_job(&mut db, "job-a", 1, vec![vec![input("gs://in/a", "/pfs/in/a")]], 100);
    let (datum, files) = db.reserve_next_datum(job.id, &s("node"), &s("pod-a"), 110).unwrap().unwrap();
    assert_eq!(files.len(), 1);
    assert_eq!(files[0].uri, "gs://in/a");
    assert_eq!(files[0].local_path, "/pfs/in/a");
    let outputs = db
        .create_output_files(datum.id, &s("pod-a"), &vec![OutputFilePost { uri: s("gs://out/b") }], 120)
        .unwrap();
    assert_eq!(db.describe_job(job.id).unwrap().output_file_counts[0].status, Status::Running);
    assert_eq!(outputs.len(), 1);
    assert_eq!(outputs[0].status, Status::Running);
    let patches = vec![OutputFilePatch { id: outputs[0].id, status: Status::Done }];
    db.patch_output_files(datum.id, &s("pod-a"), &patches).unwrap();
    let d = db.patch_datum(datum.id, &s("pod-a"), &DatumPatch::done(s("copied")), 130).unwrap();
    assert_eq!(d.status, Status::Done);
    assert_eq!(d.attempted_run_count, 1);
    assert_eq!(job_status(&db, job.id), Status::Done);
    assert_eq!(db.output_files.len(), 1);
    assert_eq!(db.output_files[0].status, Status::Done);
    assert_eq!(db.output_files[0].uri, "gs://out/b");
}

#[test]
fn command_failure_with_retries_exhausted() {
    let mut db = Db::new();
    let job = new_job(&mut db, "job-b", 2, one_input_each(1), 0);
    let live_jobs = vec![s("job-b")];
    let live_pods = vec![s("pod-a")];
    let (d, _) = db.reserve_next_datum(job.id, &s("n"), &s("pod-a"), 10).unwrap().unwrap();
    assert_eq!(d.attempted_run_count, 1);
    let failed = DatumPatch::error(s("first try"), s("exit 1"), s("bt"));
    db.patch_datum(d.id, &s("pod-a"), &failed, 20).unwrap();
    assert_eq!(job_status(&db, job.id), Status::Running);
    db.check_running_jobs(&live_jobs, &live_pods, 30);
    assert_eq!(db.datums[0].status, Status::Ready);
    assert_eq!(db.datums[0].attempted_run_count, 1);
    let (d2, _) = db.reserve_next_datum(job.id, &s("n"), &s("pod-a"), 40).unwrap().unwrap();
    assert_eq!(d2.attempted_run_count, 2);
    let failed = DatumPatch::error(s("second try"), s("exit 1"), s("bt"));
    db.patch_datum(d2.id, &s("pod-a"), &failed, 50).unwrap();
    db.check_running_jobs(&live_jobs, &live_pods, 60);
    assert_eq!(db.datums[0].status, Status::Error);
    assert_eq!(db.datums[0].attempted_run_count, 2);
    assert_eq!(db.datums[0].output.as_deref(), Some("first trysecond try"));
    assert_eq!(job_status(&db, job.id), Status::Error);
}

#[test]
fn zombie_worker() {
    let mut db = Db::new();
    let job = new_job(&mut db, "job-c", 1, one_input_each(1), 0);
    let (d, _) = db.reserve_next_datum(job.id, &s("n"), &s("pod-a"), 10).unwrap().unwrap();
    db.check_running_jobs(&vec![s("job-c")], &vec![], 20);
    let described = db.describe_datum(d.id).unwrap();
    assert_eq!(described.datum.status, Status::Error);
    assert!(described
        .datum
        .error_message
        .unwrap()
        .contains("worker pod disappeared"));
    let r = db.patch_datum(d.id, &s("pod-a"), &DatumPatch::done(s("late")), 30);
    match r {
        Err(e) => assert_eq!(e.status_code(), 403),
        Ok(_) => panic!("a zombie worker patched its datum"),
    }
    assert_eq!(db.datums[0].status, Status::Error);
}

#[test]
fn vanished_kubernetes_job() {
    let mut db = Db::new();
    let job = new_job(&mut db, "job-d", 1, one_input_each(1), 0);
    db.check_running_jobs(&vec![], &vec![], 10 * 60);
    assert_eq!(job_status(&db, job.id), Status::Running);
    db.check_running_jobs(&vec![], &vec![], 16 * 60);
    assert_eq!(job_status(&db, job.id), Status::Error);
}

#[test]
fn parallel_reservation() {
    let mut db = Db::new();
    let job = new_job(&mut db, "job-e", 1, one_input_each(10), 0);
    let mut ids = vec![];
    for w in 0..10 {
        let pod = format!("pod-{}", w);
        let (d, files) = db.reserve_next_datum(job.id, &s("n"), &pod, 5).unwrap().unwrap();
        assert_eq!(d.pod_name.as_deref(), Some(pod.as_str()));
        assert_eq!(files.len(), 1);
        assert!(!ids.contains(&d.id));
        ids.push(d.id);
    }
    assert!(db.reserve_next_datum(job.id, &s("n"), &s("pod-x"), 6).unwrap().is_none());
    assert_eq!(
        db.reserve_next_datum(4242, &s("n"), &s("pod-x"), 6).unwrap_err(),
        FalconeridError::Internal(InternalError::JobNotFound)
    );
}

#[test]
fn retry_after_error() {
    let mut db = Db::new();
    let job = new_job(&mut db, "job-f", 1, one_input_each(10), 0);
    for w in 0..10 {
        let pod = format!("pod-{}", w);
        let (d, _) = db.reserve_next_datum(job.id, &s("n"), &pod, 5).unwrap().unwrap();
        let patch = if w == 3 {
            DatumPatch::error(s("o"), s("failed"), s("bt"))
        } else {
            DatumPatch::done(s("o"))
        };
        db.patch_datum(d.id, &pod, &patch, 6).unwrap();
    }
    assert_eq!(job_status(&db, job.id), Status::Error);
    let retried = db.retry_job(job.id, &s("job-f-retry"), 1, 7).unwrap();
    assert_ne!(retried.id, job.id);
    assert_eq!(retried.status, Status::Running);
    assert_eq!(retried.pipeline_spec, job.pipeline_spec);
    assert_eq!(retried.command, job.command);
    let counts = db.datum_status_counts(retried.id);
    assert_eq!(counts.len(), 1);
    assert_eq!(counts[0].status, Status::Ready);
    assert_eq!(counts[0].count, 10);
    assert_eq!(job_status(&db, job.id), Status::Error);
    let (d, files) = db.reserve_next_datum(retried.id, &s("n"), &s("p"), 8).unwrap().unwrap();
    assert_eq!(d.job_id, retried.id);
    assert_eq!(files[0].uri, "gs://in/0");
}

#[test]
fn retry_refused_while_running() {
    let mut db = Db::new();
    let job = new_job(&mut db, "job-g", 1, one_input_each(1), 0);
    assert_eq!(
        db.retry_job(job.id, &s("job-g-2"), 1, 1).unwrap_err(),
        FalconeridError::Internal(InternalError::JobNotFinished)
    );
    assert_eq!(
        db.retry_job(12345, &s("job-g-2"), 1, 1).unwrap_err(),
        FalconeridError::Internal(InternalError::JobNotFound)
    );
}

#[test]
fn job_creation_refusals() {
    let mut db = Db::new();
    new_job(&mut db, "dup", 1, one_input_each(1), 0);
    let command = vec![s("true")];
    let r = db.create_job(&s("dup"), &command, &s("gs://o/"), &s("{}"), 1, &one_input_each(1), 0);
    assert_eq!(r.unwrap_err(), FalconeridError::Internal(InternalError::DuplicateJobName));
    let r = db.create_job(&s("x"), &command, &s("gs://o/"), &s("{}"), 0, &one_input_each(1), 0);
    assert_eq!(r.unwrap_err(), FalconeridError::Internal(InternalError::InvalidRunCount));
    let r = db.create_job(&s("x"), &command, &s("gs://o/"), &s("{}"), 1, &vec![vec![]], 0);
    assert_eq!(r.unwrap_err(), FalconeridError::Internal(InternalError::EmptyDatum));
    assert_eq!(db.jobs.len(), 1);
    assert_eq!(db.datums.len(), 1);
    let r = db.create_job(&s("empty"), &command, &s("gs://o/"), &s("{}"), 1, &vec![], 0);
    assert_eq!(r.unwrap().status, Status::Running);
    db.next_id = u128::MAX - 2;
    let r = db.create_job(&s("big"), &command, &s("gs://o/"), &s("{}"), 1, &one_input_each(1), 0);
    assert_eq!(r.unwrap_err(), FalconeridError::Internal(InternalError::IdsExhausted));
}

#[test]
fn pipeline_spec_round_trip() {
    let mut db = Db::new();
    let job = new_job(&mut db, "job-h", 1, one_input_each(2), 0);
    let fetched = db.find_job(job.id).unwrap();
    assert_eq!(fetched.pipeline_spec, "{\"pipeline\":{\"name\":\"p\"}}");
    let by_name = db.find_job_by_name(&s("job-h")).unwrap();
    assert_eq!(by_name.id, job.id);
    assert_eq!(db.list_jobs().len(), 1);
    assert!(db.find_job_by_name(&s("nope")).is_err());
}

#[test]
fn done_output_round_trip() {
    let mut db = Db::new();
    let job = new_job(&mut db, "job-i", 1, vec![vec![input("gs://in/a", "/a"), input("gs://in/b", "/b")]], 0);
    let (d, _) = db.reserve_next_datum(job.id, &s("n"), &s("p"), 1).unwrap().unwrap();
    db.patch_datum(d.id, &s("p"), &DatumPatch::done(s("hello\nworld")), 2).unwrap();
    let described = db.describe_datum(d.id).unwrap();
    assert_eq!(described.datum.output.as_deref(), Some("hello\nworld"));
    assert_eq!(described.input_files.len(), 2);
    assert_eq!(described.input_files[1].uri, "gs://in/b");
    assert!(db.describe_datum(999).is_err());
}

#[test]
fn output_files_counted_after_patch() {
    let mut db = Db::new();
    let job = new_job(&mut db, "job-j", 1, one_input_each(2), 0);
    let (d, _) = db.reserve_next_datum(job.id, &s("n"), &s("p"), 1).unwrap().unwrap();
    let posts = vec![OutputFilePost { uri: s("gs://out/1") }, OutputFilePost { uri: s("gs://out/2") }];
    let files = db.create_output_files(d.id, &s("p"), &posts, 2).unwrap();
    let patches = vec![
        OutputFilePatch { id: files[0].id, status: Status::Done },
        OutputFilePatch { id: files[1].id, status: Status::Done },
    ];
    db.patch_output_files(d.id, &s("p"), &patches).unwrap();
    let done = db.output_files.iter().filter(|f| f.status == Status::Done && f.datum_id == d.id).count();
    assert_eq!(done, 2);
    let described = db.describe_job(job.id).unwrap();
    assert_eq!(described.running_datums.len(), 1);
    assert_eq!(described.datum_status_counts.len(), 2);
    assert_eq!(described.datum_status_counts[0].status, Status::Ready);
    assert_eq!(described.datum_status_counts[1].status, Status::Running);
    assert_eq!(described.output_file_counts.len(), 1);
    assert_eq!(described.output_file_counts[0].status, Status::Done);
    assert_eq!(described.output_file_counts[0].count, 2);
    let bad = vec![OutputFilePatch { id: files[0].id, status: Status::Ready }];
    assert_eq!(
        db.patch_output_files(d.id, &s("p"), &bad).unwrap_err(),
        FalconeridError::Internal(InternalError::InvalidOutputFilePatch)
    );
}

#[test]
fn foreign_pod_is_forbidden() {
    let mut db = Db::new();
    let job = new_job(&mut db, "job-k", 1, one_input_each(1), 0);
    let (d, _) = db.reserve_next_datum(job.id, &s("n"), &s("owner"), 1).unwrap().unwrap();
    let before = format!("{:?}", db);
    let r = db.patch_datum(d.id, &s("intruder"), &DatumPatch::done(s("x")), 2);
    assert_eq!(
        r.unwrap_err(),
        FalconeridError::Forbidden(DatumOwnershipError::NotOwned {
            datum_id: d.id,
            expected_pod: s("intruder"),
            actual_pod: Some(s("owner")),
        })
    );
    assert_eq!(format!("{:?}", db), before);
    let r = db.create_output_files(d.id, &s("intruder"), &vec![], 2);
    assert_eq!(r.unwrap_err().status_code(), 403);
    let r = db.patch_datum(777, &s("owner"), &DatumPatch::done(s("x")), 2);
    assert_eq!(
        r.unwrap_err(),
        FalconeridError::Forbidden(DatumOwnershipError::NotFound(777))
    );
    let invalid = DatumPatch {
        status: Status::Done,
        output: s("x"),
        error_message: Some(s("e")),
        backtrace: None,
    };
    let r = db.patch_datum(d.id, &s("owner"), &invalid, 2);
    assert_eq!(r.unwrap_err(), FalconeridError::Internal(InternalError::InvalidDatumPatch));
    assert_eq!(FalconeridError::Internal(InternalError::InvalidDatumPatch).status_code(), 500);
    assert_eq!(format!("{:?}", db), before);
}

#[test]
fn babysitter_twice_is_babysitter_once() {
    let mut db = Db::new();
    let a = new_job(&mut db, "job-l", 2, one_input_each(3), 0);
    let b = new_job(&mut db, "job-m", 1, one_input_each(1), 0);
    let (d1, _) = db.reserve_next_datum(a.id, &s("n"), &s("gone"), 1).unwrap().unwrap();
    let (d2, _) = db.reserve_next_datum(a.id, &s("n"), &s("alive"), 1).unwrap().unwrap();
    db.create_output_files(d1.id, &s("gone"), &vec![OutputFilePost { uri: s("gs://o/x") }], 2).unwrap();
    db.patch_datum(d2.id, &s("alive"), &DatumPatch::error(s("o"), s("e"), s("b")), 3).unwrap();
    let _ = b;
    let live_jobs = vec![s("job-l")];
    let live_pods = vec![s("alive")];
    db.check_running_jobs(&live_jobs, &live_pods, 2000);
    let once = format!("{:?}", db);
    db.check_running_jobs(&live_jobs, &live_pods, 2000);
    assert_eq!(format!("{:?}", db), once);
    assert_eq!(job_status(&db, b.id), Status::Error);
    assert_eq!(db.output_files.len(), 0);
}

#[test]
fn counters_stay_in_bounds_and_grow() {
    let mut db = Db::new();
    let job = new_job(&mut db, "job-n", 3, one_input_each(2), 0);
    let live = vec![s("job-n")];
    let mut last = vec![0; 2];
    for round in 0..4 {
        if let Some((d, _)) = db.reserve_next_datum(job.id, &s("n"), &s("p"), round).unwrap() {
            db.patch_datum(d.id, &s("p"), &DatumPatch::error(s("o"), s("e"), s("b")), round).unwrap();
        }
        db.check_running_jobs(&live, &vec![s("p")], round);
        for (k, d) in db.datums.iter().enumerate() {
            assert!(d.attempted_run_count >= last[k]);
            assert!(0 <= d.attempted_run_count && d.attempted_run_count <= d.maximum_allowed_run_count);
            if d.status == Status::Running {
                assert!(d.pod_name.is_some());
            }
            last[k] = d.attempted_run_count;
        }
    }
}

#[test]
fn final_failure_with_retryable_failure_ends_job() {
    let mut db = Db::new();
    let job = new_job(&mut db, "job-o", 2, one_input_each(2), 0);
    let (a, _) = db.reserve_next_datum(job.id, &s("n"), &s("pa"), 1).unwrap().unwrap();
    let (b, _) = db.reserve_next_datum(job.id, &s("n"), &s("pb"), 1).unwrap().unwrap();
    db.patch_datum(a.id, &s("pa"), &DatumPatch::error(s("o"), s("e"), s("b")), 2).unwrap();
    assert_eq!(job_status(&db, job.id), Status::Running);
    db.check_running_jobs(&vec![s("job-o")], &vec![s("pb")], 3);
    let (a2, _) = db.reserve_next_datum(job.id, &s("n"), &s("pa"), 4).unwrap().unwrap();
    assert_eq!(a2.id, a.id);
    db.patch_datum(a2.id, &s("pa"), &DatumPatch::error(s("o"), s("e"), s("b")), 5).unwrap();
    assert_eq!(job_status(&db, job.id), Status::Running);
    db.patch_datum(b.id, &s("pb"), &DatumPatch::done(s("ok")), 6).unwrap();
    assert_eq!(job_status(&db, job.id), Status::Error);
}

#[test]
fn zombie_of_failed_job_is_swept() {
    let mut db = Db::new();
    let job = new_job(&mut db, "job-p", 1, one_input_each(2), 0);
    let (d, _) = db.reserve_next_datum(job.id, &s("n"), &s("gone"), 1).unwrap().unwrap();
    db.check_running_jobs(&vec![], &vec![s("gone")], 20 * 60);
    assert_eq!(job_status(&db, job.id), Status::Error);
    db.check_running_jobs(&vec![], &vec![], 21 * 60);
    assert_eq!(db.describe_datum(d.id).unwrap().datum.status, Status::Error);
}
