//! The persisted state of jobs, datums and files, and the transactions that
//! the controller, the workers and the babysitter run against it.
//!
//! Each method is one transaction: it either applies all of its changes or,
//! when it returns an error, none of them.

use vstd::prelude::*;

use crate::errors::{FalconeridError, InternalError};
use crate::models::{
    copy_strings, Datum, DatumInput, DatumOwnershipError, InputFile, Job, OutputFile,
};
use crate::rest_api::{DatumPatch, OutputFilePatch, OutputFilePost};
use crate::status::Status;

verus! {

/// Does some datum of `ds` belong to the job `job_id`?
pub open spec fn has_datums(ds: Seq<Datum>, job_id: u128) -> bool {
    exists|k: int| 0 <= k < ds.len() && #[trigger] ds[k].job_id == job_id
}

/// Has every datum of the job `job_id` in `ds` finished successfully?
pub open spec fn all_done(ds: Seq<Datum>, job_id: u128) -> bool {
    forall|k: int| 0 <= k < ds.len() && #[trigger] ds[k].job_id == job_id ==> ds[k].status
        == Status::Done
}

/// Is this datum waiting or running?
pub open spec fn is_active(d: Datum) -> bool {
    d.status == Status::Ready || d.status == Status::Running
}

/// Has this datum failed for good: errored with no attempt left?
pub open spec fn is_final_failure(d: Datum) -> bool {
    d.status == Status::Error && d.attempted_run_count >= d.maximum_allowed_run_count
}

/// Is some datum of the job `job_id` in `ds` waiting or running?
pub open spec fn has_active(ds: Seq<Datum>, job_id: u128) -> bool {
    exists|k: int| 0 <= k < ds.len() && #[trigger] ds[k].job_id == job_id && is_active(ds[k])
}

/// Has some datum of the job `job_id` in `ds` failed for good?
pub open spec fn has_final_failure(ds: Seq<Datum>, job_id: u128) -> bool {
    exists|k: int| 0 <= k < ds.len() && #[trigger] ds[k].job_id == job_id && is_final_failure(ds[k])
}

/// The status a job with status `current` should have, given its datums:
/// unchanged while it has no datums or some datum waits or runs; `Error` once
/// some datum failed for good; `Done` once every datum is done; unchanged
/// otherwise (a datum that failed with attempts left may still run again).
pub open spec fn settled_status(ds: Seq<Datum>, job_id: u128, current: Status) -> Status {
    if !has_datums(ds, job_id) || has_active(ds, job_id) {
        current
    } else if has_final_failure(ds, job_id) {
        Status::Error
    } else if all_done(ds, job_id) {
        Status::Done
    } else {
        current
    }
}

/// How the status of the job `job_id` agrees with its datums: it is `Done`
/// exactly when it has datums and all are done, and it is `Error` whenever
/// some datum failed for good and none waits or runs. (A job may also be
/// `Error` because its Kubernetes job vanished.)
pub open spec fn job_status_wf(ds: Seq<Datum>, job_id: u128, status: Status) -> bool {
    &&& (status == Status::Done <==> (has_datums(ds, job_id) && all_done(ds, job_id)))
    &&& (has_final_failure(ds, job_id) && !has_active(ds, job_id) ==> status == Status::Error)
}

/// A job whose status agrees with the datums `ds`.
pub open spec fn job_wf(ds: Seq<Datum>, job: Job) -> bool {
    job_status_wf(ds, job.id, job.status)
}

/// A job with a waiting, running or failed datum has datums.
pub proof fn lemma_has_datums_of(ds: Seq<Datum>, job_id: u128)
    ensures
        has_active(ds, job_id) ==> has_datums(ds, job_id),
        has_final_failure(ds, job_id) ==> has_datums(ds, job_id),
{
    if has_active(ds, job_id) {
        let k = choose|k: int| 0 <= k < ds.len() && #[trigger] ds[k].job_id == job_id && is_active(ds[k]);
        assert(ds[k].job_id == job_id);
    }
    if has_final_failure(ds, job_id) {
        let k = choose|k: int|
            0 <= k < ds.len() && #[trigger] ds[k].job_id == job_id && is_final_failure(ds[k]);
        assert(ds[k].job_id == job_id);
    }
}

/// The invariant of each stored datum: its attempt counter stays within its
/// bound, a running datum names its pod and counts its attempt, and a ready
/// datum has an attempt left.
pub open spec fn datum_wf(d: Datum) -> bool {
    &&& 0 <= d.attempted_run_count <= d.maximum_allowed_run_count
    &&& d.status == Status::Running ==> d.pod_name is Some && d.attempted_run_count >= 1
    &&& d.status == Status::Ready ==> d.attempted_run_count < d.maximum_allowed_run_count
}

/// Does every datum of `a` stay in `b`, at its place, with an attempt
/// counter that has not gone down?
pub open spec fn counts_monotone(a: Seq<Datum>, b: Seq<Datum>) -> bool {
    &&& a.len() <= b.len()
    &&& forall|k: int|
        0 <= k < a.len() ==> (#[trigger] b[k]).id == a[k].id && a[k].attempted_run_count
            <= b[k].attempted_run_count
}

/// Does the input file `f` belong to a stored datum of its job?
pub open spec fn input_file_wf(ds: Seq<Datum>, f: InputFile) -> bool {
    exists|k: int| 0 <= k < ds.len() && #[trigger] ds[k].id == f.datum_id && ds[k].job_id == f.job_id
}

/// Does the output file `f` belong to a stored datum of its job that has
/// been reserved at least once?
pub open spec fn output_file_wf(ds: Seq<Datum>, f: OutputFile) -> bool {
    exists|k: int|
        0 <= k < ds.len() && #[trigger] ds[k].id == f.datum_id && ds[k].job_id == f.job_id
            && ds[k].attempted_run_count >= 1
}

/// Does some input file of `fs` belong to the datum `datum_id`?
#[verifier::opaque]
pub open spec fn datum_has_input(fs: Seq<InputFile>, datum_id: u128) -> bool {
    exists|i: int| 0 <= i < fs.len() && (#[trigger] fs[i]).datum_id == datum_id
}

/// Were the input files of each datum all created at the same time?
#[verifier::opaque]
pub open spec fn inputs_created_together(fs: Seq<InputFile>) -> bool {
    forall|i: int, j: int|
        0 <= i < fs.len() && 0 <= j < fs.len() && (#[trigger] fs[i]).datum_id == (
        #[trigger] fs[j]).datum_id ==> fs[i].created_at == fs[j].created_at
}

/// Are the input files `fs` in order of creation time?
pub open spec fn sorted_by_creation(fs: Seq<InputFile>) -> bool {
    forall|i: int, j: int| 0 <= i < j < fs.len() ==> (#[trigger] fs[i]).created_at <= (#[trigger] fs[j]).created_at
}

/// Does `b` keep every datum of `a` at its place, with the same identifier
/// and job and an attempt counter that has not gone down?
pub open spec fn datums_extended(a: Seq<Datum>, b: Seq<Datum>) -> bool {
    &&& a.len() <= b.len()
    &&& forall|k: int|
        0 <= k < a.len() ==> (#[trigger] b[k]).id == a[k].id && b[k].job_id == a[k].job_id
            && a[k].attempted_run_count <= b[k].attempted_run_count
}

/// Files that belong to datums keep belonging to them as the datums are
/// updated in place or more are added.
pub proof fn lemma_files_still_belong(
    a: Seq<Datum>,
    b: Seq<Datum>,
    fi: Seq<InputFile>,
    fo: Seq<OutputFile>,
)
    requires
        datums_extended(a, b),
        forall|i: int| 0 <= i < fi.len() ==> input_file_wf(a, #[trigger] fi[i]),
        forall|i: int| 0 <= i < fo.len() ==> output_file_wf(a, #[trigger] fo[i]),
    ensures
        forall|i: int| 0 <= i < fi.len() ==> input_file_wf(b, #[trigger] fi[i]),
        forall|i: int| 0 <= i < fo.len() ==> output_file_wf(b, #[trigger] fo[i]),
{
    assert forall|i: int| 0 <= i < fi.len() implies input_file_wf(b, #[trigger] fi[i]) by {
        let k = choose|k: int|
            0 <= k < a.len() && #[trigger] a[k].id == fi[i].datum_id && a[k].job_id == fi[i].job_id;
        assert(b[k].id == a[k].id);
    }
    assert forall|i: int| 0 <= i < fo.len() implies output_file_wf(b, #[trigger] fo[i]) by {
        let k = choose|k: int|
            0 <= k < a.len() && #[trigger] a[k].id == fo[i].datum_id && a[k].job_id == fo[i].job_id
                && a[k].attempted_run_count >= 1;
        assert(b[k].id == a[k].id);
    }
}

/// The input files of the datum `datum_id`, in the order they were stored.
pub open spec fn files_of(fs: Seq<InputFile>, datum_id: u128) -> Seq<InputFile>
    decreases fs.len(),
{
    if fs.len() == 0 {
        Seq::empty()
    } else {
        let rest = files_of(fs.drop_last(), datum_id);
        if fs.last().datum_id == datum_id {
            rest.push(fs.last())
        } else {
            rest
        }
    }
}

/// Is `i` the position of the first ready datum of the job `job_id`?
pub open spec fn is_first_ready(ds: Seq<Datum>, job_id: u128, i: int) -> bool {
    &&& 0 <= i < ds.len()
    &&& ds[i].job_id == job_id
    &&& ds[i].status == Status::Ready
    &&& forall|m: int|
        0 <= m < i ==> !(#[trigger] ds[m].job_id == job_id && ds[m].status == Status::Ready)
}

/// Does the job `job_id` have a ready datum?
pub open spec fn has_ready(ds: Seq<Datum>, job_id: u128) -> bool {
    exists|k: int| 0 <= k < ds.len() && #[trigger] ds[k].job_id == job_id && ds[k].status == Status::Ready
}

/// Is the job `job_id` stored and running?
pub open spec fn job_is_running(jobs: Seq<Job>, job_id: u128) -> bool {
    exists|j: int| 0 <= j < jobs.len() && #[trigger] jobs[j].id == job_id && jobs[j].status == Status::Running
}

/// The datum `d` once reserved by the pod `pod` on the node `node` at `now`:
/// running, owned by that pod, with one more attempt counted.
pub open spec fn reserved(d: Datum, node: String, pod: String, now: i64) -> Datum {
    Datum {
        status: Status::Running,
        pod_name: Some(pod),
        node_name: Some(node),
        attempted_run_count: (d.attempted_run_count + 1) as i32,
        updated_at: now,
        ..d
    }
}

/// Do two datum tables hold the same datums, each with the same identifier
/// and job, in the same order?
pub open spec fn same_datum_ids(a: Seq<Datum>, b: Seq<Datum>) -> bool {
    &&& a.len() == b.len()
    &&& forall|k: int| 0 <= k < a.len() ==> (#[trigger] a[k]).id == b[k].id && a[k].job_id == b[k].job_id
}

/// A datum table in which only datums of the job `job_id` changed status.
pub open spec fn status_changed_only_in(a: Seq<Datum>, b: Seq<Datum>, job_id: u128) -> bool {
    status_changed_only_where(a, b, |id: u128| id == job_id)
}

/// A datum table in which only datums of the jobs picked by `changed` changed
/// status or attempt counts.
pub open spec fn status_changed_only_where(
    a: Seq<Datum>,
    b: Seq<Datum>,
    changed: spec_fn(u128) -> bool,
) -> bool {
    &&& same_datum_ids(a, b)
    &&& forall|k: int|
        0 <= k < a.len() && !changed((#[trigger] a[k]).job_id) ==> a[k].status == b[k].status
            && a[k].attempted_run_count == b[k].attempted_run_count
            && a[k].maximum_allowed_run_count == b[k].maximum_allowed_run_count
}

/// Whether a job is done depends only on its own datums.
pub proof fn lemma_other_jobs_unchanged(a: Seq<Datum>, b: Seq<Datum>, job_id: u128, other: u128)
    requires
        status_changed_only_in(a, b, job_id),
        other != job_id,
    ensures
        has_datums(a, other) == has_datums(b, other),
        all_done(a, other) == all_done(b, other),
        has_active(a, other) == has_active(b, other),
        has_final_failure(a, other) == has_final_failure(b, other),
{
    lemma_unchanged_jobs(a, b, |id: u128| id == job_id, other);
}

/// Whether a job is done depends only on its own datums.
pub proof fn lemma_unchanged_jobs(
    a: Seq<Datum>,
    b: Seq<Datum>,
    changed: spec_fn(u128) -> bool,
    other: u128,
)
    requires
        status_changed_only_where(a, b, changed),
        !changed(other),
    ensures
        has_datums(a, other) == has_datums(b, other),
        all_done(a, other) == all_done(b, other),
        has_active(a, other) == has_active(b, other),
        has_final_failure(a, other) == has_final_failure(b, other),
{
    if has_active(a, other) {
        let k = choose|k: int| 0 <= k < a.len() && #[trigger] a[k].job_id == other && is_active(a[k]);
        assert(b[k].job_id == other);
    }
    if has_active(b, other) {
        let k = choose|k: int| 0 <= k < b.len() && #[trigger] b[k].job_id == other && is_active(b[k]);
        assert(a[k].job_id == other);
    }
    if has_final_failure(a, other) {
        let k = choose|k: int|
            0 <= k < a.len() && #[trigger] a[k].job_id == other && is_final_failure(a[k]);
        assert(b[k].job_id == other);
    }
    if has_final_failure(b, other) {
        let k = choose|k: int|
            0 <= k < b.len() && #[trigger] b[k].job_id == other && is_final_failure(b[k]);
        assert(a[k].job_id == other);
    }
    if has_datums(a, other) {
        let k = choose|k: int| 0 <= k < a.len() && #[trigger] a[k].job_id == other;
        assert(b[k].job_id == other);
    }
    if has_datums(b, other) {
        let k = choose|k: int| 0 <= k < b.len() && #[trigger] b[k].job_id == other;
        assert(a[k].job_id == other);
    }
    if !all_done(a, other) {
        let k = choose|k: int|
            0 <= k < a.len() && #[trigger] a[k].job_id == other && a[k].status != Status::Done;
        assert(b[k].job_id == other);
    }
    if !all_done(b, other) {
        let k = choose|k: int|
            0 <= k < b.len() && #[trigger] b[k].job_id == other && b[k].status != Status::Done;
        assert(a[k].job_id == other);
    }
}

/// A job none of whose datums became done, stopped waiting or running, or
/// newly failed for good cannot have become all done, idle, or failed.
pub proof fn lemma_no_new_done(a: Seq<Datum>, b: Seq<Datum>, job_id: u128)
    requires
        same_datum_ids(a, b),
        forall|k: int|
            0 <= k < a.len() ==> {
                &&& ((#[trigger] b[k]).status == Status::Done ==> a[k].status == Status::Done)
                &&& (is_active(a[k]) ==> is_active(b[k]))
                &&& (is_final_failure(b[k]) ==> is_final_failure(a[k]))
            },
    ensures
        has_datums(a, job_id) == has_datums(b, job_id),
        all_done(b, job_id) ==> all_done(a, job_id),
        has_active(a, job_id) ==> has_active(b, job_id),
        has_final_failure(b, job_id) ==> has_final_failure(a, job_id),
{
    if has_datums(a, job_id) {
        let k = choose|k: int| 0 <= k < a.len() && #[trigger] a[k].job_id == job_id;
        assert(b[k].job_id == job_id);
    }
    if has_datums(b, job_id) {
        let k = choose|k: int| 0 <= k < b.len() && #[trigger] b[k].job_id == job_id;
        assert(a[k].job_id == job_id);
    }
    if all_done(b, job_id) {
        assert forall|k: int| 0 <= k < a.len() && #[trigger] a[k].job_id == job_id implies a[k].status == Status::Done by {
            assert(b[k].job_id == job_id);
        }
    }
    if has_active(a, job_id) {
        let k = choose|k: int| 0 <= k < a.len() && #[trigger] a[k].job_id == job_id && is_active(a[k]);
        assert(b[k].job_id == job_id);
    }
    if has_final_failure(b, job_id) {
        let k = choose|k: int|
            0 <= k < b.len() && #[trigger] b[k].job_id == job_id && is_final_failure(b[k]);
        assert(a[k].job_id == job_id);
    }
}

/// Is the job `job_id` stored?
pub open spec fn job_exists(jobs: Seq<Job>, job_id: u128) -> bool {
    exists|j: int| 0 <= j < jobs.len() && #[trigger] jobs[j].id == job_id
}

/// What a reservation for the job `job_id` by `pod` on `node` at `now` does:
/// refused if the job is not stored; with the job running and a ready datum,
/// the first ready datum is reserved and returned with its input files;
/// otherwise nothing changes.
pub open spec fn reservation(
    pre: Db,
    post: Db,
    job_id: u128,
    node: String,
    pod: String,
    now: i64,
    r: Result<Option<(Datum, Vec<InputFile>)>, FalconeridError>,
) -> bool {
    &&& post.jobs == pre.jobs
    &&& post.input_files == pre.input_files
    &&& post.output_files == pre.output_files
    &&& post.next_id == pre.next_id
    &&& match r {
        Err(e) => {
            &&& e == FalconeridError::Internal(InternalError::JobNotFound)
            &&& !job_exists(pre.jobs@, job_id)
            &&& post.datums == pre.datums
        },
        Ok(None) => {
            &&& job_exists(pre.jobs@, job_id)
            &&& post.datums == pre.datums
            &&& !(job_is_running(pre.jobs@, job_id) && has_ready(pre.datums@, job_id))
        },
        Ok(Some((d, files))) => {
            &&& job_is_running(pre.jobs@, job_id)
            &&& exists|i: int|
                #[trigger] is_first_ready(pre.datums@, job_id, i) && post.datums@ == pre.datums@.update(
                    i,
                    reserved(pre.datums@[i], node, pod, now),
                ) && d == post.datums@[i]
            &&& files@ == files_of(pre.input_files@, d.id)
            &&& sorted_by_creation(files@)
        },
    }
}

/// The job `job` once its status is settled against the datums `ds` at
/// `now`.
pub open spec fn settle_job(job: Job, ds: Seq<Datum>, now: i64) -> Job {
    let s = settled_status(ds, job.id, job.status);
    if s == job.status {
        job
    } else {
        Job { status: s, updated_at: now, ..job }
    }
}

/// The jobs `jobs` once the status of the job `job_id` is settled against the
/// datums `ds` at `now`.
pub open spec fn settle_jobs_of(jobs: Seq<Job>, job_id: u128, ds: Seq<Datum>, now: i64) -> Seq<Job> {
    jobs.map(|j: int, job: Job| if job.id == job_id { settle_job(job, ds, now) } else { job })
}

/// A settled job agrees with its datums, provided it was not marked done
/// while some datum was not.
pub proof fn lemma_settled_done(ds: Seq<Datum>, job_id: u128, current: Status)
    requires
        current == Status::Done ==> has_datums(ds, job_id) && all_done(ds, job_id),
    ensures
        job_status_wf(ds, job_id, settled_status(ds, job_id, current)),
{
    lemma_has_datums_of(ds, job_id);
    if has_active(ds, job_id) {
        let k = choose|k: int| 0 <= k < ds.len() && #[trigger] ds[k].job_id == job_id && is_active(ds[k]);
        assert(ds[k].status != Status::Done);
    }
    if has_final_failure(ds, job_id) {
        let k = choose|k: int|
            0 <= k < ds.len() && #[trigger] ds[k].job_id == job_id && is_final_failure(ds[k]);
        assert(ds[k].status != Status::Done);
    }
}

/// Two stored jobs with the same identifier stand at the same position.
pub proof fn lemma_unique_job_ids(jobs: Seq<Job>, a: int, b: int)
    requires
        forall|x: int, y: int|
            0 <= x < y < jobs.len() ==> (#[trigger] jobs[x]).id != (#[trigger] jobs[y]).id,
        0 <= a < jobs.len(),
        0 <= b < jobs.len(),
        jobs[a].id == jobs[b].id,
    ensures
        a == b,
{
    if a < b {
        assert(jobs[a].id != jobs[b].id);
    } else if b < a {
        assert(jobs[b].id != jobs[a].id);
    }
}

/// Two stored datums with the same identifier stand at the same position.
pub proof fn lemma_unique_datum_ids(ds: Seq<Datum>, a: int, b: int)
    requires
        forall|x: int, y: int|
            0 <= x < y < ds.len() ==> (#[trigger] ds[x]).id != (#[trigger] ds[y]).id,
        0 <= a < ds.len(),
        0 <= b < ds.len(),
        ds[a].id == ds[b].id,
    ensures
        a == b,
{
    if a < b {
        assert(ds[a].id != ds[b].id);
    } else if b < a {
        assert(ds[b].id != ds[a].id);
    }
}

/// The position of the datum `datum_id`, if one is stored.
pub open spec fn datum_pos(ds: Seq<Datum>, datum_id: u128) -> int {
    choose|k: int| 0 <= k < ds.len() && #[trigger] ds[k].id == datum_id
}

/// Is the datum `datum_id` stored?
pub open spec fn datum_exists(ds: Seq<Datum>, datum_id: u128) -> bool {
    exists|k: int| 0 <= k < ds.len() && #[trigger] ds[k].id == datum_id
}

/// Does the pod `pod` own the datum `d`: is `d` running, on that pod?
pub open spec fn owns(d: Datum, pod: String) -> bool {
    d.status == Status::Running && d.pod_name is Some && d.pod_name->0@ == pod@
}

/// Why the pod `pod` may not update the datum `datum_id`, if it may not: the
/// datum is not stored, or it is not running on that pod. A datum that is not
/// running is owned by no pod.
pub open spec fn ownership_error(ds: Seq<Datum>, datum_id: u128, pod: String) -> Option<
    DatumOwnershipError,
> {
    if !datum_exists(ds, datum_id) {
        Some(DatumOwnershipError::NotFound(datum_id))
    } else {
        let d = ds[datum_pos(ds, datum_id)];
        if owns(d, pod) {
            None
        } else {
            Some(
                DatumOwnershipError::NotOwned {
                    datum_id,
                    expected_pod: pod,
                    actual_pod: if d.status == Status::Running {
                        d.pod_name
                    } else {
                        None
                    },
                },
            )
        }
    }
}

/// The output a datum holds once the patch `p` is applied: the patch's output
/// when it marks the datum done; when it marks the datum failed, the output
/// of earlier attempts followed by the patch's, so that each failed attempt
/// keeps its record.
pub open spec fn patched_output(d: Datum, p: DatumPatch) -> Seq<char> {
    if p.status == Status::Done {
        p.output@
    } else {
        match d.output {
            Some(o) => o@ + p.output@,
            None => p.output@,
        }
    }
}

/// Is `new` the datum `d` once the patch `p` is applied at `now`: done with
/// the patch's output, or failed with the accumulated output, the error
/// message and the backtrace?
pub open spec fn is_patched(d: Datum, new: Datum, p: DatumPatch, now: i64) -> bool {
    &&& new.output is Some
    &&& new.output->0@ == patched_output(d, p)
    &&& if p.status == Status::Done {
        new == Datum { status: Status::Done, output: new.output, updated_at: now, ..d }
    } else {
        new == Datum {
            status: Status::Error,
            output: new.output,
            error_message: p.error_message,
            backtrace: p.backtrace,
            updated_at: now,
            ..d
        }
    }
}

/// Is the status of every patch `Done` or `Error`?
pub open spec fn valid_file_patches(ps: Seq<OutputFilePatch>) -> bool {
    forall|i: int|
        0 <= i < ps.len() ==> (#[trigger] ps[i]).status == Status::Done || ps[i].status
            == Status::Error
}

/// Does some patch mark the output file `id` with `status`?
pub open spec fn patch_marks(ps: Seq<OutputFilePatch>, id: u128, status: Status) -> bool {
    exists|i: int| 0 <= i < ps.len() && (#[trigger] ps[i]).id == id && ps[i].status == status
}

/// The output file `f` once the patches `ps` for the datum `datum_id` are
/// applied: files of other datums are untouched, and a file marked both
/// `Done` and `Error` ends as `Error`.
pub open spec fn patched_file(f: OutputFile, datum_id: u128, ps: Seq<OutputFilePatch>) -> OutputFile {
    if f.datum_id != datum_id {
        f
    } else if patch_marks(ps, f.id, Status::Error) {
        OutputFile { status: Status::Error, ..f }
    } else if patch_marks(ps, f.id, Status::Done) {
        OutputFile { status: Status::Done, ..f }
    } else {
        f
    }
}

/// The output file that records the planned upload `post` of the datum `d`,
/// with identifier `id`, created at `now`.
pub open spec fn new_output_file(d: Datum, post: OutputFilePost, id: u128, now: i64) -> OutputFile {
    OutputFile {
        id,
        created_at: now,
        datum_id: d.id,
        job_id: d.job_id,
        uri: post.uri,
        status: Status::Running,
    }
}

/// The status that the patches `ps` give the output file `id`, if any.
pub fn patch_status_for(ps: &Vec<OutputFilePatch>, id: u128) -> (r: Option<Status>)
    ensures
        r == (if patch_marks(ps@, id, Status::Error) {
            Some(Status::Error)
        } else if patch_marks(ps@, id, Status::Done) {
            Some(Status::Done)
        } else {
            None
        }),
{
    let mut error = false;
    let mut done = false;
    let mut i: usize = 0;
    while i < ps.len()
        invariant
            i <= ps@.len(),
            error == exists|m: int| 0 <= m < i && (#[trigger] ps@[m]).id == id && ps@[m].status == Status::Error,
            done == exists|m: int| 0 <= m < i && (#[trigger] ps@[m]).id == id && ps@[m].status == Status::Done,
        decreases ps@.len() - i,
    {
        if ps[i].id == id {
            if ps[i].status == Status::Error {
                error = true;
            } else if ps[i].status == Status::Done {
                done = true;
            }
        }
        i = i + 1;
    }
    if error {
        Some(Status::Error)
    } else if done {
        Some(Status::Done)
    } else {
        None
    }
}

/// How many input files the new datums `ins` have in all.
pub open spec fn total_inputs(ins: Seq<Vec<DatumInput>>) -> int
    decreases ins.len(),
{
    if ins.len() == 0 {
        0
    } else {
        total_inputs(ins.drop_last()) + ins.last()@.len()
    }
}

/// Adding the input files of one more datum raises the total by their number.
pub proof fn lemma_total_inputs_step(ins: Seq<Vec<DatumInput>>, i: int)
    requires
        0 <= i < ins.len(),
    ensures
        total_inputs(ins.subrange(0, i + 1)) == total_inputs(ins.subrange(0, i)) + ins[i]@.len(),
{
    assert(ins.subrange(0, i + 1).drop_last() =~= ins.subrange(0, i));
}

/// The total of a prefix is at most the total of the whole.
pub proof fn lemma_total_inputs_prefix(ins: Seq<Vec<DatumInput>>, i: int)
    requires
        0 <= i <= ins.len(),
    ensures
        0 <= total_inputs(ins.subrange(0, i)) <= total_inputs(ins),
    decreases ins.len() - i,
{
    if i < ins.len() {
        lemma_total_inputs_prefix(ins, i + 1);
        lemma_total_inputs_step(ins, i);
        lemma_total_inputs_nonneg(ins.subrange(0, i));
    } else {
        assert(ins.subrange(0, i) =~= ins);
        lemma_total_inputs_nonneg(ins);
    }
}

/// A total is never negative.
pub proof fn lemma_total_inputs_nonneg(ins: Seq<Vec<DatumInput>>)
    ensures
        total_inputs(ins) >= 0,
    decreases ins.len(),
{
    if ins.len() > 0 {
        lemma_total_inputs_nonneg(ins.drop_last());
    }
}

/// Every input file of a datum comes from the table, and belongs to it.
pub proof fn lemma_files_of_member(fs: Seq<InputFile>, datum_id: u128, i: int)
    requires
        0 <= i < files_of(fs, datum_id).len(),
    ensures
        exists|w: int| 0 <= w < fs.len() && fs[w] == files_of(fs, datum_id)[i],
        files_of(fs, datum_id)[i].datum_id == datum_id,
    decreases fs.len(),
{
    let rest = files_of(fs.drop_last(), datum_id);
    if i < rest.len() {
        lemma_files_of_member(fs.drop_last(), datum_id, i);
        let w = choose|w: int| 0 <= w < fs.drop_last().len() && fs.drop_last()[w] == rest[i];
        assert(fs[w] == rest[i]);
    } else {
        assert(fs[fs.len() - 1] == fs.last());
    }
}

/// A datum's input files, read from a table in which each datum's files were
/// created together, come in order of creation time.
pub proof fn lemma_files_of_sorted(fs: Seq<InputFile>, datum_id: u128)
    requires
        inputs_created_together(fs),
    ensures
        sorted_by_creation(files_of(fs, datum_id)),
{
    reveal(inputs_created_together);
    let r = files_of(fs, datum_id);
    assert forall|i: int, j: int| 0 <= i < j < r.len() implies (#[trigger] r[i]).created_at <= (#[trigger] r[j]).created_at by {
        lemma_files_of_member(fs, datum_id, i);
        lemma_files_of_member(fs, datum_id, j);
        let wi = choose|w: int| 0 <= w < fs.len() && fs[w] == r[i];
        let wj = choose|w: int| 0 <= w < fs.len() && fs[w] == r[j];
        assert(fs[wi].datum_id == fs[wj].datum_id);
    }
}

/// A datum with an input file in the table has at least one.
pub proof fn lemma_files_of_nonempty(fs: Seq<InputFile>, datum_id: u128)
    requires
        datum_has_input(fs, datum_id),
    ensures
        files_of(fs, datum_id).len() > 0,
    decreases fs.len(),
{
    reveal(datum_has_input);
    let w = choose|w: int| 0 <= w < fs.len() && (#[trigger] fs[w]).datum_id == datum_id;
    if fs.last().datum_id != datum_id {
        assert(w < fs.len() - 1);
        assert(fs.drop_last()[w] == fs[w]);
        assert(datum_has_input(fs.drop_last(), datum_id));
        lemma_files_of_nonempty(fs.drop_last(), datum_id);
    }
}

/// The input files of a datum in two tables joined are those of each table,
/// in order.
pub proof fn lemma_files_of_concat(a: Seq<InputFile>, b: Seq<InputFile>, datum_id: u128)
    ensures
        files_of(a + b, datum_id) == files_of(a, datum_id) + files_of(b, datum_id),
    decreases b.len(),
{
    if b.len() == 0 {
        assert(a + b =~= a);
        assert(files_of(b, datum_id) =~= Seq::<InputFile>::empty());
        assert(files_of(a, datum_id) + files_of(b, datum_id) =~= files_of(a, datum_id));
    } else {
        lemma_files_of_concat(a, b.drop_last(), datum_id);
        assert((a + b).drop_last() =~= a + b.drop_last());
        assert((a + b).last() == b.last());
        if b.last().datum_id == datum_id {
            assert(files_of(a, datum_id) + files_of(b, datum_id) =~= (files_of(a, datum_id)
                + files_of(b.drop_last(), datum_id)).push(b.last()));
        }
    }
}

/// A table none of whose files belong to the datum `datum_id` holds none of
/// its input files.
pub proof fn lemma_files_of_none(fs: Seq<InputFile>, datum_id: u128)
    requires
        forall|k: int| 0 <= k < fs.len() ==> (#[trigger] fs[k]).datum_id != datum_id,
    ensures
        files_of(fs, datum_id) == Seq::<InputFile>::empty(),
    decreases fs.len(),
{
    if fs.len() > 0 {
        lemma_files_of_none(fs.drop_last(), datum_id);
        assert(fs.last() == fs[fs.len() - 1]);
    }
}

/// A table all of whose files belong to the datum `datum_id` holds only its
/// input files.
pub proof fn lemma_files_of_all(fs: Seq<InputFile>, datum_id: u128)
    requires
        forall|k: int| 0 <= k < fs.len() ==> (#[trigger] fs[k]).datum_id == datum_id,
    ensures
        files_of(fs, datum_id) == fs,
    decreases fs.len(),
{
    if fs.len() > 0 {
        lemma_files_of_all(fs.drop_last(), datum_id);
        assert(fs.last() == fs[fs.len() - 1]);
        assert(fs.drop_last().push(fs.last()) =~= fs);
    }
}

/// Is `d` a new datum of the job `job_id`, created at `now`: ready, never
/// attempted, with `max_runs` attempts allowed?
pub open spec fn is_new_datum(d: Datum, job_id: u128, max_runs: i32, now: i64) -> bool {
    &&& d.job_id == job_id
    &&& d.status == Status::Ready
    &&& d.created_at == now
    &&& d.updated_at == now
    &&& d.error_message is None
    &&& d.node_name is None
    &&& d.pod_name is None
    &&& d.backtrace is None
    &&& d.output is None
    &&& d.attempted_run_count == 0
    &&& d.maximum_allowed_run_count == max_runs
}

/// Do the input files `fs` of the datum `d`, created at `now`, record the
/// inputs `ins`, one for one and in order?
pub open spec fn files_record(fs: Seq<InputFile>, ins: Seq<DatumInput>, d: Datum, now: i64) -> bool {
    &&& fs.len() == ins.len()
    &&& forall|j: int|
        0 <= j < fs.len() ==> {
            &&& (#[trigger] fs[j]).uri == ins[j].uri
            &&& fs[j].local_path == ins[j].local_path
            &&& fs[j].datum_id == d.id
            &&& fs[j].job_id == d.job_id
            &&& fs[j].created_at == now
        }
}

/// Is there a job named `name` in `jobs`?
pub open spec fn name_taken(jobs: Seq<Job>, name: Seq<char>) -> bool {
    exists|j: int| 0 <= j < jobs.len() && (#[trigger] jobs[j]).job_name@ == name
}

/// Does some new datum of `ins` have no input file?
pub open spec fn has_empty_datum(ins: Seq<Vec<DatumInput>>) -> bool {
    exists|i: int| 0 <= i < ins.len() && (#[trigger] ins[i])@.len() == 0
}

/// The error with which creating a job named `name`, with `max_runs`
/// attempts per datum and the datums `ins`, is refused, if it is: a taken
/// name, fewer than one attempt, a datum with no input, or too few
/// identifiers left for the job, its datums and their input files.
pub open spec fn create_job_error(
    jobs: Seq<Job>,
    next_id: u128,
    name: Seq<char>,
    max_runs: i32,
    ins: Seq<Vec<DatumInput>>,
) -> Option<InternalError> {
    if name_taken(jobs, name) {
        Some(InternalError::DuplicateJobName)
    } else if max_runs < 1 {
        Some(InternalError::InvalidRunCount)
    } else if has_empty_datum(ins) {
        Some(InternalError::EmptyDatum)
    } else if next_id + 1 + ins.len() + total_inputs(ins) > u128::MAX {
        Some(InternalError::IdsExhausted)
    } else {
        None
    }
}

/// What creating a job does: unless refused, it stores a running job with the
/// given name, command, egress URI and pipeline specification, one ready datum
/// for each entry of `ins`, and the input files of each datum as that entry
/// lists them.
pub open spec fn job_created(
    pre: Db,
    post: Db,
    job_name: String,
    command: Seq<String>,
    egress_uri: String,
    pipeline_spec: String,
    max_runs: i32,
    ins: Seq<Vec<DatumInput>>,
    now: i64,
    r: Result<Job, FalconeridError>,
) -> bool {
    match r {
        Ok(job) => {
            &&& create_job_error(pre.jobs@, pre.next_id, job_name@, max_runs, ins) is None
            &&& job.status == Status::Running
            &&& job.created_at == now
            &&& job.updated_at == now
            &&& job.job_name@ == job_name@
            &&& job.command@ == command
            &&& job.egress_uri@ == egress_uri@
            &&& job.pipeline_spec@ == pipeline_spec@
            &&& !exists|j: int| 0 <= j < pre.jobs@.len() && (#[trigger] pre.jobs@[j]).id == job.id
            &&& forall|k: int| 0 <= k < pre.datums@.len() ==> (#[trigger] pre.datums@[k]).job_id != job.id
            &&& post.jobs@.len() == pre.jobs@.len() + 1
            &&& post.jobs@.subrange(0, pre.jobs@.len() as int) == pre.jobs@
            &&& post.jobs@[pre.jobs@.len() as int].same_as(&job)
            &&& post.datums@.len() == pre.datums@.len() + ins.len()
            &&& post.datums@.subrange(0, pre.datums@.len() as int) == pre.datums@
            &&& forall|i: int|
                0 <= i < ins.len() ==> {
                    let d = #[trigger] post.datums@[pre.datums@.len() + i];
                    &&& is_new_datum(d, job.id, max_runs, now)
                    &&& files_record(files_of(post.input_files@, d.id), ins[i]@, d, now)
                }
            &&& post.input_files@.subrange(0, pre.input_files@.len() as int) == pre.input_files@
            &&& post.output_files == pre.output_files
        },
        Err(e) => {
            &&& create_job_error(pre.jobs@, pre.next_id, job_name@, max_runs, ins) is Some
            &&& e == FalconeridError::Internal(create_job_error(pre.jobs@, pre.next_id, job_name@, max_runs, ins)->0)
            &&& post == pre
        },
    }
}

/// What patching the datum `datum_id` on behalf of the pod `pod_name` does:
/// refused without change unless the pod owns the running datum and the patch
/// marks it done or failed; otherwise the datum is patched and its job settled.
/// A failure patch adds its output to that of earlier attempts.
pub open spec fn datum_patched(pre: Db, post: Db, datum_id: u128, pod_name: String, patch: DatumPatch, now: i64, r: Result<Datum, FalconeridError>) -> bool {
    match r {
        Ok(d) => {
            let k = datum_pos(pre.datums@, datum_id);
            &&& ownership_error(pre.datums@, datum_id, pod_name) is None
            &&& (patch.spec_is_done_patch() || patch.spec_is_error_patch())
            &&& post.datums@ == pre.datums@.update(k, post.datums@[k])
            &&& is_patched(pre.datums@[k], post.datums@[k], patch, now)
            &&& d == post.datums@[k]
            &&& post.jobs@ == settle_jobs_of(
                pre.jobs@,
                d.job_id,
                post.datums@,
                now,
            )
            &&& post.input_files == pre.input_files
            &&& post.output_files == pre.output_files
            &&& post.next_id == pre.next_id
        },
        Err(FalconeridError::Forbidden(e)) => {
            &&& ownership_error(pre.datums@, datum_id, pod_name) == Some(e)
            &&& post == pre
        },
        Err(FalconeridError::Internal(e)) => {
            &&& ownership_error(pre.datums@, datum_id, pod_name) is None
            &&& !(patch.spec_is_done_patch() || patch.spec_is_error_patch())
            &&& e == InternalError::InvalidDatumPatch
            &&& post == pre
        },
    }
}

/// What recording the planned uploads `posts` of the datum `datum_id` does:
/// refused without change unless the pod owns the running datum, or when too
/// few identifiers are left; otherwise one running output file per upload,
/// with fresh identifiers, is appended.
pub open spec fn output_files_created(pre: Db, post: Db, datum_id: u128, pod_name: String, posts: Seq<OutputFilePost>, now: i64, r: Result<Vec<OutputFile>, FalconeridError>) -> bool {
    match r {
        Ok(files) => {
            let d = pre.datums@[datum_pos(pre.datums@, datum_id)];
            &&& ownership_error(pre.datums@, datum_id, pod_name) is None
            &&& files@.len() == posts.len()
            &&& forall|i: int|
                0 <= i < posts.len() ==> #[trigger] files@[i] == new_output_file(
                    d,
                    posts[i],
                    (pre.next_id + i) as u128,
                    now,
                )
            &&& post.output_files@ == pre.output_files@ + files@
            &&& post.next_id == pre.next_id + posts.len()
            &&& post.jobs == pre.jobs
            &&& post.datums == pre.datums
            &&& post.input_files == pre.input_files
        },
        Err(FalconeridError::Forbidden(e)) => {
            &&& ownership_error(pre.datums@, datum_id, pod_name) == Some(e)
            &&& post == pre
        },
        Err(FalconeridError::Internal(e)) => {
            &&& ownership_error(pre.datums@, datum_id, pod_name) is None
            &&& e == InternalError::IdsExhausted
            &&& pre.next_id + posts.len() > u128::MAX
            &&& post == pre
        },
    }
}

/// What recording upload results does: refused without change when a patch
/// status is neither `Done` nor `Error`, or unless the pod owns the running
/// datum; otherwise the datum's output files take the patched statuses.
pub open spec fn output_files_patched(pre: Db, post: Db, datum_id: u128, pod_name: String, patches: Seq<OutputFilePatch>, r: Result<(), FalconeridError>) -> bool {
    match r {
        Ok(()) => {
            &&& valid_file_patches(patches)
            &&& ownership_error(pre.datums@, datum_id, pod_name) is None
            &&& post.output_files@ == pre.output_files@.map(
                |i: int, f: OutputFile| patched_file(f, datum_id, patches),
            )
            &&& post.jobs == pre.jobs
            &&& post.datums == pre.datums
            &&& post.input_files == pre.input_files
            &&& post.next_id == pre.next_id
        },
        Err(FalconeridError::Internal(e)) => {
            &&& !valid_file_patches(patches)
            &&& e == InternalError::InvalidOutputFilePatch
            &&& post == pre
        },
        Err(FalconeridError::Forbidden(e)) => {
            &&& valid_file_patches(patches)
            &&& ownership_error(pre.datums@, datum_id, pod_name) == Some(e)
            &&& post == pre
        },
    }
}

/// The tables of jobs, datums, input files and output files.
#[derive(Debug)]
pub struct Db {
    /// All jobs, in the order they were created.
    pub jobs: Vec<Job>,
    /// All datums, in the order they were created.
    pub datums: Vec<Datum>,
    /// All input files, in the order they were created.
    pub input_files: Vec<InputFile>,
    /// All output files, in the order they were created.
    pub output_files: Vec<OutputFile>,
    /// The identifier that the next stored record receives.
    pub next_id: u128,
}

impl Db {
    /// The invariants that hold at every transaction boundary: each datum is
    /// well formed; each job's status agrees with its datums; identifiers are unique and below `next_id`; and every file
    /// belongs to a stored datum of its job.
    pub open spec fn wf(&self) -> bool {
        &&& forall|k: int| 0 <= k < self.datums@.len() ==> datum_wf(#[trigger] self.datums@[k])
        &&& forall|j: int| 0 <= j < self.jobs@.len() ==> job_wf(self.datums@, #[trigger] self.jobs@[j])
        &&& forall|j: int| 0 <= j < self.jobs@.len() ==> (#[trigger] self.jobs@[j]).id < self.next_id
        &&& forall|k: int|
            0 <= k < self.datums@.len() ==> (#[trigger] self.datums@[k]).id < self.next_id
                && self.datums@[k].job_id < self.next_id
        &&& forall|k: int|
            0 <= k < self.input_files@.len() ==> (#[trigger] self.input_files@[k]).id
                < self.next_id && self.input_files@[k].datum_id < self.next_id
        &&& forall|k: int|
            0 <= k < self.output_files@.len() ==> (#[trigger] self.output_files@[k]).id
                < self.next_id
        &&& forall|a: int, b: int|
            0 <= a < b < self.jobs@.len() ==> (#[trigger] self.jobs@[a]).id != (
            #[trigger] self.jobs@[b]).id
        &&& forall|a: int, b: int|
            0 <= a < b < self.datums@.len() ==> (#[trigger] self.datums@[a]).id != (
            #[trigger] self.datums@[b]).id
        &&& forall|i: int|
            0 <= i < self.input_files@.len() ==> input_file_wf(
                self.datums@,
                #[trigger] self.input_files@[i],
            )
        &&& forall|i: int|
            0 <= i < self.output_files@.len() ==> output_file_wf(
                self.datums@,
                #[trigger] self.output_files@[i],
            )
        &&& forall|k: int|
            0 <= k < self.datums@.len() ==> datum_has_input(
                self.input_files@,
                (#[trigger] self.datums@[k]).id,
            )
        &&& inputs_created_together(self.input_files@)
    }

    /// An empty store.
    pub fn new() -> (r: Db)
        ensures
            r.wf(),
            r.jobs@.len() == 0,
            r.datums@.len() == 0,
            r.input_files@.len() == 0,
            r.output_files@.len() == 0,
            r.next_id == 1,
    {
        proof {
            reveal(inputs_created_together);
        }
        Db {
            jobs: Vec::new(),
            datums: Vec::new(),
            input_files: Vec::new(),
            output_files: Vec::new(),
            next_id: 1,
        }
    }

    /// The position of the job `job_id`, if it is stored.
    pub fn job_index(&self, job_id: u128) -> (r: Option<usize>)
        ensures
            match r {
                Some(j) => j < self.jobs@.len() && self.jobs@[j as int].id == job_id,
                None => forall|j: int| 0 <= j < self.jobs@.len() ==> self.jobs@[j].id != job_id,
            },
    {
        let mut j: usize = 0;
        while j < self.jobs.len()
            invariant
                j <= self.jobs@.len(),
                forall|m: int| 0 <= m < j ==> self.jobs@[m].id != job_id,
            decreases self.jobs@.len() - j,
        {
            if self.jobs[j].id == job_id {
                return Some(j);
            }
            j = j + 1;
        }
        None
    }

    /// The position of the datum `datum_id`, if it is stored.
    pub fn datum_index(&self, datum_id: u128) -> (r: Option<usize>)
        ensures
            match r {
                Some(k) => k < self.datums@.len() && self.datums@[k as int].id == datum_id,
                None => forall|k: int|
                    0 <= k < self.datums@.len() ==> self.datums@[k].id != datum_id,
            },
    {
        let mut k: usize = 0;
        while k < self.datums.len()
            invariant
                k <= self.datums@.len(),
                forall|m: int| 0 <= m < k ==> self.datums@[m].id != datum_id,
            decreases self.datums@.len() - k,
        {
            if self.datums[k].id == datum_id {
                return Some(k);
            }
            k = k + 1;
        }
        None
    }

    /// The input files of the datum `datum_id`, in the order they were
    /// stored.
    pub fn input_files_of(&self, datum_id: u128) -> (r: Vec<InputFile>)
        ensures
            r@ == files_of(self.input_files@, datum_id),
    {
        let mut out: Vec<InputFile> = Vec::new();
        let mut k: usize = 0;
        while k < self.input_files.len()
            invariant
                k <= self.input_files@.len(),
                out@ == files_of(self.input_files@.subrange(0, k as int), datum_id),
            decreases self.input_files@.len() - k,
        {
            proof {
                let next = self.input_files@.subrange(0, k + 1);
                assert(next.drop_last() =~= self.input_files@.subrange(0, k as int));
                assert(next.last() == self.input_files@[k as int]);
            }
            if self.input_files[k].datum_id == datum_id {
                out.push(self.input_files[k].copy());
            }
            k = k + 1;
        }
        assert(self.input_files@.subrange(0, self.input_files@.len() as int) =~= self.input_files@);
        out
    }

    /// Reserve the next datum of the job `job_id` for the pod `pod_name` on
    /// the node `node_name`, and return it with its input files. Returns
    /// `Ok(None)` when the job is not running or has no ready datum, and an
    /// error when there is no such job.
    pub fn reserve_next_datum(
        &mut self,
        job_id: u128,
        node_name: &String,
        pod_name: &String,
        now: i64,
    ) -> (r: Result<Option<(Datum, Vec<InputFile>)>, FalconeridError>)
        requires
            old(self).wf(),
        ensures
            final(self).wf(),
            counts_monotone(old(self).datums@, final(self).datums@),
            reservation(*old(self), *final(self), job_id, *node_name, *pod_name, now, r),
    {
        let j = match self.job_index(job_id) {
            Some(j) => j,
            None => {
                return Err(FalconeridError::Internal(InternalError::JobNotFound));
            },
        };
        if self.jobs[j].status != Status::Running {
            proof {
                assert forall|m: int| 0 <= m < self.jobs@.len() && #[trigger] self.jobs@[m].id == job_id
                    implies self.jobs@[m].status != Status::Running by {
                    lemma_unique_job_ids(self.jobs@, m, j as int);
                }
            }
            return Ok(None);
        }
        let mut i: usize = 0;
        while i < self.datums.len()
            invariant
                i <= self.datums@.len(),
                forall|m: int|
                    0 <= m < i ==> !(#[trigger] self.datums@[m].job_id == job_id
                        && self.datums@[m].status == Status::Ready),
            ensures
                i <= self.datums@.len(),
                forall|m: int|
                    0 <= m < i ==> !(#[trigger] self.datums@[m].job_id == job_id
                        && self.datums@[m].status == Status::Ready),
                i < self.datums@.len() ==> self.datums@[i as int].job_id == job_id
                    && self.datums@[i as int].status == Status::Ready,
            decreases self.datums@.len() - i,
        {
            if self.datums[i].job_id == job_id && self.datums[i].status == Status::Ready {
                break;
            }
            i = i + 1;
        }
        if i == self.datums.len() {
            proof {
                assert(!has_ready(self.datums@, job_id));
            }
            return Ok(None);
        }
        let ghost pre = *self;
        let ghost target = reserved(self.datums@[i as int], *node_name, *pod_name, now);
        assert(datum_wf(self.datums@[i as int]));
        let count = self.datums[i].attempted_run_count + 1;
        self.datums[i].status = Status::Running;
        self.datums[i].pod_name = Some(pod_name.clone());
        self.datums[i].node_name = Some(node_name.clone());
        self.datums[i].attempted_run_count = count;
        self.datums[i].updated_at = now;
        proof {
            assert(self.datums@[i as int] == target);
            assert(self.datums@ == pre.datums@.update(i as int, target));
            assert(is_first_ready(pre.datums@, job_id, i as int));
            assert(status_changed_only_in(pre.datums@, self.datums@, job_id));
            assert forall|a: int| 0 <= a < self.jobs@.len() implies job_wf(self.datums@, #[trigger] self.jobs@[a]) by {
                if self.jobs@[a].id != job_id {
                    lemma_other_jobs_unchanged(pre.datums@, self.datums@, job_id, self.jobs@[a].id);
                } else {
                    assert(self.datums@[i as int].job_id == job_id);
                    assert(self.jobs@[a].status != Status::Done) by {
                        lemma_unique_job_ids(self.jobs@, a, j as int);
                    }
                }
            }
        }
        let d = self.datums[i].copy();
        let files = self.input_files_of(d.id);
        proof {
            lemma_files_of_sorted(self.input_files@, d.id);
        }
        Ok(Some((d, files)))
    }

    /// Update the status of the job `job_id`, if it is stored, once it has
    /// finished.
    pub fn update_job_status_if_done(&mut self, job_id: u128, now: i64)
        requires
            forall|a: int, b: int|
                0 <= a < b < old(self).jobs@.len() ==> (#[trigger] old(self).jobs@[a]).id != (
                #[trigger] old(self).jobs@[b]).id,
        ensures
            final(self).jobs@ == settle_jobs_of(old(self).jobs@, job_id, old(self).datums@, now),
            final(self).datums == old(self).datums,
            final(self).input_files == old(self).input_files,
            final(self).output_files == old(self).output_files,
            final(self).next_id == old(self).next_id,
    {
        match self.job_index(job_id) {
            Some(j) => {
                let ghost pre = *self;
                self.update_status_if_done(j, now);
                proof {
                    assert forall|m: int| 0 <= m < pre.jobs@.len() && m != j implies pre.jobs@[m].id != job_id by {
                        if m < j {
                            assert(pre.jobs@[m].id != pre.jobs@[j as int].id);
                        } else {
                            assert(pre.jobs@[j as int].id != pre.jobs@[m].id);
                        }
                    }
                    assert(self.jobs@ =~= settle_jobs_of(pre.jobs@, job_id, pre.datums@, now));
                }
            },
            None => {
                assert(self.jobs@ =~= settle_jobs_of(self.jobs@, job_id, self.datums@, now));
            },
        }
    }

    /// Check that the pod `pod_name` owns the datum `datum_id`, and return the
    /// datum's position.
    pub fn lock_and_verify_owner(&self, datum_id: u128, pod_name: &String) -> (r: Result<
        usize,
        DatumOwnershipError,
    >)
        requires
            self.wf(),
        ensures
            match r {
                Ok(k) => k < self.datums@.len() && self.datums@[k as int].id == datum_id
                    && k == datum_pos(self.datums@, datum_id) && ownership_error(
                    self.datums@,
                    datum_id,
                    *pod_name,
                ) is None,
                Err(e) => ownership_error(self.datums@, datum_id, *pod_name) == Some(e),
            },
    {
        match self.datum_index(datum_id) {
            None => Err(DatumOwnershipError::NotFound(datum_id)),
            Some(k) => {
                proof {
                    let p = datum_pos(self.datums@, datum_id);
                    lemma_unique_datum_ids(self.datums@, p, k as int);
                }
                let d = &self.datums[k];
                let running = d.status == Status::Running;
                let owned = running && match &d.pod_name {
                    Some(p) => *p == *pod_name,
                    None => false,
                };
                if owned {
                    Ok(k)
                } else {
                    let actual_pod = if running {
                        crate::models::copy_opt_string(&d.pod_name)
                    } else {
                        None
                    };
                    Err(
                        DatumOwnershipError::NotOwned {
                            datum_id,
                            expected_pod: pod_name.clone(),
                            actual_pod,
                        },
                    )
                }
            },
        }
    }

    /// Apply a worker's patch to the datum `datum_id`, then settle its job.
    /// Only the pod that owns the running datum may patch it, and only to mark
    /// it done (without an error message or backtrace) or failed (with both).
    pub fn patch_datum(
        &mut self,
        datum_id: u128,
        pod_name: &String,
        patch: &DatumPatch,
        now: i64,
    ) -> (r: Result<Datum, FalconeridError>)
        requires
            old(self).wf(),
        ensures
            final(self).wf(),
            counts_monotone(old(self).datums@, final(self).datums@),
            datum_patched(*old(self), *final(self), datum_id, *pod_name, *patch, now, r),
    {
        let k = match self.lock_and_verify_owner(datum_id, pod_name) {
            Ok(k) => k,
            Err(e) => {
                return Err(FalconeridError::Forbidden(e));
            },
        };
        let ghost pre = *self;
        if patch.is_done_patch() {
            self.datums[k].status = Status::Done;
            self.datums[k].output = Some(patch.output.clone());
            self.datums[k].updated_at = now;
        } else if patch.is_error_patch() {
            let output = match &self.datums[k].output {
                Some(earlier) => earlier.clone().concat(patch.output.as_str()),
                None => patch.output.clone(),
            };
            self.datums[k].status = Status::Error;
            self.datums[k].output = Some(output);
            self.datums[k].error_message = crate::models::copy_opt_string(&patch.error_message);
            self.datums[k].backtrace = crate::models::copy_opt_string(&patch.backtrace);
            self.datums[k].updated_at = now;
        } else {
            return Err(FalconeridError::Internal(InternalError::InvalidDatumPatch));
        }
        let job_id = self.datums[k].job_id;
        proof {
            assert(self.datums@ == pre.datums@.update(k as int, self.datums@[k as int]));
            assert(is_patched(pre.datums@[k as int], self.datums@[k as int], *patch, now));
            assert(status_changed_only_in(pre.datums@, self.datums@, job_id));
        }
        let ghost mid = *self;
        self.update_job_status_if_done(job_id, now);
        proof {
            assert forall|a: int| 0 <= a < self.jobs@.len() implies job_wf(self.datums@, #[trigger] self.jobs@[a]) by {
                let id = pre.jobs@[a].id;
                if id != job_id {
                    lemma_other_jobs_unchanged(pre.datums@, self.datums@, job_id, id);
                } else {
                    assert(pre.datums@[k as int].job_id == job_id);
                    assert(!all_done(pre.datums@, job_id));
                    lemma_settled_done(self.datums@, job_id, pre.jobs@[a].status);
                }
            }
        }
        Ok(self.datums[k].copy())
    }

    /// Record the uploads that the pod `pod_name` plans for the datum
    /// `datum_id`, each as a running output file, and return the new records.
    pub fn create_output_files(
        &mut self,
        datum_id: u128,
        pod_name: &String,
        posts: &Vec<OutputFilePost>,
        now: i64,
    ) -> (r: Result<Vec<OutputFile>, FalconeridError>)
        requires
            old(self).wf(),
        ensures
            final(self).wf(),
            counts_monotone(old(self).datums@, final(self).datums@),
            output_files_created(*old(self), *final(self), datum_id, *pod_name, posts@, now, r),
    {
        let k = match self.lock_and_verify_owner(datum_id, pod_name) {
            Ok(k) => k,
            Err(e) => {
                return Err(FalconeridError::Forbidden(e));
            },
        };
        if posts.len() as u128 > u128::MAX - self.next_id {
            return Err(FalconeridError::Internal(InternalError::IdsExhausted));
        }
        let job_id = self.datums[k].job_id;
        let ghost pre = *self;
        let mut files: Vec<OutputFile> = Vec::new();
        let mut i: usize = 0;
        while i < posts.len()
            invariant
                i <= posts@.len(),
                pre.next_id + posts@.len() <= u128::MAX,
                self.next_id == pre.next_id + i,
                files@.len() == i,
                forall|m: int|
                    0 <= m < i ==> #[trigger] files@[m] == new_output_file(
                        pre.datums@[k as int],
                        posts@[m],
                        (pre.next_id + m) as u128,
                        now,
                    ),
                self.output_files@ == pre.output_files@ + files@,
                self.jobs == pre.jobs,
                self.datums == pre.datums,
                self.input_files == pre.input_files,
                k < pre.datums@.len(),
                pre.datums@[k as int].id == datum_id,
                pre.datums@[k as int].job_id == job_id,
                forall|m: int|
                    0 <= m < pre.output_files@.len() ==> (#[trigger] pre.output_files@[m]).id
                        < pre.next_id,
            decreases posts@.len() - i,
        {
            let f = OutputFile {
                id: self.next_id,
                created_at: now,
                datum_id,
                job_id,
                uri: posts[i].uri.clone(),
                status: Status::Running,
            };
            files.push(f.copy());
            self.output_files.push(f);
            self.next_id = self.next_id + 1;
            i = i + 1;
        }
        proof {
            assert forall|m: int| 0 <= m < self.output_files@.len() implies (#[trigger] self.output_files@[m]).id
                < self.next_id by {
                if m >= pre.output_files@.len() {
                    assert(self.output_files@[m] == files@[m - pre.output_files@.len()]);
                }
            }
        }
        Ok(files)
    }

    /// Record the results of the uploads of the datum `datum_id` by the pod
    /// `pod_name`: each patch sets the status of one of the datum's output
    /// files to `Done` or `Error`.
    pub fn patch_output_files(
        &mut self,
        datum_id: u128,
        pod_name: &String,
        patches: &Vec<OutputFilePatch>,
    ) -> (r: Result<(), FalconeridError>)
        requires
            old(self).wf(),
        ensures
            final(self).wf(),
            counts_monotone(old(self).datums@, final(self).datums@),
            output_files_patched(*old(self), *final(self), datum_id, *pod_name, patches@, r),
    {
        let mut i: usize = 0;
        while i < patches.len()
            invariant
                i <= patches@.len(),
                self.wf(),
                forall|m: int|
                    0 <= m < i ==> (#[trigger] patches@[m]).status == Status::Done
                        || patches@[m].status == Status::Error,
            decreases patches@.len() - i,
        {
            if patches[i].status != Status::Done && patches[i].status != Status::Error {
                return Err(FalconeridError::Internal(InternalError::InvalidOutputFilePatch));
            }
            i = i + 1;
        }
        match self.lock_and_verify_owner(datum_id, pod_name) {
            Ok(_) => {},
            Err(e) => {
                return Err(FalconeridError::Forbidden(e));
            },
        }
        let ghost pre = *self;
        let mut k: usize = 0;
        while k < self.output_files.len()
            invariant
                k <= self.output_files@.len(),
                self.output_files@.len() == pre.output_files@.len(),
                forall|m: int|
                    0 <= m < k ==> #[trigger] self.output_files@[m] == patched_file(
                        pre.output_files@[m],
                        datum_id,
                        patches@,
                    ),
                forall|m: int|
                    k <= m < self.output_files@.len() ==> #[trigger] self.output_files@[m]
                        == pre.output_files@[m],
                self.jobs == pre.jobs,
                self.datums == pre.datums,
                self.input_files == pre.input_files,
                self.next_id == pre.next_id,
            decreases self.output_files@.len() - k,
        {
            if self.output_files[k].datum_id == datum_id {
                let id = self.output_files[k].id;
                match patch_status_for(patches, id) {
                    Some(status) => {
                        self.output_files[k].status = status;
                    },
                    None => {},
                }
            }
            k = k + 1;
        }
        proof {
            assert(self.output_files@ =~= pre.output_files@.map(
                |i: int, f: OutputFile| patched_file(f, datum_id, patches@),
            ));
        }
        Ok(())
    }

    /// Create a running job named `job_name` with one ready datum for each
    /// entry of `inputs`, holding the input files that entry lists. Refused,
    /// with nothing stored, when the name is taken, when fewer than one
    /// attempt per datum is allowed, when a datum has no input file, or when
    /// the identifiers run out.
    #[verifier::rlimit(100)]
    pub fn create_job(
        &mut self,
        job_name: &String,
        command: &Vec<String>,
        egress_uri: &String,
        pipeline_spec: &String,
        maximum_allowed_run_count: i32,
        inputs: &Vec<Vec<DatumInput>>,
        now: i64,
    ) -> (r: Result<Job, FalconeridError>)
        requires
            old(self).wf(),
        ensures
            final(self).wf(),
            counts_monotone(old(self).datums@, final(self).datums@),
            job_created(
                *old(self),
                *final(self),
                *job_name,
                command@,
                *egress_uri,
                *pipeline_spec,
                maximum_allowed_run_count,
                inputs@,
                now,
                r,
            ),
    {
        let mut j: usize = 0;
        while j < self.jobs.len()
            invariant
                j <= self.jobs@.len(),
                *self == *old(self),
                self.wf(),
                forall|m: int| 0 <= m < j ==> (#[trigger] self.jobs@[m]).job_name@ != job_name@,
            decreases self.jobs@.len() - j,
        {
            if self.jobs[j].job_name == *job_name {
                return Err(FalconeridError::Internal(InternalError::DuplicateJobName));
            }
            j = j + 1;
        }
        if maximum_allowed_run_count < 1 {
            return Err(FalconeridError::Internal(InternalError::InvalidRunCount));
        }
        assert(!name_taken(self.jobs@, job_name@));
        let mut i: usize = 0;
        while i < inputs.len()
            invariant
                i <= inputs@.len(),
                *self == *old(self),
                self.wf(),
                maximum_allowed_run_count >= 1,
                !name_taken(self.jobs@, job_name@),
                forall|m: int| 0 <= m < i ==> (#[trigger] inputs@[m])@.len() != 0,
            decreases inputs@.len() - i,
        {
            if inputs[i].len() == 0 {
                return Err(FalconeridError::Internal(InternalError::EmptyDatum));
            }
            i = i + 1;
        }
        let budget: u128 = u128::MAX - self.next_id;
        if budget < 1 {
            proof {
                lemma_total_inputs_nonneg(inputs@);
            }
            return Err(FalconeridError::Internal(InternalError::IdsExhausted));
        }
        let mut need: u128 = 1;
        let mut i: usize = 0;
        while i < inputs.len()
            invariant
                i <= inputs@.len(),
                *self == *old(self),
                self.wf(),
                maximum_allowed_run_count >= 1,
                !name_taken(self.jobs@, job_name@),
                !has_empty_datum(inputs@),
                budget == u128::MAX - self.next_id,
                need == 1 + i + total_inputs(inputs@.subrange(0, i as int)),
                need <= budget,
            decreases inputs@.len() - i,
        {
            proof {
                lemma_total_inputs_step(inputs@, i as int);
                lemma_total_inputs_prefix(inputs@, i + 1);
                lemma_total_inputs_prefix(inputs@, i as int);
            }
            let len = inputs[i].len() as u128;
            if len >= budget - need {
                proof {
                    lemma_total_inputs_prefix(inputs@, i + 1);
                    assert(total_inputs(inputs@) >= total_inputs(inputs@.subrange(0, i + 1)));
                }
                return Err(FalconeridError::Internal(InternalError::IdsExhausted));
            }
            need = need + 1 + len;
            i = i + 1;
        }
        proof {
            assert(inputs@.subrange(0, inputs@.len() as int) =~= inputs@);
        }
        let ghost pre = *self;
        proof {
            lemma_total_inputs_nonneg(inputs@);
        }
        let job_id = self.next_id;
        self.next_id = self.next_id + 1;
        let job = Job {
            id: job_id,
            created_at: now,
            updated_at: now,
            status: Status::Running,
            job_name: job_name.clone(),
            command: copy_strings(command),
            egress_uri: egress_uri.clone(),
            pipeline_spec: pipeline_spec.clone(),
        };
        let result = job.copy();
        self.jobs.push(job);
        proof {
            assert forall|a: int| 0 <= a < self.jobs@.len() implies job_wf(self.datums@, #[trigger] self.jobs@[a]) by {
                if a == pre.jobs@.len() {
                    if has_datums(self.datums@, job_id) {
                        let k = choose|k: int| 0 <= k < self.datums@.len() && #[trigger] self.datums@[k].job_id == job_id;
                        assert(self.datums@[k].job_id < pre.next_id);
                    }
                } else {
                    assert(self.jobs@[a] == pre.jobs@[a]);
                }
            }
            assert forall|a: int, b: int| 0 <= a < b < self.jobs@.len() implies (#[trigger] self.jobs@[a]).id != (
                #[trigger] self.jobs@[b]).id by {
                if b == pre.jobs@.len() {
                    assert(pre.jobs@[a].id < pre.next_id);
                }
            }
            assert(self.jobs@.subrange(0, pre.jobs@.len() as int) =~= pre.jobs@);
        }
        let mut i: usize = 0;
        while i < inputs.len()
            invariant
                i <= inputs@.len(),
                self.wf(),
                !has_empty_datum(inputs@),
                pre.next_id + 1 + inputs@.len() + total_inputs(inputs@) <= u128::MAX,
                self.next_id == pre.next_id + 1 + i + total_inputs(inputs@.subrange(0, i as int)),
                job_id == pre.next_id,
                self.jobs@.len() == pre.jobs@.len() + 1,
                self.jobs@.subrange(0, pre.jobs@.len() as int) == pre.jobs@,
                self.jobs@[pre.jobs@.len() as int].same_as(&result),
                result.id == job_id,
                result.status == Status::Running,
                self.datums@.len() == pre.datums@.len() + i,
                self.datums@.subrange(0, pre.datums@.len() as int) == pre.datums@,
                forall|m: int|
                    0 <= m < i ==> {
                        let d = #[trigger] self.datums@[pre.datums@.len() + m];
                        &&& is_new_datum(d, job_id, maximum_allowed_run_count, now)
                        &&& files_record(files_of(self.input_files@, d.id), inputs@[m]@, d, now)
                    },
                self.input_files@.len() >= pre.input_files@.len(),
                self.input_files@.subrange(0, pre.input_files@.len() as int) == pre.input_files@,
                self.output_files == pre.output_files,
                maximum_allowed_run_count >= 1,
            decreases inputs@.len() - i,
        {
            proof {
                lemma_total_inputs_step(inputs@, i as int);
                lemma_total_inputs_prefix(inputs@, i + 1);
            }
            let ghost before = *self;
            let datum_id = self.next_id;
            self.next_id = self.next_id + 1;
            let ghost base = self.input_files@.len();
            let files = &inputs[i];
            let mut t: usize = 0;
            while t < files.len()
                invariant
                    t <= files@.len(),
                    files@ == inputs@[i as int]@,
                    self.next_id == datum_id + 1 + t,
                    datum_id == before.next_id,
                    before.next_id + 1 + files@.len() <= u128::MAX,
                    self.input_files@.len() == base + t,
                    base == before.input_files@.len(),
                    self.input_files@.subrange(0, base as int) == before.input_files@,
                    forall|q: int|
                        0 <= q < t ==> {
                            let f = #[trigger] self.input_files@[base + q];
                            &&& f.uri == files@[q].uri
                            &&& f.local_path == files@[q].local_path
                            &&& f.datum_id == datum_id
                            &&& f.job_id == job_id
                            &&& f.created_at == now
                            &&& f.id < self.next_id
                        },
                    i < inputs@.len(),
                    self.jobs == before.jobs,
                    self.datums == before.datums,
                    self.output_files == before.output_files,
                decreases files@.len() - t,
            {
                let f = InputFile {
                    id: self.next_id,
                    created_at: now,
                    datum_id,
                    uri: files[t].uri.clone(),
                    local_path: files[t].local_path.clone(),
                    job_id,
                };
                self.input_files.push(f);
                self.next_id = self.next_id + 1;
                t = t + 1;
            }
            self.datums.push(
                Datum {
                    id: datum_id,
                    created_at: now,
                    updated_at: now,
                    status: Status::Ready,
                    job_id,
                    error_message: None,
                    node_name: None,
                    pod_name: None,
                    backtrace: None,
                    output: None,
                    attempted_run_count: 0,
                    maximum_allowed_run_count,
                },
            );
            proof {
                let block = self.input_files@.subrange(base as int, self.input_files@.len() as int);
                assert(self.input_files@ =~= before.input_files@ + block);
                let nd = self.datums@[before.datums@.len() as int];
                assert forall|q: int| 0 <= q < block.len() implies (#[trigger] block[q]).datum_id == datum_id by {
                    assert(block[q] == self.input_files@[base + q]);
                }
                assert forall|k: int| 0 <= k < before.input_files@.len() implies (#[trigger] before.input_files@[k]).datum_id != datum_id by {
                    assert(before.input_files@[k].datum_id < before.next_id);
                }
                lemma_files_of_concat(before.input_files@, block, datum_id);
                lemma_files_of_none(before.input_files@, datum_id);
                lemma_files_of_all(block, datum_id);
                assert(files_of(self.input_files@, datum_id) =~= block);
                assert forall|m: int| 0 <= m < i + 1 implies {
                    let d = #[trigger] self.datums@[pre.datums@.len() + m];
                    &&& is_new_datum(d, job_id, maximum_allowed_run_count, now)
                    &&& files_record(files_of(self.input_files@, d.id), inputs@[m]@, d, now)
                } by {
                    let d = self.datums@[pre.datums@.len() + m];
                    if m < i {
                        assert(d == before.datums@[pre.datums@.len() + m]);
                        assert(d.id < before.next_id);
                        assert forall|q: int| 0 <= q < block.len() implies (#[trigger] block[q]).datum_id != d.id by {
                            assert(block[q] == self.input_files@[base + q]);
                        }
                        lemma_files_of_concat(before.input_files@, block, d.id);
                        lemma_files_of_none(block, d.id);
                        assert(files_of(self.input_files@, d.id) =~= files_of(before.input_files@, d.id));
                    } else {
                        assert(d == nd);
                        assert(m == i);
                        assert(inputs@[m]@ == files@);
                        assert forall|q: int| 0 <= q < block.len() implies {
                            let f = #[trigger] block[q];
                            &&& f.uri == inputs@[m]@[q].uri
                            &&& f.local_path == inputs@[m]@[q].local_path
                            &&& f.datum_id == d.id
                            &&& f.job_id == d.job_id
                            &&& f.created_at == now
                        } by {
                            assert(block[q] == self.input_files@[base + q]);
                            assert(inputs@[m]@[q] == files@[q]);
                        }
                    }
                }
                assert(self.datums@.subrange(0, pre.datums@.len() as int) =~= pre.datums@) by {
                    assert(before.datums@.subrange(0, pre.datums@.len() as int) == pre.datums@);
                }
                assert(self.input_files@.subrange(0, pre.input_files@.len() as int) =~= pre.input_files@) by {
                    assert(before.input_files@.subrange(0, pre.input_files@.len() as int) == pre.input_files@);
                }
                // the invariants of the store
                assert forall|k: int| 0 <= k < self.datums@.len() implies datum_wf(#[trigger] self.datums@[k]) by {
                    if k < before.datums@.len() {
                        assert(self.datums@[k] == before.datums@[k]);
                    }
                }
                assert forall|k: int| 0 <= k < self.datums@.len() implies (#[trigger] self.datums@[k]).id < self.next_id
                    && self.datums@[k].job_id < self.next_id by {
                    if k < before.datums@.len() {
                        assert(self.datums@[k] == before.datums@[k]);
                    }
                }
                assert forall|a: int, b: int| 0 <= a < b < self.datums@.len() implies (#[trigger] self.datums@[a]).id != (
                    #[trigger] self.datums@[b]).id by {
                    assert(self.datums@[a] == before.datums@[a]);
                    if b < before.datums@.len() {
                        assert(self.datums@[b] == before.datums@[b]);
                    }
                }
                assert(datums_extended(before.datums@, self.datums@));
                lemma_files_still_belong(before.datums@, self.datums@, before.input_files@, before.output_files@);
                assert(inputs@[i as int]@.len() > 0);
                reveal(datum_has_input);
                reveal(inputs_created_together);
                assert forall|k: int| 0 <= k < self.datums@.len() implies datum_has_input(
                    self.input_files@,
                    (#[trigger] self.datums@[k]).id,
                ) by {
                    if k < before.datums@.len() {
                        assert(datum_has_input(before.input_files@, before.datums@[k].id));
                        let w = choose|w: int|
                            0 <= w < before.input_files@.len() && (#[trigger] before.input_files@[w]).datum_id
                                == before.datums@[k].id;
                        assert(self.input_files@[w] == before.input_files@[w]);
                    } else {
                        assert(self.input_files@[base as int].datum_id == datum_id);
                    }
                }
                assert forall|x: int, y: int|
                    0 <= x < self.input_files@.len() && 0 <= y < self.input_files@.len()
                        && (#[trigger] self.input_files@[x]).datum_id == (
                    #[trigger] self.input_files@[y]).datum_id implies self.input_files@[x].created_at
                    == self.input_files@[y].created_at by {
                    if x < base {
                        assert(self.input_files@[x] == before.input_files@[x]);
                        assert(before.input_files@[x].datum_id < before.next_id);
                    } else {
                        assert(self.input_files@[x] == self.input_files@[base + (x - base)]);
                    }
                    if y < base {
                        assert(self.input_files@[y] == before.input_files@[y]);
                        assert(before.input_files@[y].datum_id < before.next_id);
                    } else {
                        assert(self.input_files@[y] == self.input_files@[base + (y - base)]);
                    }
                }
                assert forall|k: int| 0 <= k < self.input_files@.len() implies input_file_wf(
                    self.datums@,
                    #[trigger] self.input_files@[k],
                ) by {
                    if k < base {
                        assert(self.input_files@[k] == before.input_files@[k]);
                    } else {
                        assert(self.input_files@[k] == self.input_files@[base + (k - base)]);
                        assert(self.datums@[before.datums@.len() as int].id == datum_id);
                    }
                }
                assert forall|k: int| 0 <= k < self.input_files@.len() implies (#[trigger] self.input_files@[k]).id
                    < self.next_id && self.input_files@[k].datum_id < self.next_id by {
                    if k < base {
                        assert(self.input_files@[k] == before.input_files@[k]);
                    } else {
                        assert(self.input_files@[k] == self.input_files@[base + (k - base)]);
                    }
                }
                assert forall|a: int| 0 <= a < self.jobs@.len() implies job_wf(self.datums@, #[trigger] self.jobs@[a]) by {
                    let id = self.jobs@[a].id;
                    assert(before.jobs@[a] == self.jobs@[a]);
                    if id == job_id {
                        assert(self.datums@[before.datums@.len() as int].job_id == job_id);
                        assert(self.datums@[before.datums@.len() as int].status == Status::Ready);
                        if a != pre.jobs@.len() {
                            assert(pre.jobs@[a] == self.jobs@[a]);
                            assert(pre.jobs@[a].id < pre.next_id);
                        }
                    } else {
                        if has_datums(self.datums@, id) {
                            let k = choose|k: int| 0 <= k < self.datums@.len() && #[trigger] self.datums@[k].job_id == id;
                            assert(k < before.datums@.len());
                            assert(before.datums@[k].job_id == id);
                        }
                        if has_datums(before.datums@, id) {
                            let k = choose|k: int| 0 <= k < before.datums@.len() && #[trigger] before.datums@[k].job_id == id;
                            assert(self.datums@[k].job_id == id);
                        }
                        if !all_done(self.datums@, id) {
                            let k = choose|k: int| 0 <= k < self.datums@.len() && #[trigger] self.datums@[k].job_id == id
                                && self.datums@[k].status != Status::Done;
                            assert(k < before.datums@.len());
                            assert(before.datums@[k].job_id == id);
                        }
                        if !all_done(before.datums@, id) {
                            let k = choose|k: int| 0 <= k < before.datums@.len() && #[trigger] before.datums@[k].job_id == id
                                && before.datums@[k].status != Status::Done;
                            assert(self.datums@[k].job_id == id);
                        }
                        if has_active(self.datums@, id) {
                            let k = choose|k: int| 0 <= k < self.datums@.len() && #[trigger] self.datums@[k].job_id == id
                                && is_active(self.datums@[k]);
                            assert(k < before.datums@.len());
                            assert(before.datums@[k].job_id == id);
                        }
                        if has_active(before.datums@, id) {
                            let k = choose|k: int| 0 <= k < before.datums@.len() && #[trigger] before.datums@[k].job_id == id
                                && is_active(before.datums@[k]);
                            assert(self.datums@[k].job_id == id);
                        }
                        if has_final_failure(self.datums@, id) {
                            let k = choose|k: int| 0 <= k < self.datums@.len() && #[trigger] self.datums@[k].job_id == id
                                && is_final_failure(self.datums@[k]);
                            assert(k < before.datums@.len());
                            assert(before.datums@[k].job_id == id);
                        }
                        if has_final_failure(before.datums@, id) {
                            let k = choose|k: int| 0 <= k < before.datums@.len() && #[trigger] before.datums@[k].job_id == id
                                && is_final_failure(before.datums@[k]);
                            assert(self.datums@[k].job_id == id);
                        }
                        assert(job_wf(before.datums@, before.jobs@[a]));
                    }
                }
            }
            i = i + 1;
        }
        proof {
            assert(inputs@.subrange(0, inputs@.len() as int) =~= inputs@);
        }
        Ok(result)
    }

    /// Update the status of the job at position `j` if it has finished: once
    /// no datum waits or runs, `Error` if some datum failed for good, `Done`
    /// if all are done. A job with no datums, with a datum that waits or runs,
    /// or with only datums that are done or may run again, keeps its status.
    pub fn update_status_if_done(&mut self, j: usize, now: i64)
        requires
            j < old(self).jobs@.len(),
        ensures
            final(self).jobs@ == old(self).jobs@.update(
                j as int,
                settle_job(old(self).jobs@[j as int], old(self).datums@, now),
            ),
            final(self).datums == old(self).datums,
            final(self).input_files == old(self).input_files,
            final(self).output_files == old(self).output_files,
            final(self).next_id == old(self).next_id,
    {
        let job_id = self.jobs[j].id;
        let mut found = false;
        let mut active = false;
        let mut failed = false;
        let mut done = true;
        let mut k: usize = 0;
        while k < self.datums.len()
            invariant
                k <= self.datums@.len(),
                found == exists|m: int| 0 <= m < k && #[trigger] self.datums@[m].job_id == job_id,
                active == exists|m: int|
                    0 <= m < k && #[trigger] self.datums@[m].job_id == job_id && is_active(
                        self.datums@[m],
                    ),
                failed == exists|m: int|
                    0 <= m < k && #[trigger] self.datums@[m].job_id == job_id && is_final_failure(
                        self.datums@[m],
                    ),
                done == forall|m: int|
                    0 <= m < k && #[trigger] self.datums@[m].job_id == job_id
                        ==> self.datums@[m].status == Status::Done,
            decreases self.datums@.len() - k,
        {
            let d = &self.datums[k];
            if d.job_id == job_id {
                found = true;
                if d.status == Status::Ready || d.status == Status::Running {
                    active = true;
                }
                if d.status == Status::Error && d.attempted_run_count >= d.maximum_allowed_run_count {
                    failed = true;
                }
                if d.status != Status::Done {
                    done = false;
                }
            }
            k = k + 1;
        }
        if found && !active && (failed || done) {
            let status = if failed {
                Status::Error
            } else {
                Status::Done
            };
            if status != self.jobs[j].status {
                self.jobs[j].status = status;
                self.jobs[j].updated_at = now;
            }
        }
        proof {
            assert(self.jobs@ =~= old(self).jobs@.update(
                j as int,
                settle_job(old(self).jobs@[j as int], old(self).datums@, now),
            ));
        }
    }
}

} // verus!
