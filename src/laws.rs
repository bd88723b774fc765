//! Properties of the job-control plane that hold across its transactions.

use vstd::prelude::*;

use crate::errors::FalconeridError;
use crate::models::{Datum, DatumInput, InputFile, Job, OutputFile};
use crate::rest_api::{DatumPatch, OutputFilePatch, OutputFilePost};
use crate::status::Status;
use crate::babysitter::{
    babysitter_cycle, has_zombie, is_rerun_candidate, is_rerun_target, is_zombie, jobs_swept,
    kept_files, past_grace, reruns_requeued, swept_job, zombies_swept, name_in,
};
use crate::controller::output_count;
use crate::store::{valid_file_patches, lemma_unique_job_ids, lemma_unique_datum_ids, 
    has_final_failure, has_active, is_active, is_final_failure, lemma_no_new_done,
    lemma_unchanged_jobs, same_datum_ids, settle_job, settled_status, status_changed_only_where,
    all_done, datum_exists, datum_patched, datum_pos, has_datums, is_first_ready, job_created,
    output_files_created, output_files_patched, ownership_error, patch_marks, reservation, Db,
};

verus! {

/// Every stored datum's attempt counter lies between zero and its bound.
pub proof fn attempt_count_in_bounds(db: Db, k: int)
    requires
        db.wf(),
        0 <= k < db.datums@.len(),
    ensures
        0 <= db.datums@[k].attempted_run_count <= db.datums@[k].maximum_allowed_run_count,
{
    assert(crate::store::datum_wf(db.datums@[k]));
}

/// Every running datum names the pod that runs it.
pub proof fn running_datum_has_pod(db: Db, k: int)
    requires
        db.wf(),
        0 <= k < db.datums@.len(),
        db.datums@[k].status == Status::Running,
    ensures
        db.datums@[k].pod_name is Some,
{
    assert(crate::store::datum_wf(db.datums@[k]));
}

/// A job with datums is done exactly when every one of its datums is.
pub proof fn job_done_iff_datums_done(db: Db, j: int)
    requires
        db.wf(),
        0 <= j < db.jobs@.len(),
        has_datums(db.datums@, db.jobs@[j].id),
    ensures
        (db.jobs@[j].status == Status::Done) <==> all_done(db.datums@, db.jobs@[j].id),
{
}

/// A created job, fetched again by its identifier, holds the pipeline
/// specification it was created from.
pub proof fn created_job_keeps_pipeline_spec(
    pre: Db,
    post: Db,
    job_name: String,
    command: Seq<String>,
    egress_uri: String,
    pipeline_spec: String,
    max_runs: i32,
    inputs: Seq<Vec<DatumInput>>,
    now: i64,
    job: Job,
    fetched: Job,
)
    requires
        post.wf(),
        job_created(
            pre,
            post,
            job_name,
            command,
            egress_uri,
            pipeline_spec,
            max_runs,
            inputs,
            now,
            Ok(job),
        ),
        exists|j: int|
            0 <= j < post.jobs@.len() && (#[trigger] post.jobs@[j]).id == job.id && fetched.same_as(
                &post.jobs@[j],
            ),
    ensures
        fetched.pipeline_spec@ == pipeline_spec@,
        fetched.status == Status::Running,
{
    let n = pre.jobs@.len() as int;
    let j = choose|j: int|
        0 <= j < post.jobs@.len() && (#[trigger] post.jobs@[j]).id == job.id && fetched.same_as(
            &post.jobs@[j],
        );
    lemma_unique_job_ids(post.jobs@, j, n);
}

/// A datum marked done, described again, shows the output it was marked
/// with.
pub proof fn done_output_is_described(
    pre: Db,
    post: Db,
    datum_id: u128,
    pod_name: String,
    patch: DatumPatch,
    now: i64,
    patched: Datum,
)
    requires
        post.wf(),
        datum_patched(pre, post, datum_id, pod_name, patch, now, Ok(patched)),
        patch.spec_is_done_patch(),
    ensures
        datum_exists(post.datums@, datum_id),
        post.datums@[datum_pos(post.datums@, datum_id)].output is Some,
        post.datums@[datum_pos(post.datums@, datum_id)].output->0@ == patch.output@,
        post.datums@[datum_pos(post.datums@, datum_id)].status == Status::Done,
{
    let k = datum_pos(pre.datums@, datum_id);
    assert(post.datums@[k].id == datum_id);
    let p = datum_pos(post.datums@, datum_id);
    lemma_unique_datum_ids(post.datums@, p, k);
}

/// Joining two tables of output files adds their counts.
proof fn lemma_output_count_concat(a: Seq<OutputFile>, b: Seq<OutputFile>, job_id: u128, status: Status)
    ensures
        output_count(a + b, job_id, status) == output_count(a, job_id, status) + output_count(
            b,
            job_id,
            status,
        ),
    decreases b.len(),
{
    if b.len() == 0 {
        assert(a + b =~= a);
    } else {
        lemma_output_count_concat(a, b.drop_last(), job_id, status);
        assert((a + b).drop_last() =~= a + b.drop_last());
        assert((a + b).last() == b.last());
    }
}

/// Files that all belong to the job and have the status are all counted.
proof fn lemma_output_count_all(fs: Seq<OutputFile>, job_id: u128, status: Status)
    requires
        forall|i: int| 0 <= i < fs.len() ==> (#[trigger] fs[i]).job_id == job_id && fs[i].status == status,
    ensures
        output_count(fs, job_id, status) == fs.len(),
    decreases fs.len(),
{
    if fs.len() > 0 {
        assert(fs.last() == fs[fs.len() - 1]);
        lemma_output_count_all(fs.drop_last(), job_id, status);
    }
}

/// Output files recorded for a datum and then patched as done, by patches
/// that name only those files, are stored as done after the files stored
/// before, and the job's count of done output files grows by their number.
pub proof fn patched_outputs_are_done(
    pre: Db,
    mid: Db,
    post: Db,
    datum_id: u128,
    pod_name: String,
    posts: Seq<OutputFilePost>,
    now: i64,
    files: Vec<OutputFile>,
    patches: Seq<OutputFilePatch>,
)
    requires
        pre.wf(),
        output_files_created(pre, mid, datum_id, pod_name, posts, now, Ok(files)),
        output_files_patched(mid, post, datum_id, pod_name, patches, Ok(())),
        forall|i: int| 0 <= i < files@.len() ==> patch_marks(patches, (#[trigger] files@[i]).id, Status::Done),
        forall|i: int| 0 <= i < files@.len() ==> !patch_marks(patches, (#[trigger] files@[i]).id, Status::Error),
        forall|q: int| 0 <= q < patches.len() ==> exists|i: int| 0 <= i < files@.len() && (#[trigger] files@[i]).id == (#[trigger] patches[q]).id,
    ensures
        post.output_files@.len() == pre.output_files@.len() + posts.len(),
        forall|i: int|
            0 <= i < posts.len() ==> (#[trigger] post.output_files@[pre.output_files@.len() + i]).id
                == files@[i].id && post.output_files@[pre.output_files@.len() + i].status
                == Status::Done,
        output_count(
            post.output_files@,
            pre.datums@[datum_pos(pre.datums@, datum_id)].job_id,
            Status::Done,
        ) == output_count(
            pre.output_files@,
            pre.datums@[datum_pos(pre.datums@, datum_id)].job_id,
            Status::Done,
        ) + posts.len(),
{
    let n = pre.output_files@.len() as int;
    let d = pre.datums@[datum_pos(pre.datums@, datum_id)];
    assert(d.id == datum_id);
    assert forall|i: int| 0 <= i < posts.len() implies (#[trigger] post.output_files@[n + i]).id
        == files@[i].id && post.output_files@[n + i].status == Status::Done by {
        assert(mid.output_files@[n + i] == files@[i]);
    }
    // Files stored before keep their status: no patch names them.
    assert forall|k: int| 0 <= k < n implies #[trigger] post.output_files@[k] == pre.output_files@[k] by {
        assert(mid.output_files@[k] == pre.output_files@[k]);
        let f = pre.output_files@[k];
        assert(f.id < pre.next_id);
        assert forall|q: int| 0 <= q < patches.len() implies (#[trigger] patches[q]).id != f.id by {
            let i = choose|i: int| 0 <= i < files@.len() && (#[trigger] files@[i]).id == patches[q].id;
            assert(files@[i].id == (pre.next_id + i) as u128);
        }
    }
    let added = post.output_files@.subrange(n, post.output_files@.len() as int);
    assert(post.output_files@ =~= pre.output_files@ + added);
    assert forall|i: int| 0 <= i < added.len() implies (#[trigger] added[i]).job_id == d.job_id
        && added[i].status == Status::Done by {
        assert(added[i] == post.output_files@[n + i]);
        assert(mid.output_files@[n + i] == files@[i]);
    }
    lemma_output_count_concat(pre.output_files@, added, d.job_id, Status::Done);
    lemma_output_count_all(added, d.job_id, Status::Done);
}

/// A reservation takes a ready datum and hands it to the reserving pod, so
/// two reservations one after the other never hand out the same datum.
pub proof fn reservations_are_exclusive(
    s0: Db,
    s1: Db,
    s2: Db,
    job_a: u128,
    node_a: String,
    pod_a: String,
    now_a: i64,
    job_b: u128,
    node_b: String,
    pod_b: String,
    now_b: i64,
    a: (Datum, Vec<InputFile>),
    b: (Datum, Vec<InputFile>),
)
    requires
        s1.wf(),
        reservation(s0, s1, job_a, node_a, pod_a, now_a, Ok(Some(a))),
        reservation(s1, s2, job_b, node_b, pod_b, now_b, Ok(Some(b))),
    ensures
        a.0.id != b.0.id,
        a.0.status == Status::Running && a.0.pod_name == Some(pod_a),
        b.0.status == Status::Running && b.0.pod_name == Some(pod_b),
        exists|i: int|
            0 <= i < s0.datums@.len() && (#[trigger] s0.datums@[i]).id == a.0.id
                && s0.datums@[i].status == Status::Ready,
{
    let i = choose|i: int|
        #[trigger] is_first_ready(s0.datums@, job_a, i) && s1.datums@ == s0.datums@.update(
            i,
            crate::store::reserved(s0.datums@[i], node_a, pod_a, now_a),
        ) && a.0 == s1.datums@[i];
    let m = choose|m: int|
        #[trigger] is_first_ready(s1.datums@, job_b, m) && s2.datums@ == s1.datums@.update(
            m,
            crate::store::reserved(s1.datums@[m], node_b, pod_b, now_b),
        ) && b.0 == s2.datums@[m];
    assert(s1.datums@[i].status == Status::Running);
    assert(m != i);
    if m < i {
        assert(s1.datums@[m].id != s1.datums@[i].id);
    } else {
        assert(s1.datums@[i].id != s1.datums@[m].id);
    }
    assert(s0.datums@[i].id == a.0.id);
}

/// A pod that is not the datum's recorded pod does not own it.
proof fn lemma_foreign_pod_not_owner(db: Db, datum_id: u128, pod_name: String, k: int)
    requires
        db.wf(),
        0 <= k < db.datums@.len(),
        db.datums@[k].id == datum_id,
        !(db.datums@[k].pod_name is Some && db.datums@[k].pod_name->0@ == pod_name@),
    ensures
        ownership_error(db.datums@, datum_id, pod_name) is Some,
{
    let p = datum_pos(db.datums@, datum_id);
    lemma_unique_datum_ids(db.datums@, p, k);
}

/// A patch from a pod other than the one that owns the datum is refused
/// with a 403 and changes nothing.
pub proof fn foreign_pod_cannot_patch(
    pre: Db,
    post: Db,
    datum_id: u128,
    pod_name: String,
    patch: DatumPatch,
    now: i64,
    r: Result<Datum, FalconeridError>,
    k: int,
)
    requires
        pre.wf(),
        datum_patched(pre, post, datum_id, pod_name, patch, now, r),
        0 <= k < pre.datums@.len(),
        pre.datums@[k].id == datum_id,
        !(pre.datums@[k].pod_name is Some && pre.datums@[k].pod_name->0@ == pod_name@),
    ensures
        r matches Err(FalconeridError::Forbidden(_)),
        post == pre,
{
    lemma_foreign_pod_not_owner(pre, datum_id, pod_name, k);
}

/// Recording or patching output files on behalf of a pod other than the one
/// that owns the datum is refused with a 403 and changes nothing.
pub proof fn foreign_pod_cannot_record_outputs(
    pre: Db,
    post: Db,
    mid: Db,
    datum_id: u128,
    pod_name: String,
    posts: Seq<OutputFilePost>,
    patches: Seq<OutputFilePatch>,
    now: i64,
    created: Result<Vec<OutputFile>, FalconeridError>,
    patched: Result<(), FalconeridError>,
    k: int,
)
    requires
        pre.wf(),
        output_files_created(pre, mid, datum_id, pod_name, posts, now, created),
        output_files_patched(pre, post, datum_id, pod_name, patches, patched),
        0 <= k < pre.datums@.len(),
        pre.datums@[k].id == datum_id,
        !(pre.datums@[k].pod_name is Some && pre.datums@[k].pod_name->0@ == pod_name@),
    ensures
        created matches Err(FalconeridError::Forbidden(_)),
        mid == pre,
        valid_file_patches(patches) ==> (patched matches Err(FalconeridError::Forbidden(_))),
        post == pre,
{
    lemma_foreign_pod_not_owner(pre, datum_id, pod_name, k);
}

/// Each datum handed out by a run of reservations, one after another by any
/// number of workers, was ready when taken and is handed out once only.
pub proof fn reservations_never_share_a_datum(
    states: Seq<Db>,
    job_ids: Seq<u128>,
    nodes: Seq<String>,
    pods: Seq<String>,
    times: Seq<i64>,
    taken: Seq<(Datum, Vec<InputFile>)>,
)
    requires
        states.len() == taken.len() + 1,
        job_ids.len() == taken.len(),
        nodes.len() == taken.len(),
        pods.len() == taken.len(),
        times.len() == taken.len(),
        forall|i: int| 0 <= i < states.len() ==> (#[trigger] states[i]).wf(),
        forall|i: int|
            0 <= i < taken.len() ==> reservation(
                #[trigger] states[i],
                states[i + 1],
                job_ids[i],
                nodes[i],
                pods[i],
                times[i],
                Ok(Some(taken[i])),
            ),
    ensures
        forall|i: int, j: int| 0 <= i < j < taken.len() ==> (#[trigger] taken[i]).0.id != (#[trigger] taken[j]).0.id,
        forall|i: int| 0 <= i < taken.len() ==> (#[trigger] taken[i]).0.pod_name == Some(pods[i]),
{
    assert forall|i: int, j: int| 0 <= i < j < taken.len() implies (#[trigger] taken[i]).0.id != (#[trigger] taken[j]).0.id by {
        let p = lemma_taken_stays_running(states, job_ids, nodes, pods, times, taken, i, j);
        let m = choose|m: int|
            #[trigger] is_first_ready(states[j].datums@, job_ids[j], m) && states[j + 1].datums@ == states[j].datums@.update(
                m,
                crate::store::reserved(states[j].datums@[m], nodes[j], pods[j], times[j]),
            ) && taken[j].0 == states[j + 1].datums@[m];
        assert(m != p);
        if taken[i].0.id == taken[j].0.id {
            lemma_unique_datum_ids(states[j].datums@, m, p);
        }
    }
    assert forall|i: int| 0 <= i < taken.len() implies (#[trigger] taken[i]).0.pod_name == Some(pods[i]) by {
        assert(reservation(states[i], states[i + 1], job_ids[i], nodes[i], pods[i], times[i], Ok(Some(taken[i]))));
    }
}

/// The datum taken by reservation `i` is still running, with the same
/// identifier, when reservation `j > i` runs.
proof fn lemma_taken_stays_running(
    states: Seq<Db>,
    job_ids: Seq<u128>,
    nodes: Seq<String>,
    pods: Seq<String>,
    times: Seq<i64>,
    taken: Seq<(Datum, Vec<InputFile>)>,
    i: int,
    j: int,
) -> (p: int)
    requires
        states.len() == taken.len() + 1,
        job_ids.len() == taken.len(),
        nodes.len() == taken.len(),
        pods.len() == taken.len(),
        times.len() == taken.len(),
        forall|x: int|
            0 <= x < taken.len() ==> reservation(
                #[trigger] states[x],
                states[x + 1],
                job_ids[x],
                nodes[x],
                pods[x],
                times[x],
                Ok(Some(taken[x])),
            ),
        0 <= i < j <= taken.len(),
    ensures
        0 <= p < states[j].datums@.len(),
        states[j].datums@[p].id == taken[i].0.id,
        states[j].datums@[p].status == Status::Running,
    decreases j - i,
{
    if j == i + 1 {
        assert(reservation(states[i], states[i + 1], job_ids[i], nodes[i], pods[i], times[i], Ok(Some(taken[i]))));
        let q = choose|q: int|
            #[trigger] is_first_ready(states[i].datums@, job_ids[i], q) && states[i + 1].datums@ == states[i].datums@.update(
                q,
                crate::store::reserved(states[i].datums@[q], nodes[i], pods[i], times[i]),
            ) && taken[i].0 == states[i + 1].datums@[q];
        q
    } else {
        let p = lemma_taken_stays_running(states, job_ids, nodes, pods, times, taken, i, j - 1);
        let x = j - 1;
        assert(reservation(states[x], states[x + 1], job_ids[x], nodes[x], pods[x], times[x], Ok(Some(taken[x]))));
        let q = choose|q: int|
            #[trigger] is_first_ready(states[x].datums@, job_ids[x], q) && states[x + 1].datums@ == states[x].datums@.update(
                q,
                crate::store::reserved(states[x].datums@[q], nodes[x], pods[x], times[x]),
            ) && taken[x].0 == states[x + 1].datums@[q];
        assert(q != p);
        assert(states[j].datums@[p] == states[x].datums@[p]);
        p
    }
}

/// With no datum that may run again, every output file is kept.
proof fn lemma_all_files_kept(fs: Seq<OutputFile>, jobs: Seq<Job>, ds: Seq<Datum>)
    requires
        forall|k: int| 0 <= k < ds.len() ==> !is_rerun_candidate(jobs, #[trigger] ds[k]),
    ensures
        kept_files(fs, jobs, ds) == fs,
    decreases fs.len(),
{
    if fs.len() > 0 {
        lemma_all_files_kept(fs.drop_last(), jobs, ds);
        assert(!is_rerun_target(jobs, ds, fs.last().datum_id));
        assert(fs.drop_last().push(fs.last()) =~= fs);
    }
}

/// After one babysitter cycle, no running job would change in the first
/// pass, no datum is a zombie, and no datum may be requeued.
proof fn lemma_cycle_settles(s0: Db, s3: Db, live_jobs: Seq<String>, live_pods: Seq<String>, now: i64)
    requires
        babysitter_cycle(s0, s3, live_jobs, live_pods, now),
    ensures
        forall|j: int|
            0 <= j < s3.jobs@.len() ==> swept_job(#[trigger] s3.jobs@[j], s3.datums@, live_jobs, now)
                == s3.jobs@[j],
        forall|k: int| 0 <= k < s3.datums@.len() ==> !is_zombie(live_pods, #[trigger] s3.datums@[k]),
        forall|k: int| 0 <= k < s3.datums@.len() ==> !is_rerun_candidate(s3.jobs@, #[trigger] s3.datums@[k]),
{
    let (a1, a2) = choose|a1: Db, a2: Db|
        #![trigger jobs_swept(s0, a1, live_jobs, now), reruns_requeued(a2, s3, now)]
        jobs_swept(s0, a1, live_jobs, now) && zombies_swept(a1, a2, live_pods, now)
            && reruns_requeued(a2, s3, now);
    // Datums keep their places, identifiers and jobs through the passes.
    assert forall|k: int| 0 <= k < s3.datums@.len() implies {
        &&& (#[trigger] s3.datums@[k]).id == a1.datums@[k].id
        &&& s3.datums@[k].job_id == a1.datums@[k].job_id
        &&& a2.datums@[k].job_id == a1.datums@[k].job_id
    } by {
        assert(a1.datums@[k] == a1.datums@[k]);
    }
    // No datum may be requeued.
    assert forall|k: int| 0 <= k < s3.datums@.len() implies !is_rerun_candidate(
        s3.jobs@,
        #[trigger] s3.datums@[k],
    ) by {
        let d = a2.datums@[k];
        if is_rerun_candidate(a2.jobs@, d) {
            assert(s3.datums@[k].status == Status::Ready);
        }
    }
    // No datum is a zombie.
    assert forall|k: int| 0 <= k < s3.datums@.len() implies !is_zombie(live_pods,
        #[trigger] s3.datums@[k],
    ) by {
        let d = s3.datums@[k];
        if is_zombie(live_pods, d) {
            assert(!is_rerun_candidate(a2.jobs@, a2.datums@[k]));
            assert(d == a2.datums@[k]);
            assert(!is_zombie(live_pods, a1.datums@[k]));
        }
    }
    // The zombie pass changes only datums of jobs that had a zombie, and the
    // requeue pass makes no datum done, idle, or failed for good.
    let changed = |x: u128| has_zombie(live_pods, a1.datums@, x);
    assert(status_changed_only_where(a1.datums@, a2.datums@, changed)) by {
        assert forall|m: int| 0 <= m < a1.datums@.len() && !changed((#[trigger] a1.datums@[m]).job_id)
            implies a1.datums@[m].status == a2.datums@[m].status
                && a1.datums@[m].attempted_run_count == a2.datums@[m].attempted_run_count
                && a1.datums@[m].maximum_allowed_run_count == a2.datums@[m].maximum_allowed_run_count by {
            if is_zombie(live_pods, a1.datums@[m]) {
                assert(has_zombie(live_pods, a1.datums@, a1.datums@[m].job_id));
            }
        }
    }
    assert(same_datum_ids(a2.datums@, s3.datums@));
    assert forall|m: int| 0 <= m < a2.datums@.len() implies {
        &&& ((#[trigger] s3.datums@[m]).status == Status::Done ==> a2.datums@[m].status == Status::Done)
        &&& (is_active(a2.datums@[m]) ==> is_active(s3.datums@[m]))
        &&& (is_final_failure(s3.datums@[m]) ==> is_final_failure(a2.datums@[m]))
    } by {}
    // No running job changes in the first pass.
    assert forall|j: int| 0 <= j < s3.jobs@.len() implies swept_job(
        #[trigger] s3.jobs@[j],
        s3.datums@,
        live_jobs,
        now,
    ) == s3.jobs@[j] by {
        let job = s3.jobs@[j];
        if job.status == Status::Running {
            let id = job.id;
            let j0 = s0.jobs@[j];
            let j1 = a1.jobs@[j];
            assert(j1 == swept_job(j0, s0.datums@, live_jobs, now));
            assert(a2.jobs@[j] == job);
            assert(j1.status == Status::Running);
            assert(j0.status == Status::Running);
            let st = settle_job(j0, s0.datums@, now);
            assert(st.status == Status::Running);
            assert(!(past_grace(st.created_at, now) && !name_in(live_jobs, st.job_name@)));
            assert(j1 == st);
            // The job stays running when settled after the second pass ...
            assert(settled_status(a2.datums@, id, Status::Running) == Status::Running) by {
                if has_zombie(live_pods, a1.datums@, id) {
                    assert(job == settle_job(j1, a2.datums@, now));
                } else {
                    lemma_unchanged_jobs(a1.datums@, a2.datums@, changed, id);
                }
            }
            // ... and after the third.
            lemma_no_new_done(a2.datums@, s3.datums@, id);
            assert(settled_status(s3.datums@, id, Status::Running) == Status::Running);
        }
    }
}

/// Running the babysitter twice in a row, with the same view of the cluster
/// and the same time, leaves the store as running it once did.
pub proof fn babysitter_is_idempotent(
    s0: Db,
    s1: Db,
    s2: Db,
    live_jobs: Seq<String>,
    live_pods: Seq<String>,
    now: i64,
)
    requires
        babysitter_cycle(s0, s1, live_jobs, live_pods, now),
        babysitter_cycle(s1, s2, live_jobs, live_pods, now),
    ensures
        s2.jobs@ == s1.jobs@,
        s2.datums@ == s1.datums@,
        s2.input_files@ == s1.input_files@,
        s2.output_files@ == s1.output_files@,
        s2.next_id == s1.next_id,
{
    lemma_cycle_settles(s0, s1, live_jobs, live_pods, now);
    let (b1, b2) = choose|b1: Db, b2: Db|
        #![trigger jobs_swept(s1, b1, live_jobs, now), reruns_requeued(b2, s2, now)]
        jobs_swept(s1, b1, live_jobs, now) && zombies_swept(b1, b2, live_pods, now)
            && reruns_requeued(b2, s2, now);
    assert(b1.jobs@ =~= s1.jobs@);
    assert(b2.datums@ =~= b1.datums@);
    assert forall|id: u128| !has_zombie(live_pods, b1.datums@, id) by {}
    assert(b2.jobs@ =~= b1.jobs@);
    assert(s2.datums@ =~= b2.datums@);
    lemma_all_files_kept(b2.output_files@, b2.jobs@, b2.datums@);
}

} // verus!
