//! The babysitter's reconciliation passes: jobs that should have finished or
//! whose Kubernetes job vanished, datums whose pod vanished ("zombies"), and
//! errored datums that may run again.
//!
//! The set of live Kubernetes job names and pod names, and the current time,
//! are read by the caller and handed in.

use vstd::prelude::*;

use crate::models::{Datum, Job, OutputFile};
use crate::status::Status;
use crate::store::{lemma_unique_job_ids, lemma_unique_datum_ids, counts_monotone, 
    all_done, datum_has_input, datum_wf, datums_extended, has_datums, job_wf, lemma_files_still_belong, output_file_wf, job_is_running, lemma_no_new_done, lemma_settled_done,
    lemma_unchanged_jobs, same_datum_ids, settle_job,
    status_changed_only_where, Db,
};

verus! {

/// How long a running job may lack a Kubernetes job before it is marked
/// failed, in seconds.
pub const VANISHED_JOB_GRACE_SECS: i64 = 900;

/// Is some string of `names` equal to `name`?
pub open spec fn name_in(names: Seq<String>, name: Seq<char>) -> bool {
    exists|i: int| 0 <= i < names.len() && (#[trigger] names[i])@ == name
}

/// Is `name` one of `names`?
pub fn contains_name(names: &Vec<String>, name: &String) -> (r: bool)
    ensures
        r == name_in(names@, name@),
{
    let mut i: usize = 0;
    while i < names.len()
        invariant
            i <= names@.len(),
            forall|m: int| 0 <= m < i ==> (#[trigger] names@[m])@ != name@,
        decreases names@.len() - i,
    {
        if names[i] == *name {
            return true;
        }
        i = i + 1;
    }
    false
}

/// Was a job created at `created_at` created before the grace period that
/// ends at `now`?
pub open spec fn past_grace(created_at: i64, now: i64) -> bool {
    created_at < now - VANISHED_JOB_GRACE_SECS
}

/// The running job `job` after the first pass, given the datums `ds`, the
/// live Kubernetes job names `live` and the time `now`: settled first, then
/// marked failed if it still runs, is past its grace period, and has no
/// Kubernetes job. Other jobs are untouched.
pub open spec fn swept_job(job: Job, ds: Seq<Datum>, live: Seq<String>, now: i64) -> Job {
    if job.status != Status::Running {
        job
    } else {
        let s = settle_job(job, ds, now);
        if s.status == Status::Running && past_grace(s.created_at, now) && !name_in(
            live,
            s.job_name@,
        ) {
            Job { status: Status::Error, updated_at: now, ..s }
        } else {
            s
        }
    }
}

/// The output recorded on a datum whose pod vanished.
pub const ZOMBIE_OUTPUT: &'static str = "(did not capture output)";

/// The error message recorded on a datum whose pod vanished.
pub const ZOMBIE_ERROR_MESSAGE: &'static str = "worker pod disappeared while working on datum";

/// The backtrace recorded on a datum whose pod vanished.
pub const ZOMBIE_BACKTRACE: &'static str = "(no backtrace available)";

/// Is `d` a zombie: running on a pod that is not among the live pods
/// `live`?
pub open spec fn is_zombie(live: Seq<String>, d: Datum) -> bool {
    &&& d.status == Status::Running
    &&& (d.pod_name is None || !name_in(live, d.pod_name->0@))
}

/// Does the job `job_id` have a zombie datum?
pub open spec fn has_zombie(live: Seq<String>, ds: Seq<Datum>, job_id: u128) -> bool {
    exists|k: int| 0 <= k < ds.len() && #[trigger] ds[k].job_id == job_id && is_zombie(live, ds[k])
}

/// Is `new` the zombie datum `d` marked failed at `now`, with the synthetic
/// output, error message and backtrace?
pub open spec fn zombie_marked(d: Datum, new: Datum, now: i64) -> bool {
    &&& new == Datum {
        status: Status::Error,
        output: new.output,
        error_message: new.error_message,
        backtrace: new.backtrace,
        updated_at: now,
        ..d
    }
    &&& new.output is Some && new.output->0@ == ZOMBIE_OUTPUT@
    &&& new.error_message is Some && new.error_message->0@ == ZOMBIE_ERROR_MESSAGE@
    &&& new.backtrace is Some && new.backtrace->0@ == ZOMBIE_BACKTRACE@
}

/// May the datum `d` run again: has it failed with attempts left, in a
/// running job?
pub open spec fn is_rerun_candidate(jobs: Seq<Job>, d: Datum) -> bool {
    d.spec_is_rerunable() && job_is_running(jobs, d.job_id)
}

/// Is `datum_id` the identifier of a datum that may run again?
pub open spec fn is_rerun_target(jobs: Seq<Job>, ds: Seq<Datum>, datum_id: u128) -> bool {
    exists|k: int| 0 <= k < ds.len() && #[trigger] ds[k].id == datum_id && is_rerun_candidate(jobs, ds[k])
}

/// The datum `d` made ready to run again at `now`.
pub open spec fn requeued(d: Datum, now: i64) -> Datum {
    Datum { status: Status::Ready, updated_at: now, ..d }
}

/// The output files of `fs` that do not belong to a datum that may run again,
/// in their order.
pub open spec fn kept_files(fs: Seq<OutputFile>, jobs: Seq<Job>, ds: Seq<Datum>) -> Seq<OutputFile>
    decreases fs.len(),
{
    if fs.len() == 0 {
        Seq::empty()
    } else {
        let rest = kept_files(fs.drop_last(), jobs, ds);
        if is_rerun_target(jobs, ds, fs.last().datum_id) {
            rest
        } else {
            rest.push(fs.last())
        }
    }
}

/// Every output file that is kept was there before.
pub proof fn lemma_kept_files_from(fs: Seq<OutputFile>, jobs: Seq<Job>, ds: Seq<Datum>, i: int)
    requires
        0 <= i < kept_files(fs, jobs, ds).len(),
    ensures
        fs.contains(kept_files(fs, jobs, ds)[i]),
    decreases fs.len(),
{
    let rest = kept_files(fs.drop_last(), jobs, ds);
    if i < rest.len() {
        lemma_kept_files_from(fs.drop_last(), jobs, ds, i);
        let w = choose|w: int| 0 <= w < fs.drop_last().len() && fs.drop_last()[w] == rest[i];
        assert(fs[w] == rest[i]);
    } else {
        assert(fs[fs.len() - 1] == fs.last());
    }
}

/// Is `id` one of `ids`?
fn contains_id(ids: &Vec<u128>, id: u128) -> (r: bool)
    ensures
        r == ids@.contains(id),
{
    let mut i: usize = 0;
    while i < ids.len()
        invariant
            i <= ids@.len(),
            forall|m: int| 0 <= m < i ==> ids@[m] != id,
        decreases ids@.len() - i,
    {
        if ids[i] == id {
            return true;
        }
        i = i + 1;
    }
    false
}

/// What the first pass does: each running job is swept; nothing else
/// changes.
pub open spec fn jobs_swept(pre: Db, post: Db, live: Seq<String>, now: i64) -> bool {
    &&& post.jobs@ == pre.jobs@.map(|j: int, job: Job| swept_job(job, pre.datums@, live, now))
    &&& post.datums == pre.datums
    &&& post.input_files == pre.input_files
    &&& post.output_files == pre.output_files
    &&& post.next_id == pre.next_id
}

/// What the second pass does: each zombie datum is marked failed, and each
/// job that had one is settled.
pub open spec fn zombies_swept(pre: Db, post: Db, live: Seq<String>, now: i64) -> bool {
    &&& post.datums@.len() == pre.datums@.len()
    &&& forall|k: int|
        0 <= k < pre.datums@.len() ==> if is_zombie(live, #[trigger] pre.datums@[k]) {
            zombie_marked(pre.datums@[k], post.datums@[k], now)
        } else {
            post.datums@[k] == pre.datums@[k]
        }
    &&& post.jobs@ == pre.jobs@.map(
        |j: int, job: Job|
            if has_zombie(live, pre.datums@, job.id) {
                settle_job(job, post.datums@, now)
            } else {
                job
            },
    )
    &&& post.input_files == pre.input_files
    &&& post.output_files == pre.output_files
    &&& post.next_id == pre.next_id
}

/// What the third pass does: each datum that may run again is made ready,
/// and the output files of such datums are forgotten.
pub open spec fn reruns_requeued(pre: Db, post: Db, now: i64) -> bool {
    &&& post.datums@ == pre.datums@.map(
        |k: int, d: Datum|
            if is_rerun_candidate(pre.jobs@, d) {
                requeued(d, now)
            } else {
                d
            },
    )
    &&& post.output_files@ == kept_files(pre.output_files@, pre.jobs@, pre.datums@)
    &&& post.jobs == pre.jobs
    &&& post.input_files == pre.input_files
    &&& post.next_id == pre.next_id
}

/// What one babysitter cycle does: the three passes, one after the other.
pub open spec fn babysitter_cycle(
    pre: Db,
    post: Db,
    live_job_names: Seq<String>,
    live_pod_names: Seq<String>,
    now: i64,
) -> bool {
    exists|s1: Db, s2: Db|
        #![trigger jobs_swept(pre, s1, live_job_names, now), reruns_requeued(s2, post, now)]
        jobs_swept(pre, s1, live_job_names, now) && zombies_swept(s1, s2, live_pod_names, now)
            && reruns_requeued(s2, post, now)
}

impl Db {
    /// Run one babysitter cycle: settle running jobs and fail vanished ones,
    /// fail zombie datums, then requeue failed datums that may run again.
    pub fn check_running_jobs(
        &mut self,
        live_job_names: &Vec<String>,
        live_pod_names: &Vec<String>,
        now: i64,
    )
        requires
            old(self).wf(),
        ensures
            final(self).wf(),
            counts_monotone(old(self).datums@, final(self).datums@),
            babysitter_cycle(*old(self), *final(self), live_job_names@, live_pod_names@, now),
    {
        self.check_for_finished_and_vanished_jobs(live_job_names, now);
        let ghost s1 = *self;
        self.check_for_zombie_datums(live_pod_names, now);
        let ghost s2 = *self;
        self.check_for_datums_which_can_be_rerun(now);
        proof {
            assert(jobs_swept(*old(self), s1, live_job_names@, now));
            assert(reruns_requeued(s2, *self, now));
        }
    }

    /// Is the job `job_id` stored and running?
    pub fn is_job_running(&self, job_id: u128) -> (r: bool)
        requires
            forall|a: int, b: int|
                0 <= a < b < self.jobs@.len() ==> (#[trigger] self.jobs@[a]).id != (
                #[trigger] self.jobs@[b]).id,
        ensures
            r == job_is_running(self.jobs@, job_id),
    {
        match self.job_index(job_id) {
            Some(j) => {
                proof {
                    assert forall|m: int| 0 <= m < self.jobs@.len() && #[trigger] self.jobs@[m].id == job_id
                        implies m == j by {
                        lemma_unique_job_ids(self.jobs@, m, j as int);
                    }
                }
                self.jobs[j].status == Status::Running
            },
            None => false,
        }
    }

    /// Does the datum `datum_id` exist and may it run again?
    pub fn is_rerun_target_exec(&self, datum_id: u128) -> (r: bool)
        requires
            self.wf(),
        ensures
            r == is_rerun_target(self.jobs@, self.datums@, datum_id),
    {
        match self.datum_index(datum_id) {
            Some(k) => {
                proof {
                    assert forall|m: int| 0 <= m < self.datums@.len() && #[trigger] self.datums@[m].id == datum_id
                        implies m == k by {
                        lemma_unique_datum_ids(self.datums@, m, k as int);
                    }
                }
                self.datums[k].is_rerunable() && self.is_job_running(self.datums[k].job_id)
            },
            None => false,
        }
    }

    /// Make ready again every datum that failed with attempts left in a
    /// running job, and forget the output files such datums recorded. The
    /// attempt counter is left alone: it grows at the next reservation.
    pub fn check_for_datums_which_can_be_rerun(&mut self, now: i64)
        requires
            old(self).wf(),
        ensures
            final(self).wf(),
            counts_monotone(old(self).datums@, final(self).datums@),
            reruns_requeued(*old(self), *final(self), now),
    {
        let ghost pre = *self;
        let mut kept: Vec<OutputFile> = Vec::new();
        let mut i: usize = 0;
        while i < self.output_files.len()
            invariant
                i <= self.output_files@.len(),
                *self == pre,
                pre.wf(),
                kept@ == kept_files(self.output_files@.subrange(0, i as int), pre.jobs@, pre.datums@),
            decreases self.output_files@.len() - i,
        {
            proof {
                let next = self.output_files@.subrange(0, i + 1);
                assert(next.drop_last() =~= self.output_files@.subrange(0, i as int));
                assert(next.last() == self.output_files@[i as int]);
            }
            if !self.is_rerun_target_exec(self.output_files[i].datum_id) {
                kept.push(self.output_files[i].copy());
            }
            i = i + 1;
        }
        proof {
            assert(self.output_files@.subrange(0, self.output_files@.len() as int) =~= self.output_files@);
            assert forall|m: int| 0 <= m < kept@.len() implies (#[trigger] kept@[m]).id < pre.next_id by {
                lemma_kept_files_from(pre.output_files@, pre.jobs@, pre.datums@, m);
                let w = choose|w: int| 0 <= w < pre.output_files@.len() && pre.output_files@[w] == kept@[m];
                assert(pre.output_files@[w].id < pre.next_id);
            }
        }
        self.output_files = kept;
        let ghost mid = *self;
        let mut k: usize = 0;
        while k < self.datums.len()
            invariant
                k <= self.datums@.len(),
                self.datums@.len() == pre.datums@.len(),
                pre.wf(),
                forall|m: int|
                    0 <= m < k ==> #[trigger] self.datums@[m] == (if is_rerun_candidate(pre.jobs@, pre.datums@[m]) {
                        requeued(pre.datums@[m], now)
                    } else {
                        pre.datums@[m]
                    }),
                forall|m: int| k <= m < self.datums@.len() ==> #[trigger] self.datums@[m] == pre.datums@[m],
                self.jobs == pre.jobs,
                self.input_files == pre.input_files,
                self.output_files == mid.output_files,
                self.next_id == pre.next_id,
            decreases self.datums@.len() - k,
        {
            if self.datums[k].is_rerunable() && self.is_job_running(self.datums[k].job_id) {
                self.datums[k].status = Status::Ready;
                self.datums[k].updated_at = now;
            }
            k = k + 1;
        }
        proof {
            assert(self.datums@ =~= pre.datums@.map(
                |k: int, d: Datum|
                    if is_rerun_candidate(pre.jobs@, d) {
                        requeued(d, now)
                    } else {
                        d
                    },
            ));
            let changed = |id: u128| job_is_running(pre.jobs@, id);
            assert(same_datum_ids(pre.datums@, self.datums@));
            assert(status_changed_only_where(pre.datums@, self.datums@, changed));
            assert forall|a: int| 0 <= a < self.datums@.len() implies datum_wf(#[trigger] self.datums@[a]) by {
                assert(datum_wf(pre.datums@[a]));
            }
            assert forall|a: int| 0 <= a < self.jobs@.len() implies job_wf(self.datums@, #[trigger] self.jobs@[a]) by {
                let job = pre.jobs@[a];
                if changed(job.id) {
                    assert forall|m: int| 0 <= m < pre.datums@.len() && (#[trigger] self.datums@[m]).status == Status::Done
                        implies pre.datums@[m].status == Status::Done by {}
                    lemma_no_new_done(pre.datums@, self.datums@, job.id);
                    let w = choose|w: int| 0 <= w < pre.jobs@.len() && #[trigger] pre.jobs@[w].id == job.id
                        && pre.jobs@[w].status == Status::Running;
                    lemma_unique_job_ids(pre.jobs@, w, a);
                } else {
                    lemma_unchanged_jobs(pre.datums@, self.datums@, changed, job.id);
                }
            }
            assert forall|a: int, b: int| 0 <= a < b < self.datums@.len() implies (#[trigger] self.datums@[a]).id != (
                #[trigger] self.datums@[b]).id by {
                assert(pre.datums@[a].id != pre.datums@[b].id);
            }
            assert forall|a: int| 0 <= a < self.datums@.len() implies (#[trigger] self.datums@[a]).id < self.next_id
                && self.datums@[a].job_id < self.next_id by {
                assert(pre.datums@[a].id < pre.next_id);
            }
            assert(datums_extended(pre.datums@, self.datums@));
            lemma_files_still_belong(pre.datums@, self.datums@, pre.input_files@, pre.output_files@);
            assert forall|m: int| 0 <= m < self.output_files@.len() implies output_file_wf(
                self.datums@,
                #[trigger] self.output_files@[m],
            ) by {
                lemma_kept_files_from(pre.output_files@, pre.jobs@, pre.datums@, m);
                let w = choose|w: int| 0 <= w < pre.output_files@.len() && pre.output_files@[w] == self.output_files@[m];
                assert(output_file_wf(self.datums@, pre.output_files@[w]));
            }
        }
    }

    /// Mark failed every zombie datum: running on a pod that is not among
    /// `live_pod_names`. Then settle each job that had one.
    pub fn check_for_zombie_datums(&mut self, live_pod_names: &Vec<String>, now: i64)
        requires
            old(self).wf(),
        ensures
            final(self).wf(),
            counts_monotone(old(self).datums@, final(self).datums@),
            zombies_swept(*old(self), *final(self), live_pod_names@, now),
    {
        let ghost pre = *self;
        let mut zombie_jobs: Vec<u128> = Vec::new();
        let mut k: usize = 0;
        while k < self.datums.len()
            invariant
                k <= self.datums@.len(),
                self.datums@.len() == pre.datums@.len(),
                pre.wf(),
                forall|m: int|
                    0 <= m < k ==> if is_zombie(live_pod_names@, #[trigger] pre.datums@[m]) {
                        zombie_marked(pre.datums@[m], self.datums@[m], now)
                    } else {
                        self.datums@[m] == pre.datums@[m]
                    },
                forall|m: int| k <= m < self.datums@.len() ==> #[trigger] self.datums@[m] == pre.datums@[m],
                forall|id: u128|
                    zombie_jobs@.contains(id) <==> exists|m: int|
                        0 <= m < k && #[trigger] pre.datums@[m].job_id == id && is_zombie(live_pod_names@,
                            pre.datums@[m],
                        ),
                self.jobs == pre.jobs,
                self.input_files == pre.input_files,
                self.output_files == pre.output_files,
                self.next_id == pre.next_id,
            decreases self.datums@.len() - k,
        {
            let ghost old_zj = zombie_jobs@;
            let mut zombie = false;
            if self.datums[k].status == Status::Running {
                zombie = match &self.datums[k].pod_name {
                    Some(pod) => !contains_name(live_pod_names, pod),
                    None => true,
                };
            }
            if zombie {
                let job_id = self.datums[k].job_id;
                self.datums[k].status = Status::Error;
                self.datums[k].output = Some(ZOMBIE_OUTPUT.to_string());
                self.datums[k].error_message = Some(ZOMBIE_ERROR_MESSAGE.to_string());
                self.datums[k].backtrace = Some(ZOMBIE_BACKTRACE.to_string());
                self.datums[k].updated_at = now;
                zombie_jobs.push(job_id);
            }
            proof {
                assert(zombie == is_zombie(live_pod_names@, pre.datums@[k as int]));
                if zombie {
                    assert(zombie_jobs@ == old_zj.push(pre.datums@[k as int].job_id));
                } else {
                    assert(zombie_jobs@ == old_zj);
                }
                assert forall|id: u128|
                    zombie_jobs@.contains(id) <==> exists|m: int|
                        0 <= m < k + 1 && #[trigger] pre.datums@[m].job_id == id && is_zombie(live_pod_names@,
                            pre.datums@[m],
                        ) by {
                    if zombie && id == pre.datums@[k as int].job_id {
                        assert(zombie_jobs@[zombie_jobs@.len() - 1] == id);
                    }
                    if zombie_jobs@.contains(id) && !(zombie && id == pre.datums@[k as int].job_id) {
                        let w = choose|w: int| 0 <= w < zombie_jobs@.len() && zombie_jobs@[w] == id;
                        if zombie {
                            assert(w < zombie_jobs@.len() - 1);
                            assert(old_zj[w] == id);
                        }
                        assert(old_zj.contains(id));
                    }
                    if exists|m: int|
                        0 <= m < k + 1 && #[trigger] pre.datums@[m].job_id == id && is_zombie(live_pod_names@,
                            pre.datums@[m],
                        ) {
                        let m = choose|m: int|
                            0 <= m < k + 1 && #[trigger] pre.datums@[m].job_id == id && is_zombie(live_pod_names@,
                                pre.datums@[m],
                            );
                        if m < k {
                            assert(old_zj.contains(id));
                            let w = choose|w: int| 0 <= w < old_zj.len() && old_zj[w] == id;
                            assert(zombie_jobs@[w] == id);
                        } else {
                            assert(zombie_jobs@[zombie_jobs@.len() - 1] == id);
                        }
                    }
                }
            }
            k = k + 1;
        }
        let ghost mid = *self;
        proof {
            assert forall|m: int| 0 <= m < mid.datums@.len() implies datum_wf(#[trigger] mid.datums@[m]) by {
                assert(datum_wf(pre.datums@[m]));
            }
        }
        let mut j: usize = 0;
        while j < self.jobs.len()
            invariant
                j <= self.jobs@.len(),
                self.jobs@.len() == pre.jobs@.len(),
                forall|m: int|
                    0 <= m < j ==> #[trigger] self.jobs@[m] == (if has_zombie(live_pod_names@,
                        pre.datums@,
                        pre.jobs@[m].id,
                    ) {
                        settle_job(pre.jobs@[m], mid.datums@, now)
                    } else {
                        pre.jobs@[m]
                    }),
                forall|m: int| j <= m < self.jobs@.len() ==> #[trigger] self.jobs@[m] == pre.jobs@[m],
                forall|id: u128|
                    zombie_jobs@.contains(id) <==> has_zombie(live_pod_names@, pre.datums@, id),
                self.datums == mid.datums,
                self.input_files == pre.input_files,
                self.output_files == pre.output_files,
                self.next_id == pre.next_id,
            decreases self.jobs@.len() - j,
        {
            if contains_id(&zombie_jobs, self.jobs[j].id) {
                self.update_status_if_done(j, now);
            }
            j = j + 1;
        }
        proof {
            let changed = |id: u128| has_zombie(live_pod_names@, pre.datums@, id);
            assert(self.jobs@ =~= pre.jobs@.map(
                |j: int, job: Job|
                    if has_zombie(live_pod_names@, pre.datums@, job.id) {
                        settle_job(job, self.datums@, now)
                    } else {
                        job
                    },
            ));
            assert(status_changed_only_where(pre.datums@, self.datums@, changed)) by {
                assert forall|m: int| 0 <= m < pre.datums@.len() && !changed((#[trigger] pre.datums@[m]).job_id)
                    implies pre.datums@[m].status == self.datums@[m].status by {
                    if is_zombie(live_pod_names@, pre.datums@[m]) {
                        assert(has_zombie(live_pod_names@, pre.datums@, pre.datums@[m].job_id));
                    }
                }
            }
            assert forall|a: int| 0 <= a < self.jobs@.len() implies job_wf(self.datums@, #[trigger] self.jobs@[a]) by {
                let job = pre.jobs@[a];
                if changed(job.id) {
                    let w = choose|w: int| 0 <= w < pre.datums@.len() && #[trigger] pre.datums@[w].job_id == job.id
                        && is_zombie(live_pod_names@, pre.datums@[w]);
                    assert(!all_done(pre.datums@, job.id));
                    lemma_settled_done(self.datums@, job.id, job.status);
                } else {
                    lemma_unchanged_jobs(pre.datums@, self.datums@, changed, job.id);
                }
            }
            assert forall|a: int, b: int| 0 <= a < b < self.jobs@.len() implies (#[trigger] self.jobs@[a]).id != (
                #[trigger] self.jobs@[b]).id by {
                assert(pre.jobs@[a].id != pre.jobs@[b].id);
            }
            assert forall|a: int| 0 <= a < self.jobs@.len() implies (#[trigger] self.jobs@[a]).id < self.next_id by {
                assert(pre.jobs@[a].id < pre.next_id);
            }
            assert forall|k: int| 0 <= k < self.datums@.len() implies datum_has_input(
                self.input_files@,
                (#[trigger] self.datums@[k]).id,
            ) by {
                assert(self.datums@[k].id == pre.datums@[k].id);
            }
            assert forall|a: int, b: int| 0 <= a < b < self.datums@.len() implies (#[trigger] self.datums@[a]).id != (
                #[trigger] self.datums@[b]).id by {
                assert(pre.datums@[a].id != pre.datums@[b].id);
            }
            assert forall|a: int| 0 <= a < self.datums@.len() implies (#[trigger] self.datums@[a]).id < self.next_id
                && self.datums@[a].job_id < self.next_id by {
                assert(pre.datums@[a].id < pre.next_id);
            }
        }
    }

    /// Settle every running job, and mark failed each running job, older
    /// than the grace period, whose Kubernetes job is not among
    /// `live_job_names`.
    pub fn check_for_finished_and_vanished_jobs(&mut self, live_job_names: &Vec<String>, now: i64)
        requires
            old(self).wf(),
        ensures
            final(self).wf(),
            counts_monotone(old(self).datums@, final(self).datums@),
            jobs_swept(*old(self), *final(self), live_job_names@, now),
    {
        let ghost pre = *self;
        let mut j: usize = 0;
        while j < self.jobs.len()
            invariant
                j <= self.jobs@.len(),
                self.jobs@.len() == pre.jobs@.len(),
                forall|m: int|
                    0 <= m < j ==> #[trigger] self.jobs@[m] == swept_job(
                        pre.jobs@[m],
                        pre.datums@,
                        live_job_names@,
                        now,
                    ),
                forall|m: int| j <= m < self.jobs@.len() ==> #[trigger] self.jobs@[m] == pre.jobs@[m],
                self.datums == pre.datums,
                self.input_files == pre.input_files,
                self.output_files == pre.output_files,
                self.next_id == pre.next_id,
            decreases self.jobs@.len() - j,
        {
            if self.jobs[j].status == Status::Running {
                self.update_status_if_done(j, now);
                let old_enough = if now < i64::MIN + VANISHED_JOB_GRACE_SECS {
                    false
                } else {
                    self.jobs[j].created_at < now - VANISHED_JOB_GRACE_SECS
                };
                if self.jobs[j].status == Status::Running && old_enough && !contains_name(
                    live_job_names,
                    &self.jobs[j].job_name,
                ) {
                    self.jobs[j].status = Status::Error;
                    self.jobs[j].updated_at = now;
                }
            }
            j = j + 1;
        }
        proof {
            assert(self.jobs@ =~= pre.jobs@.map(
                |j: int, job: Job| swept_job(job, pre.datums@, live_job_names@, now),
            ));
            assert forall|a: int| 0 <= a < self.jobs@.len() implies job_wf(self.datums@, #[trigger] self.jobs@[a]) by {
                let job = pre.jobs@[a];
                assert(pre.jobs@[a] == job);
                if job.status == Status::Running {
                    lemma_settled_done(pre.datums@, job.id, job.status);
                }
            }
            assert forall|a: int, b: int| 0 <= a < b < self.jobs@.len() implies (#[trigger] self.jobs@[a]).id != (
                #[trigger] self.jobs@[b]).id by {
                assert(pre.jobs@[a].id != pre.jobs@[b].id);
            }
            assert forall|a: int| 0 <= a < self.jobs@.len() implies (#[trigger] self.jobs@[a]).id < self.next_id by {
                assert(pre.jobs@[a].id < pre.next_id);
            }
        }
    }
}

} // verus!
