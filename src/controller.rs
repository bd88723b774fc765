//! The controller's read-only queries and job retries.

use vstd::prelude::*;

use crate::errors::{FalconeridError, InternalError};
use crate::models::{Datum, DatumInput, DatumStatusCount, InputFile, Job, OutputFile, OutputFileCount};
use crate::rest_api::{DatumDescribeResponse, JobDescribeResponse};
use crate::status::Status;
use crate::store::{lemma_unique_datum_ids, datum_has_input, has_empty_datum, lemma_files_of_nonempty, lemma_files_of_sorted, sorted_by_creation, counts_monotone, datum_exists, datum_pos, files_of, job_created, Db};

verus! {

/// The datums of the job `job_id`, in the order they were stored.
pub open spec fn datums_of(ds: Seq<Datum>, job_id: u128) -> Seq<Datum>
    decreases ds.len(),
{
    if ds.len() == 0 {
        Seq::empty()
    } else {
        let rest = datums_of(ds.drop_last(), job_id);
        if ds.last().job_id == job_id {
            rest.push(ds.last())
        } else {
            rest
        }
    }
}

/// The datums of the job `job_id` with status `status`, in the order they
/// were stored.
pub open spec fn datums_with_status(ds: Seq<Datum>, job_id: u128, status: Status) -> Seq<Datum>
    decreases ds.len(),
{
    if ds.len() == 0 {
        Seq::empty()
    } else {
        let rest = datums_with_status(ds.drop_last(), job_id, status);
        if ds.last().job_id == job_id && ds.last().status == status {
            rest.push(ds.last())
        } else {
            rest
        }
    }
}

/// How many datums of the job `job_id` with status `status` may run again.
pub open spec fn rerunable_count(ds: Seq<Datum>, job_id: u128, status: Status) -> nat
    decreases ds.len(),
{
    if ds.len() == 0 {
        0
    } else {
        let rest = rerunable_count(ds.drop_last(), job_id, status);
        if ds.last().job_id == job_id && ds.last().status == status
            && ds.last().spec_is_rerunable() {
            rest + 1
        } else {
            rest
        }
    }
}

/// The count entry for `status` among the datums of the job `job_id`: one
/// entry when some datum has that status, none otherwise.
pub open spec fn count_entry(ds: Seq<Datum>, job_id: u128, status: Status) -> Seq<DatumStatusCount> {
    let n = datums_with_status(ds, job_id, status).len();
    if n > 0 {
        seq![
            DatumStatusCount {
                status,
                count: n as u64,
                rerunable_count: rerunable_count(ds, job_id, status) as u64,
            },
        ]
    } else {
        Seq::empty()
    }
}

/// The datum counts of the job `job_id`, one entry for each status that some
/// datum has, in the order `Ready`, `Running`, `Done`, `Error`, `Cancelled`.
pub open spec fn status_counts(ds: Seq<Datum>, job_id: u128) -> Seq<DatumStatusCount> {
    count_entry(ds, job_id, Status::Ready) + count_entry(ds, job_id, Status::Running) + count_entry(
        ds,
        job_id,
        Status::Done,
    ) + count_entry(ds, job_id, Status::Error) + count_entry(ds, job_id, Status::Cancelled)
}

/// How many output files of `fs` belong to the job `job_id` and have status
/// `status`.
pub open spec fn output_count(fs: Seq<OutputFile>, job_id: u128, status: Status) -> nat
    decreases fs.len(),
{
    if fs.len() == 0 {
        0
    } else {
        output_count(fs.drop_last(), job_id, status) + if fs.last().job_id == job_id
            && fs.last().status == status {
            1nat
        } else {
            0nat
        }
    }
}

/// The output-file count entry for `status` of the job `job_id`: one entry
/// when some output file has that status, none otherwise.
pub open spec fn output_count_entry(fs: Seq<OutputFile>, job_id: u128, status: Status) -> Seq<
    OutputFileCount,
> {
    let n = output_count(fs, job_id, status);
    if n > 0 {
        seq![OutputFileCount { status, count: n as u64 }]
    } else {
        Seq::empty()
    }
}

/// The output-file counts of the job `job_id`, one entry for each upload
/// status that some file has, in the order `Running`, `Done`, `Error`.
pub open spec fn output_counts(fs: Seq<OutputFile>, job_id: u128) -> Seq<OutputFileCount> {
    output_count_entry(fs, job_id, Status::Running) + output_count_entry(fs, job_id, Status::Done)
        + output_count_entry(fs, job_id, Status::Error)
}

/// An output count never exceeds the number of files.
proof fn lemma_output_count_le(fs: Seq<OutputFile>, job_id: u128, status: Status)
    ensures
        output_count(fs, job_id, status) <= fs.len(),
    decreases fs.len(),
{
    if fs.len() > 0 {
        lemma_output_count_le(fs.drop_last(), job_id, status);
    }
}

/// A rerunable count never exceeds the number counted.
proof fn lemma_rerunable_le(ds: Seq<Datum>, job_id: u128, status: Status)
    ensures
        rerunable_count(ds, job_id, status) <= datums_with_status(ds, job_id, status).len(),
        datums_with_status(ds, job_id, status).len() <= ds.len(),
    decreases ds.len(),
{
    if ds.len() > 0 {
        lemma_rerunable_le(ds.drop_last(), job_id, status);
    }
}

/// Do the inputs `ins` list the input files `fs`, one for one and in order?
pub open spec fn inputs_list(ins: Seq<DatumInput>, fs: Seq<InputFile>) -> bool {
    &&& ins.len() == fs.len()
    &&& forall|j: int|
        0 <= j < ins.len() ==> (#[trigger] ins[j]).uri == fs[j].uri && ins[j].local_path
            == fs[j].local_path
}

/// The inputs that list the input files `fs`.
fn inputs_of(fs: &Vec<InputFile>) -> (r: Vec<DatumInput>)
    ensures
        inputs_list(r@, fs@),
{
    let mut r: Vec<DatumInput> = Vec::new();
    let mut j: usize = 0;
    while j < fs.len()
        invariant
            j <= fs@.len(),
            r@.len() == j,
            forall|q: int|
                0 <= q < j ==> (#[trigger] r@[q]).uri == fs@[q].uri && r@[q].local_path
                    == fs@[q].local_path,
        decreases fs@.len() - j,
    {
        r.push(DatumInput { uri: fs[j].uri.clone(), local_path: fs[j].local_path.clone() });
        j = j + 1;
    }
    r
}

impl Db {
    /// The job `job_id`.
    pub fn find_job(&self, job_id: u128) -> (r: Result<Job, FalconeridError>)
        ensures
            match r {
                Ok(job) => exists|j: int|
                    0 <= j < self.jobs@.len() && (#[trigger] self.jobs@[j]).id == job_id
                        && job.same_as(&self.jobs@[j]),
                Err(e) => e == FalconeridError::Internal(InternalError::JobNotFound) && forall|j: int|
                    0 <= j < self.jobs@.len() ==> (#[trigger] self.jobs@[j]).id != job_id,
            },
    {
        match self.job_index(job_id) {
            Some(j) => Ok(self.jobs[j].copy()),
            None => Err(FalconeridError::Internal(InternalError::JobNotFound)),
        }
    }

    /// The job named `job_name`.
    pub fn find_job_by_name(&self, job_name: &String) -> (r: Result<Job, FalconeridError>)
        ensures
            match r {
                Ok(job) => exists|j: int|
                    0 <= j < self.jobs@.len() && (#[trigger] self.jobs@[j]).job_name@ == job_name@
                        && job.same_as(&self.jobs@[j]),
                Err(e) => e == FalconeridError::Internal(InternalError::JobNotFound) && forall|j: int|
                    0 <= j < self.jobs@.len() ==> (#[trigger] self.jobs@[j]).job_name@ != job_name@,
            },
    {
        let mut j: usize = 0;
        while j < self.jobs.len()
            invariant
                j <= self.jobs@.len(),
                forall|m: int| 0 <= m < j ==> (#[trigger] self.jobs@[m]).job_name@ != job_name@,
            decreases self.jobs@.len() - j,
        {
            if self.jobs[j].job_name == *job_name {
                return Ok(self.jobs[j].copy());
            }
            j = j + 1;
        }
        Err(FalconeridError::Internal(InternalError::JobNotFound))
    }

    /// All jobs, in the order they were created.
    pub fn list_jobs(&self) -> (r: Vec<Job>)
        ensures
            r@.len() == self.jobs@.len(),
            forall|j: int| 0 <= j < r@.len() ==> (#[trigger] r@[j]).same_as(&self.jobs@[j]),
    {
        let mut r: Vec<Job> = Vec::new();
        let mut j: usize = 0;
        while j < self.jobs.len()
            invariant
                j <= self.jobs@.len(),
                r@.len() == j,
                forall|m: int| 0 <= m < j ==> (#[trigger] r@[m]).same_as(&self.jobs@[m]),
            decreases self.jobs@.len() - j,
        {
            r.push(self.jobs[j].copy());
            j = j + 1;
        }
        r
    }

    /// The datum `datum_id` with its input files.
    pub fn describe_datum(&self, datum_id: u128) -> (r: Result<DatumDescribeResponse, FalconeridError>)
        requires
            self.wf(),
        ensures
            match r {
                Ok(resp) => {
                    &&& datum_exists(self.datums@, datum_id)
                    &&& resp.datum == self.datums@[datum_pos(self.datums@, datum_id)]
                    &&& resp.input_files@ == files_of(self.input_files@, datum_id)
                    &&& sorted_by_creation(resp.input_files@)
                },
                Err(e) => e == FalconeridError::Internal(InternalError::DatumNotFound)
                    && !datum_exists(self.datums@, datum_id),
            },
    {
        match self.datum_index(datum_id) {
            Some(k) => {
                proof {
                    let p = datum_pos(self.datums@, datum_id);
                    lemma_unique_datum_ids(self.datums@, p, k as int);
                }
                proof {
                    lemma_files_of_sorted(self.input_files@, datum_id);
                }
                Ok(
                    DatumDescribeResponse {
                        datum: self.datums[k].copy(),
                        input_files: self.input_files_of(datum_id),
                    },
                )
            },
            None => Err(FalconeridError::Internal(InternalError::DatumNotFound)),
        }
    }

    /// The datums of the job `job_id` with status `status`, and how many of
    /// them may run again.
    pub fn datums_with_status(&self, job_id: u128, status: Status) -> (r: (Vec<Datum>, usize))
        ensures
            r.0@ == datums_with_status(self.datums@, job_id, status),
            r.1 == rerunable_count(self.datums@, job_id, status),
    {
        let mut out: Vec<Datum> = Vec::new();
        let mut rerunable: usize = 0;
        let mut k: usize = 0;
        while k < self.datums.len()
            invariant
                k <= self.datums@.len(),
                out@ == datums_with_status(self.datums@.subrange(0, k as int), job_id, status),
                rerunable == rerunable_count(self.datums@.subrange(0, k as int), job_id, status),
            decreases self.datums@.len() - k,
        {
            proof {
                let next = self.datums@.subrange(0, k + 1);
                assert(next.drop_last() =~= self.datums@.subrange(0, k as int));
                assert(next.last() == self.datums@[k as int]);
                lemma_rerunable_le(self.datums@.subrange(0, k as int), job_id, status);
            }
            if self.datums[k].job_id == job_id && self.datums[k].status == status {
                if self.datums[k].is_rerunable() {
                    rerunable = rerunable + 1;
                }
                out.push(self.datums[k].copy());
            }
            k = k + 1;
        }
        assert(self.datums@.subrange(0, self.datums@.len() as int) =~= self.datums@);
        (out, rerunable)
    }

    /// Append the output-file count entry for `status` of the job `job_id` to
    /// `counts`.
    fn push_output_count(&self, job_id: u128, status: Status, counts: &mut Vec<OutputFileCount>)
        ensures
            final(counts)@ == old(counts)@ + output_count_entry(self.output_files@, job_id, status),
    {
        let mut n: usize = 0;
        let mut k: usize = 0;
        while k < self.output_files.len()
            invariant
                k <= self.output_files@.len(),
                n == output_count(self.output_files@.subrange(0, k as int), job_id, status),
            decreases self.output_files@.len() - k,
        {
            proof {
                let next = self.output_files@.subrange(0, k + 1);
                assert(next.drop_last() =~= self.output_files@.subrange(0, k as int));
                assert(next.last() == self.output_files@[k as int]);
                lemma_output_count_le(self.output_files@.subrange(0, k as int), job_id, status);
            }
            if self.output_files[k].job_id == job_id && self.output_files[k].status == status {
                n = n + 1;
            }
            k = k + 1;
        }
        assert(self.output_files@.subrange(0, self.output_files@.len() as int) =~= self.output_files@);
        if n > 0 {
            counts.push(OutputFileCount { status, count: n as u64 });
        } else {
            assert(counts@ + output_count_entry(self.output_files@, job_id, status) =~= counts@);
        }
    }

    /// The output-file counts of the job `job_id` by upload status.
    pub fn output_file_counts(&self, job_id: u128) -> (r: Vec<OutputFileCount>)
        ensures
            r@ == output_counts(self.output_files@, job_id),
    {
        let mut counts: Vec<OutputFileCount> = Vec::new();
        self.push_output_count(job_id, Status::Running, &mut counts);
        self.push_output_count(job_id, Status::Done, &mut counts);
        self.push_output_count(job_id, Status::Error, &mut counts);
        assert(counts@ =~= output_counts(self.output_files@, job_id));
        counts
    }

    /// Append the count entry for `status` of the job `job_id` to `counts`.
    fn push_count(&self, job_id: u128, status: Status, counts: &mut Vec<DatumStatusCount>)
        ensures
            final(counts)@ == old(counts)@ + count_entry(self.datums@, job_id, status),
    {
        let (ds, rerunable) = self.datums_with_status(job_id, status);
        proof {
            lemma_rerunable_le(self.datums@, job_id, status);
        }
        if ds.len() > 0 {
            counts.push(
                DatumStatusCount {
                    status,
                    count: ds.len() as u64,
                    rerunable_count: rerunable as u64,
                },
            );
        } else {
            assert(counts@ + count_entry(self.datums@, job_id, status) =~= counts@);
        }
    }

    /// The datum counts of the job `job_id` by status.
    pub fn datum_status_counts(&self, job_id: u128) -> (r: Vec<DatumStatusCount>)
        ensures
            r@ == status_counts(self.datums@, job_id),
    {
        let mut counts: Vec<DatumStatusCount> = Vec::new();
        self.push_count(job_id, Status::Ready, &mut counts);
        self.push_count(job_id, Status::Running, &mut counts);
        self.push_count(job_id, Status::Done, &mut counts);
        self.push_count(job_id, Status::Error, &mut counts);
        self.push_count(job_id, Status::Cancelled, &mut counts);
        assert(counts@ =~= status_counts(self.datums@, job_id));
        counts
    }

    /// The job `job_id` with its datum counts, its running and failed datums,
    /// and its output-file counts.
    pub fn describe_job(&self, job_id: u128) -> (r: Result<JobDescribeResponse, FalconeridError>)
        ensures
            match r {
                Ok(resp) => {
                    &&& exists|j: int|
                        0 <= j < self.jobs@.len() && (#[trigger] self.jobs@[j]).id == job_id
                            && resp.job.same_as(&self.jobs@[j])
                    &&& resp.datum_status_counts@ == status_counts(self.datums@, job_id)
                    &&& resp.running_datums@ == datums_with_status(
                        self.datums@,
                        job_id,
                        Status::Running,
                    )
                    &&& resp.error_datums@ == datums_with_status(self.datums@, job_id, Status::Error)
                    &&& resp.output_file_counts@ == output_counts(self.output_files@, job_id)
                },
                Err(e) => e == FalconeridError::Internal(InternalError::JobNotFound) && forall|j: int|
                    0 <= j < self.jobs@.len() ==> (#[trigger] self.jobs@[j]).id != job_id,
            },
    {
        let job = match self.find_job(job_id) {
            Ok(job) => job,
            Err(e) => {
                return Err(e);
            },
        };
        let datum_status_counts = self.datum_status_counts(job_id);
        let (running_datums, _) = self.datums_with_status(job_id, Status::Running);
        let (error_datums, _) = self.datums_with_status(job_id, Status::Error);
        let output_file_counts = self.output_file_counts(job_id);
        Ok(
            JobDescribeResponse {
                job,
                datum_status_counts,
                running_datums,
                error_datums,
                output_file_counts,
            },
        )
    }

    /// Start a new job named `new_job_name` that does again what the finished
    /// job `job_id` did: the same command, egress URI and pipeline
    /// specification, and one ready datum for each of its datums, with the
    /// same input files. The finished job is left as it is.
    pub fn retry_job(
        &mut self,
        job_id: u128,
        new_job_name: &String,
        maximum_allowed_run_count: i32,
        now: i64,
    ) -> (r: Result<Job, FalconeridError>)
        requires
            old(self).wf(),
        ensures
            final(self).wf(),
            counts_monotone(old(self).datums@, final(self).datums@),
            match r {
                Err(FalconeridError::Internal(InternalError::JobNotFound)) => {
                    &&& forall|j: int|
                        0 <= j < old(self).jobs@.len() ==> (#[trigger] old(self).jobs@[j]).id
                            != job_id
                    &&& *final(self) == *old(self)
                },
                Err(FalconeridError::Internal(InternalError::JobNotFinished)) => {
                    &&& exists|j: int|
                        0 <= j < old(self).jobs@.len() && (#[trigger] old(self).jobs@[j]).id
                            == job_id && !old(self).jobs@[j].status.spec_has_finished()
                    &&& *final(self) == *old(self)
                },
                _ => exists|j: int|
                    {
                        &&& 0 <= j < old(self).jobs@.len()
                        &&& (#[trigger] old(self).jobs@[j]).id == job_id
                        &&& old(self).jobs@[j].status.spec_has_finished()
                        &&& exists|ins: Seq<Vec<DatumInput>>| {
                        &&& ins.len() == datums_of(old(self).datums@, job_id).len()
                        &&& !has_empty_datum(ins)
                        &&& forall|i: int|
                            0 <= i < ins.len() ==> inputs_list(
                                (#[trigger] ins[i])@,
                                files_of(
                                    old(self).input_files@,
                                    datums_of(old(self).datums@, job_id)[i].id,
                                ),
                            )
                        &&& #[trigger] job_created(
                            *old(self),
                            *final(self),
                            *new_job_name,
                            old(self).jobs@[j].command@,
                            old(self).jobs@[j].egress_uri,
                            old(self).jobs@[j].pipeline_spec,
                            maximum_allowed_run_count,
                            ins,
                            now,
                            r,
                        )
                        }
                    },
            },
    {
        let j = match self.job_index(job_id) {
            Some(j) => j,
            None => {
                return Err(FalconeridError::Internal(InternalError::JobNotFound));
            },
        };
        if !self.jobs[j].status.has_finished() {
            return Err(FalconeridError::Internal(InternalError::JobNotFinished));
        }
        let mut inputs: Vec<Vec<DatumInput>> = Vec::new();
        let mut k: usize = 0;
        while k < self.datums.len()
            invariant
                k <= self.datums@.len(),
                self.wf(),
                forall|i: int| 0 <= i < inputs@.len() ==> (#[trigger] inputs@[i])@.len() > 0,
                inputs@.len() == datums_of(self.datums@.subrange(0, k as int), job_id).len(),
                forall|i: int|
                    0 <= i < inputs@.len() ==> inputs_list(
                        (#[trigger] inputs@[i])@,
                        files_of(
                            self.input_files@,
                            datums_of(self.datums@.subrange(0, k as int), job_id)[i].id,
                        ),
                    ),
            decreases self.datums@.len() - k,
        {
            proof {
                let next = self.datums@.subrange(0, k + 1);
                assert(next.drop_last() =~= self.datums@.subrange(0, k as int));
                assert(next.last() == self.datums@[k as int]);
            }
            if self.datums[k].job_id == job_id {
                let files = self.input_files_of(self.datums[k].id);
                proof {
                    assert(datum_has_input(self.input_files@, self.datums@[k as int].id));
                    lemma_files_of_nonempty(self.input_files@, self.datums@[k as int].id);
                }
                inputs.push(inputs_of(&files));
            }
            k = k + 1;
        }
        assert(self.datums@.subrange(0, self.datums@.len() as int) =~= self.datums@);
        assert(!has_empty_datum(inputs@));
        let command = crate::models::copy_strings(&self.jobs[j].command);
        let egress_uri = self.jobs[j].egress_uri.clone();
        let pipeline_spec = self.jobs[j].pipeline_spec.clone();
        self.create_job(
            new_job_name,
            &command,
            &egress_uri,
            &pipeline_spec,
            maximum_allowed_run_count,
            &inputs,
            now,
        )
    }
}

} // verus!
