//! The entities: jobs, datums, input files and output files.
//!
//! Identifiers are UUIDs held as their 128-bit integers, and times are whole
//! seconds since the Unix epoch.

use vstd::prelude::*;

use crate::status::Status;

verus! {

/// Copy an optional string, keeping its contents.
pub fn copy_opt_string(s: &Option<String>) -> (r: Option<String>)
    ensures
        r == *s,
{
    match s {
        Some(v) => Some(v.clone()),
        None => None,
    }
}

/// Copy a list of strings, keeping its contents.
pub fn copy_strings(v: &Vec<String>) -> (r: Vec<String>)
    ensures
        r@ == v@,
{
    let mut out: Vec<String> = Vec::new();
    let mut i: usize = 0;
    while i < v.len()
        invariant
            i <= v@.len(),
            out@ == v@.subrange(0, i as int),
        decreases v@.len() - i,
    {
        out.push(v[i].clone());
        i = i + 1;
    }
    assert(out@ =~= v@);
    out
}

/// One pipeline invocation.
#[derive(Debug)]
pub struct Job {
    /// The unique ID of this job.
    pub id: u128,
    /// When this job was created.
    pub created_at: i64,
    /// When this job was last updated.
    pub updated_at: i64,
    /// The current status of this job.
    pub status: Status,
    /// The unique, Kubernetes-safe name of this job.
    pub job_name: String,
    /// The command to run for each datum.
    pub command: Vec<String>,
    /// The object-store prefix under which outputs are written.
    pub egress_uri: String,
    /// The pipeline specification this job was created from, as JSON text.
    pub pipeline_spec: String,
}

impl Job {
    /// Do two jobs hold the same values?
    pub open spec fn same_as(&self, other: &Job) -> bool {
        &&& self.id == other.id
        &&& self.created_at == other.created_at
        &&& self.updated_at == other.updated_at
        &&& self.status == other.status
        &&& self.job_name@ == other.job_name@
        &&& self.command@ == other.command@
        &&& self.egress_uri@ == other.egress_uri@
        &&& self.pipeline_spec@ == other.pipeline_spec@
    }

    /// A copy of this job.
    pub fn copy(&self) -> (r: Job)
        ensures
            r.same_as(self),
    {
        let command = copy_strings(&self.command);
        Job {
            id: self.id,
            created_at: self.created_at,
            updated_at: self.updated_at,
            status: self.status,
            job_name: self.job_name.clone(),
            command,
            egress_uri: self.egress_uri.clone(),
            pipeline_spec: self.pipeline_spec.clone(),
        }
    }


    /// Generate a sample value for testing: a running job with identifier
    /// `id`, created at `now`, with a one-word command.
    pub fn factory(id: u128, now: i64) -> (r: Job)
        ensures
            r.id == id,
            r.status == Status::Running,
            r.created_at == now,
            r.updated_at == now,
            r.job_name@ == "my-job"@,
            r.command@.len() == 1,
            r.command@[0]@ == "true"@,
            r.egress_uri@ == "gs://example-bucket/output/"@,
    {
        let mut command: Vec<String> = Vec::new();
        command.push("true".to_string());
        Job {
            id,
            created_at: now,
            updated_at: now,
            status: Status::Running,
            job_name: "my-job".to_string(),
            command,
            egress_uri: "gs://example-bucket/output/".to_string(),
            pipeline_spec: "{}".to_string(),
        }
    }
}

/// Error type for datum ownership verification.
#[derive(Debug, PartialEq, Eq)]
pub enum DatumOwnershipError {
    /// The datum was not found.
    NotFound(u128),
    /// The pod does not own the datum (possible zombie worker).
    NotOwned {
        /// The datum ID.
        datum_id: u128,
        /// The pod that claimed ownership.
        expected_pod: String,
        /// The pod that actually owns the datum (if any).
        actual_pod: Option<String>,
    },
}

/// A single chunk of work, consisting of one or more files.
#[derive(Debug)]
pub struct Datum {
    /// The unique ID of this datum.
    pub id: u128,
    /// When this datum was created.
    pub created_at: i64,
    /// When this datum was last updated.
    pub updated_at: i64,
    /// The current status of this datum.
    pub status: Status,
    /// The job to which this datum belongs.
    pub job_id: u128,
    /// An error message associated with this datum, if any.
    pub error_message: Option<String>,
    /// The Kubernetes node on which this datum is running / was run.
    pub node_name: Option<String>,
    /// The Kubernetes pod which is running / ran this datum.
    pub pod_name: Option<String>,
    /// The backtrace associated with `error_message`, if any.
    pub backtrace: Option<String>,
    /// Combined stdout and stderr of the code which processed the datum.
    pub output: Option<String>,
    /// How many times have we tried to process this datum (counting attempts in
    /// progress)?
    pub attempted_run_count: i32,
    /// How many times are we allowed to attempt to process this datum before
    /// failing for good?
    pub maximum_allowed_run_count: i32,
}

impl Datum {
    /// An errored datum with attempts left.
    pub open spec fn spec_is_rerunable(&self) -> bool {
        self.status == Status::Error && self.attempted_run_count < self.maximum_allowed_run_count
    }

    /// Is this datum re-runable, assuming it belongs to a running job?
    #[verifier::when_used_as_spec(spec_is_rerunable)]
    pub fn is_rerunable(&self) -> (r: bool)
        ensures
            r == self.spec_is_rerunable(),
    {
        self.status == Status::Error && self.attempted_run_count < self.maximum_allowed_run_count
    }

    /// A copy of this datum.
    pub fn copy(&self) -> (r: Datum)
        ensures
            r == *self,
    {
        Datum {
            id: self.id,
            created_at: self.created_at,
            updated_at: self.updated_at,
            status: self.status,
            job_id: self.job_id,
            error_message: copy_opt_string(&self.error_message),
            node_name: copy_opt_string(&self.node_name),
            pod_name: copy_opt_string(&self.pod_name),
            backtrace: copy_opt_string(&self.backtrace),
            output: copy_opt_string(&self.output),
            attempted_run_count: self.attempted_run_count,
            maximum_allowed_run_count: self.maximum_allowed_run_count,
        }
    }

    /// Generate a sample value for testing: a running datum of `job` with
    /// identifier `id`, created at `now`, that has not been attempted and may
    /// be attempted once.
    pub fn factory(job: &Job, id: u128, now: i64) -> (r: Datum)
        ensures
            r.id == id,
            r.status == Status::Running,
            r.job_id == job.id,
            r.created_at == now,
            r.updated_at == now,
            r.error_message is None,
            r.node_name is None,
            r.pod_name is None,
            r.backtrace is None,
            r.output is None,
            r.attempted_run_count == 0,
            r.maximum_allowed_run_count == 1,
    {
        Datum {
            id,
            created_at: now,
            updated_at: now,
            status: Status::Running,
            job_id: job.id,
            error_message: None,
            node_name: None,
            pod_name: None,
            backtrace: None,
            output: None,
            attempted_run_count: 0,
            maximum_allowed_run_count: 1,
        }
    }
}

/// Data required to create a new `Datum`.
#[derive(Debug)]
pub struct NewDatum {
    /// The unique ID of this datum, chosen by the caller so that its input
    /// files can name it before it is stored.
    pub id: u128,
    /// The job to which this datum belongs.
    pub job_id: u128,
    /// How many times are we allowed to attempt to process this datum before
    /// failing for good?
    pub maximum_allowed_run_count: i32,
}

/// An input file which needs to be downloaded to the worker container.
#[derive(Debug)]
pub struct InputFile {
    /// The unique ID of this file.
    pub id: u128,
    /// When this record was created.
    pub created_at: i64,
    /// The ID of the datum to which this file belongs.
    pub datum_id: u128,
    /// The URI from which this file can be downloaded.
    pub uri: String,
    /// The local path to which this file should be downloaded.
    pub local_path: String,
    /// The job to which this input file belongs.
    pub job_id: u128,
}

impl InputFile {
    /// A copy of this input file.
    pub fn copy(&self) -> (r: InputFile)
        ensures
            r == *self,
    {
        InputFile {
            id: self.id,
            created_at: self.created_at,
            datum_id: self.datum_id,
            uri: self.uri.clone(),
            local_path: self.local_path.clone(),
            job_id: self.job_id,
        }
    }

    /// Generate a sample value for testing: an input file of `datum` with
    /// identifier `id`, created at `now`.
    pub fn factory(datum: &Datum, id: u128, now: i64) -> (r: InputFile)
        ensures
            r.id == id,
            r.created_at == now,
            r.datum_id == datum.id,
            r.job_id == datum.job_id,
            r.uri@ == "gs://example-bucket/input/file.csv"@,
            r.local_path@ == "/pfs/input/file.csv"@,
    {
        InputFile {
            id,
            created_at: now,
            datum_id: datum.id,
            uri: "gs://example-bucket/input/file.csv".to_string(),
            local_path: "/pfs/input/file.csv".to_string(),
            job_id: datum.job_id,
        }
    }
}

/// Data required to create a new `InputFile`.
#[derive(Debug)]
pub struct NewInputFile {
    /// The ID of the datum to which this file belongs.
    pub datum_id: u128,
    /// The URI from which this file can be downloaded.
    pub uri: String,
    /// The local path to which this file should be downloaded.
    pub local_path: String,
    /// The job to which this input file belongs.
    pub job_id: u128,
}

/// Where one input of a new datum comes from and where it goes: what the
/// input resolver produces for each file of each datum.
#[derive(Debug)]
pub struct DatumInput {
    /// The URI from which the file can be downloaded.
    pub uri: String,
    /// The local path to which the file should be downloaded.
    pub local_path: String,
}

/// A record of an output file uploaded by a worker.
#[derive(Debug)]
pub struct OutputFile {
    /// The unique ID of this file.
    pub id: u128,
    /// When this record was created.
    pub created_at: i64,
    /// The ID of the datum which produced this file.
    pub datum_id: u128,
    /// The job to which this file belongs.
    pub job_id: u128,
    /// The URI to which this file is uploaded.
    pub uri: String,
    /// The status of the upload: `Running`, `Done` or `Error`.
    pub status: Status,
}

impl OutputFile {
    /// A copy of this output file.
    pub fn copy(&self) -> (r: OutputFile)
        ensures
            r == *self,
    {
        OutputFile {
            id: self.id,
            created_at: self.created_at,
            datum_id: self.datum_id,
            job_id: self.job_id,
            uri: self.uri.clone(),
            status: self.status,
        }
    }
}

/// Data required to create a new `OutputFile`.
#[derive(Debug)]
pub struct NewOutputFile {
    /// The ID of the datum which produced this file.
    pub datum_id: u128,
    /// The job to which this file belongs.
    pub job_id: u128,
    /// The URI to which this file will be uploaded.
    pub uri: String,
}

/// How many output files of a job have a given upload status.
#[derive(Debug, Clone, Copy, PartialEq, Eq)]
pub struct OutputFileCount {
    /// The upload status being counted.
    pub status: Status,
    /// How many output files have this status.
    pub count: u64,
}

/// How many datums of a job have a given status.
#[derive(Debug, Clone, Copy, PartialEq, Eq)]
pub struct DatumStatusCount {
    /// The status being counted.
    pub status: Status,
    /// How many datums have this status.
    pub count: u64,
    /// How many of those could be re-run.
    pub rerunable_count: u64,
}

} // verus!
