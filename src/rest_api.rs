//! The data exchanged between the controller, its workers and its command
//! line client.

use vstd::prelude::*;

use crate::models::{Datum, DatumStatusCount, InputFile, Job, OutputFile, OutputFileCount};
use crate::status::Status;

verus! {

/// Request the reservation of a datum.
#[derive(Debug)]
pub struct DatumReservationRequest {
    /// The Kubernetes node name which will process this datum.
    pub node_name: String,
    /// The Kubernetes pod name which will process this datum.
    pub pod_name: String,
}

/// Information about a reserved datum.
#[derive(Debug)]
pub struct DatumReservationResponse {
    /// The reserved datum to process.
    pub datum: Datum,
    /// The input files associated with this datum.
    pub input_files: Vec<InputFile>,
}

/// Information about a datum that we can update.
#[derive(Debug)]
pub struct DatumPatch {
    /// The new status for the datum. Must be either `Status::Done` or
    /// `Status::Error`.
    pub status: Status,
    /// The output of processing the datum.
    pub output: String,
    /// If and only if `status` is `Status::Error`, this should be the error
    /// message.
    pub error_message: Option<String>,
    /// If and only if `status` is `Status::Error`, this should be the error
    /// backtrace.
    pub backtrace: Option<String>,
}

impl DatumPatch {
    /// A patch that marks a datum as done: no error message, no backtrace.
    pub open spec fn spec_is_done_patch(&self) -> bool {
        self.status == Status::Done && self.error_message is None && self.backtrace is None
    }

    /// A patch that marks a datum as failed: with an error message and a
    /// backtrace.
    pub open spec fn spec_is_error_patch(&self) -> bool {
        self.status == Status::Error && self.error_message is Some && self.backtrace is Some
    }

    /// Does this patch mark a datum as done?
    #[verifier::when_used_as_spec(spec_is_done_patch)]
    pub fn is_done_patch(&self) -> (r: bool)
        ensures
            r == self.spec_is_done_patch(),
    {
        self.status == Status::Done && self.error_message.is_none() && self.backtrace.is_none()
    }

    /// Does this patch mark a datum as failed?
    #[verifier::when_used_as_spec(spec_is_error_patch)]
    pub fn is_error_patch(&self) -> (r: bool)
        ensures
            r == self.spec_is_error_patch(),
    {
        self.status == Status::Error && self.error_message.is_some() && self.backtrace.is_some()
    }
}

/// Information about an output file that we can update.
#[derive(Debug, Clone, Copy, PartialEq, Eq)]
pub struct OutputFilePatch {
    /// The ID of the output file to update.
    pub id: u128,
    /// The status of the output file. Must be either `Status::Done` or
    /// `Status::Error`.
    pub status: Status,
}

/// Data for creating an output file.
#[derive(Debug)]
pub struct OutputFilePost {
    /// The URI to which this file will be uploaded.
    pub uri: String,
}

/// Response for the job describe endpoint.
#[derive(Debug)]
pub struct JobDescribeResponse {
    /// The job being described.
    pub job: Job,
    /// Counts of datums by status.
    pub datum_status_counts: Vec<DatumStatusCount>,
    /// Currently running datums.
    pub running_datums: Vec<Datum>,
    /// Datums that have errored.
    pub error_datums: Vec<Datum>,
    /// Counts of the job's output files by upload status.
    pub output_file_counts: Vec<OutputFileCount>,
}

/// Response for the datum describe endpoint.
#[derive(Debug)]
pub struct DatumDescribeResponse {
    /// The datum being described.
    pub datum: Datum,
    /// The input files for this datum.
    pub input_files: Vec<InputFile>,
}

/// Response wrapper for a single job.
#[derive(Debug)]
pub struct JobResponse {
    /// The job.
    pub job: Job,
}

/// Response wrapper for a list of jobs.
#[derive(Debug)]
pub struct JobsResponse {
    /// The list of jobs.
    pub jobs: Vec<Job>,
}

/// Response wrapper for a single datum.
#[derive(Debug)]
pub struct DatumResponse {
    /// The datum.
    pub datum: Datum,
}

/// Response wrapper for a list of output files.
#[derive(Debug)]
pub struct OutputFilesResponse {
    /// The list of output files.
    pub output_files: Vec<OutputFile>,
}

/// Request wrapper for creating a job: the pipeline specification, as JSON
/// text.
#[derive(Debug)]
pub struct CreateJobRequest {
    /// The pipeline spec to create the job from.
    pub job: String,
}

/// Request wrapper for updating a datum (worker endpoint).
#[derive(Debug)]
pub struct UpdateDatumRequest {
    /// The pod making this request (for ownership verification).
    pub pod_name: String,
    /// The datum patch to apply.
    pub datum: DatumPatch,
}

/// Request wrapper for creating output files (worker endpoint).
#[derive(Debug)]
pub struct CreateOutputFilesRequest {
    /// The pod making this request (for ownership verification).
    pub pod_name: String,
    /// The output files to create.
    pub output_files: Vec<OutputFilePost>,
}

/// Request wrapper for updating output files (worker endpoint).
#[derive(Debug)]
pub struct UpdateOutputFilesRequest {
    /// The pod making this request (for ownership verification).
    pub pod_name: String,
    /// The output file patches to apply.
    pub output_files: Vec<OutputFilePatch>,
}

} // verus!
