//! The decisions of a worker process: when to fetch its job, reserve a
//! datum, process it, wait, or exit; and what it reports about a datum and
//! its uploads.
//!
//! The process itself performs each action and hands back what happened.

use vstd::prelude::*;

use crate::models::OutputFile;
use crate::rest_api::{DatumPatch, OutputFilePatch, OutputFilePost};
use crate::status::Status;
use crate::uri::{output_uri, output_uri_spec};

verus! {

/// How long a worker waits before looking again when no datum is ready, in
/// seconds.
pub const IDLE_POLL_SECS: u64 = 30;

/// Where a worker stands in its loop.
#[derive(Clone, Copy, Debug, PartialEq, Eq, Structural)]
pub enum WorkerState {
    /// About to learn whether the job still runs.
    FetchingJob,
    /// About to ask for a datum.
    Reserving,
    /// No datum was ready; about to learn whether the job still runs.
    Rechecking,
    /// Processing a reserved datum.
    Processing,
    /// The job has finished; the worker exits.
    Finished,
}

/// What happened after the worker's last action.
#[derive(Clone, Copy, Debug, PartialEq, Eq, Structural)]
pub enum WorkerEvent {
    /// The job was fetched and has this status.
    JobFetched(Status),
    /// A datum was reserved for this worker.
    DatumReserved,
    /// No datum was ready.
    NoDatumAvailable,
    /// The reserved datum was processed and its outcome reported.
    DatumReported,
}

/// What the worker does next.
#[derive(Clone, Copy, Debug, PartialEq, Eq, Structural)]
pub enum WorkerAction {
    /// Fetch the job.
    FetchJob,
    /// Ask the controller for a datum.
    ReserveDatum,
    /// Wait this many seconds, then fetch the job.
    SleepThenFetchJob(u64),
    /// Download the inputs, run the command, upload the outputs, and report.
    ProcessDatum,
    /// Exit successfully.
    Exit,
}

/// The worker's next state and action after `event` in `state`, or `None`
/// where that event cannot follow the action taken in that state.
pub open spec fn worker_step_spec(state: WorkerState, event: WorkerEvent) -> Option<
    (WorkerState, WorkerAction),
> {
    match (state, event) {
        (WorkerState::FetchingJob, WorkerEvent::JobFetched(s)) => if s == Status::Running {
            Some((WorkerState::Reserving, WorkerAction::ReserveDatum))
        } else {
            Some((WorkerState::Finished, WorkerAction::Exit))
        },
        (WorkerState::Reserving, WorkerEvent::DatumReserved) => Some(
            (WorkerState::Processing, WorkerAction::ProcessDatum),
        ),
        (WorkerState::Reserving, WorkerEvent::NoDatumAvailable) => Some(
            (WorkerState::Rechecking, WorkerAction::FetchJob),
        ),
        (WorkerState::Rechecking, WorkerEvent::JobFetched(s)) => if s == Status::Running {
            Some((WorkerState::FetchingJob, WorkerAction::SleepThenFetchJob(IDLE_POLL_SECS)))
        } else {
            Some((WorkerState::Finished, WorkerAction::Exit))
        },
        (WorkerState::Processing, WorkerEvent::DatumReported) => Some(
            (WorkerState::FetchingJob, WorkerAction::FetchJob),
        ),
        _ => None,
    }
}

/// The worker's next state and action. A worker starts in `FetchingJob` by
/// fetching its job, and exits only once it has seen the job not running.
pub fn worker_step(state: WorkerState, event: WorkerEvent) -> (r: Option<(WorkerState, WorkerAction)>)
    ensures
        r == worker_step_spec(state, event),
{
    match (state, event) {
        (WorkerState::FetchingJob, WorkerEvent::JobFetched(s)) => if s == Status::Running {
            Some((WorkerState::Reserving, WorkerAction::ReserveDatum))
        } else {
            Some((WorkerState::Finished, WorkerAction::Exit))
        },
        (WorkerState::Reserving, WorkerEvent::DatumReserved) => Some(
            (WorkerState::Processing, WorkerAction::ProcessDatum),
        ),
        (WorkerState::Reserving, WorkerEvent::NoDatumAvailable) => Some(
            (WorkerState::Rechecking, WorkerAction::FetchJob),
        ),
        (WorkerState::Rechecking, WorkerEvent::JobFetched(s)) => if s == Status::Running {
            Some((WorkerState::FetchingJob, WorkerAction::SleepThenFetchJob(IDLE_POLL_SECS)))
        } else {
            Some((WorkerState::Finished, WorkerAction::Exit))
        },
        (WorkerState::Processing, WorkerEvent::DatumReported) => Some(
            (WorkerState::FetchingJob, WorkerAction::FetchJob),
        ),
        _ => None,
    }
}

impl DatumPatch {
    /// The patch that marks a datum as done, with its captured output.
    pub fn done(output: String) -> (r: DatumPatch)
        ensures
            r.spec_is_done_patch(),
            r.output == output,
    {
        DatumPatch { status: Status::Done, output, error_message: None, backtrace: None }
    }

    /// The patch that marks a datum as failed, with its captured output, the
    /// error message and the backtrace.
    pub fn error(output: String, error_message: String, backtrace: String) -> (r: DatumPatch)
        ensures
            r.spec_is_error_patch(),
            r.output == output,
            r.error_message == Some(error_message),
            r.backtrace == Some(backtrace),
    {
        DatumPatch {
            status: Status::Error,
            output,
            error_message: Some(error_message),
            backtrace: Some(backtrace),
        }
    }
}

/// The planned uploads of the output files at `rel_paths`, relative to the
/// output directory, under the egress URI `egress_uri`.
pub fn output_file_posts(egress_uri: &str, rel_paths: &Vec<String>) -> (r: Vec<OutputFilePost>)
    ensures
        r@.len() == rel_paths@.len(),
        forall|i: int|
            0 <= i < r@.len() ==> (#[trigger] r@[i]).uri@ == output_uri_spec(
                egress_uri@,
                rel_paths@[i]@,
            ),
{
    let mut r: Vec<OutputFilePost> = Vec::new();
    let mut i: usize = 0;
    while i < rel_paths.len()
        invariant
            i <= rel_paths@.len(),
            r@.len() == i,
            forall|m: int|
                0 <= m < i ==> (#[trigger] r@[m]).uri@ == output_uri_spec(
                    egress_uri@,
                    rel_paths@[m]@,
                ),
        decreases rel_paths@.len() - i,
    {
        r.push(OutputFilePost { uri: output_uri(egress_uri, rel_paths[i].as_str()) });
        i = i + 1;
    }
    r
}

/// The patches that record the upload of the output files `files`: each
/// `Done` if the upload succeeded, each `Error` if it failed.
pub fn output_file_patches(files: &Vec<OutputFile>, uploaded: bool) -> (r: Vec<OutputFilePatch>)
    ensures
        r@.len() == files@.len(),
        forall|i: int|
            0 <= i < r@.len() ==> (#[trigger] r@[i]).id == files@[i].id && r@[i].status == (if uploaded {
                Status::Done
            } else {
                Status::Error
            }),
{
    let status = if uploaded {
        Status::Done
    } else {
        Status::Error
    };
    let mut r: Vec<OutputFilePatch> = Vec::new();
    let mut i: usize = 0;
    while i < files.len()
        invariant
            i <= files@.len(),
            r@.len() == i,
            status == (if uploaded {
                Status::Done
            } else {
                Status::Error
            }),
            forall|m: int|
                0 <= m < i ==> (#[trigger] r@[m]).id == files@[m].id && r@[m].status == status,
        decreases files@.len() - i,
    {
        r.push(OutputFilePatch { id: files[i].id, status });
        i = i + 1;
    }
    r
}

} // verus!
