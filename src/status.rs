//! The status shared by jobs, datums and output files.

use vstd::prelude::*;

verus! {

/// The status of a job, a datum or an output file.
#[derive(Clone, Copy, Debug, PartialEq, Eq, Structural, Hash)]
pub enum Status {
    /// Waiting to be processed.
    Ready,
    /// Currently being processed.
    Running,
    /// Finished successfully.
    Done,
    /// Finished unsuccessfully.
    Error,
    /// Cancelled by the user.
    Cancelled,
}

impl Status {
    /// Is this a status in which work has stopped?
    pub open spec fn spec_has_finished(self) -> bool {
        self == Status::Done || self == Status::Error || self == Status::Cancelled
    }

    /// Has the work finished, successfully or not?
    #[verifier::when_used_as_spec(spec_has_finished)]
    pub fn has_finished(self) -> (r: bool)
        ensures
            r == self.spec_has_finished(),
    {
        match self {
            Status::Done | Status::Error | Status::Cancelled => true,
            Status::Ready | Status::Running => false,
        }
    }

    /// The name of this status as it is stored and sent over the wire.
    pub fn as_str(self) -> (r: &'static str)
        ensures
            r@ == status_name(self),
    {
        match self {
            Status::Ready => "ready",
            Status::Running => "running",
            Status::Done => "done",
            Status::Error => "error",
            Status::Cancelled => "cancelled",
        }
    }
}

/// The lower-case name of a status.
pub open spec fn status_name(s: Status) -> Seq<char> {
    match s {
        Status::Ready => "ready"@,
        Status::Running => "running"@,
        Status::Done => "done"@,
        Status::Error => "error"@,
        Status::Cancelled => "cancelled"@,
    }
}

} // verus!
