//! The error taxonomy of the library.
//!
//! Every failure a render, timing or sweep call can report is one concrete
//! variant here; nothing is logged and ignored.

use vstd::prelude::*;

verus! {

/// One error kind per failure class.
///
/// `SizeMismatch` is checked before any work begins, never mid-render.
/// `ThreadPanic` is produced at the join point of a parallel render when a
/// worker aborted abnormally.  `TimerError` marks a failed monotonic-clock
/// read, which makes a measurement unusable.  `IoError` and
/// `InvalidArgument` exist for the callers at the process boundary that
/// write image or log files and parse a command line.
#[derive(Clone, Copy, Debug, PartialEq, Eq, Structural)]
pub enum CustomError {
    SizeMismatch,
    ThreadPanic,
    TimerError,
    IoError,
    InvalidArgument,
}

impl CustomError {
    /// The description of each error kind.
    pub open spec fn message_spec(self) -> Seq<char> {
        match self {
            CustomError::SizeMismatch => "Array size is to small for bounds."@,
            CustomError::ThreadPanic => "Thread paniced"@,
            CustomError::TimerError => "Unsafe C Timer threw an error"@,
            CustomError::IoError => "Io operation failed"@,
            CustomError::InvalidArgument => {
                "Invalid Argument. Rerun with --help for more Information."@
            },
        }
    }

    /// A human-readable description of the error.
    pub fn message(&self) -> (r: &'static str)
        ensures
            r@ == self.message_spec(),
    {
        match self {
            CustomError::SizeMismatch => "Array size is to small for bounds.",
            CustomError::ThreadPanic => "Thread paniced",
            CustomError::TimerError => "Unsafe C Timer threw an error",
            CustomError::IoError => "Io operation failed",
            CustomError::InvalidArgument => {
                "Invalid Argument. Rerun with --help for more Information."
            },
        }
    }
}

} // verus!
