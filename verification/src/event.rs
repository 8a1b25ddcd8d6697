//! Events flowing between the producers, the preparer and the front end.

use vstd::prelude::*;

verus! {

/// How a finished build ended: whether it succeeded, and its exit code
/// when one was reported.
#[derive(Clone, Copy, Debug, PartialEq, Eq)]
pub struct ExitInfo {
    pub success: bool,
    pub code: Option<i32>,
}

impl ExitInfo {
    /// A successful exit with code zero.
    pub fn ok() -> (r: ExitInfo)
        ensures
            r == (ExitInfo { success: true, code: Some(0) }),
    {
        ExitInfo { success: true, code: Some(0) }
    }

    /// A failed exit with no reported code.
    pub fn failed() -> (r: ExitInfo)
        ensures
            r == (ExitInfo { success: false, code: None }),
    {
        ExitInfo { success: false, code: None }
    }
}

/// A build lifecycle event.
#[derive(Clone, Copy, Debug, PartialEq)]
pub enum BuildEvent {
    /// The build process was spawned.
    BuildStarted,
    /// The build process finished.
    BuildFinished(ExitInfo),
    /// A compilation error was detected at the given entry id.
    BuildError(usize),
}

/// A raw front-end event.
#[derive(Clone, Debug, PartialEq)]
pub enum Event {
    /// The build wrote a line on standard output.
    OutputLine(Vec<u8>),
    /// The build wrote a line on standard error.
    ErrorLine(Vec<u8>),
    /// The build finished.
    FinishedExecution(ExitInfo),
    /// The user asked to quit.
    UserQuitRequest,
}

} // verus!
