//! The rules that guard a terminal and the process attached to it.

use vstd::prelude::*;
use crate::error::TermTestError;

verus! {

/// What asking a child process for its exit status produced.
#[derive(Clone, Copy, Debug, PartialEq, Eq, Structural)]
pub enum ChildProbe {
    /// No process is attached.
    NoChild,
    /// The process has not exited.
    StillRunning,
    /// The process has exited.
    Exited,
    /// The status could not be read.
    ProbeFailed,
}

/// A terminal needs at least one column and one row.
pub open spec fn valid_dimensions(width: u16, height: u16) -> bool {
    width > 0 && height > 0
}

/// Accepts the size of a terminal, or rejects it with the size it was given.
pub fn check_dimensions(width: u16, height: u16) -> (r: Result<(), TermTestError>)
    ensures
        r is Ok <==> valid_dimensions(width, height),
        r matches Err(e) ==> e matches TermTestError::InvalidDimensions { width: w, height: h }
            && w == width && h == height,
{
    if width == 0 || height == 0 {
        Err(TermTestError::InvalidDimensions { width, height })
    } else {
        Ok(())
    }
}

/// A process may be started only while none is attached.
pub fn check_can_spawn(child_attached: bool) -> (r: Result<(), TermTestError>)
    ensures
        r is Ok <==> !child_attached,
        r matches Err(e) ==> e is ProcessAlreadyRunning,
{
    if child_attached {
        Err(TermTestError::ProcessAlreadyRunning)
    } else {
        Ok(())
    }
}

/// A process can be waited for only while one is attached.
pub fn check_can_wait(child_attached: bool) -> (r: Result<(), TermTestError>)
    ensures
        r is Ok <==> child_attached,
        r matches Err(e) ==> e is NoProcessRunning,
{
    if child_attached {
        Ok(())
    } else {
        Err(TermTestError::NoProcessRunning)
    }
}

/// Whether a process counts as running: one is attached and it is not known
/// to have exited. A status that cannot be read counts as running.
pub fn counts_as_running(probe: ChildProbe) -> (running: bool)
    ensures
        running == (probe == ChildProbe::StillRunning || probe == ChildProbe::ProbeFailed),
{
    match probe {
        ChildProbe::NoChild => false,
        ChildProbe::StillRunning => true,
        ChildProbe::Exited => false,
        ChildProbe::ProbeFailed => true,
    }
}

} // verus!
