//! The error type shared by every fallible operation of the crate.

use vstd::prelude::*;

verus! {

/// `std::io::Error`, carried through unchanged. Nothing is claimed of its
/// contents.
#[verifier::external_type_specification]
#[verifier::external_body]
pub struct ExIoError(std::io::Error);

/// Why an operation on a terminal under test failed.
#[derive(Debug)]
pub enum TermTestError {
    /// The pseudo-terminal layer reported a failure.
    Pty(String),
    /// Reading from or writing to the terminal failed.
    Io(std::io::Error),
    /// A wait ran past its deadline without its condition coming true.
    Timeout {
        /// The configured timeout, in whole milliseconds.
        timeout_ms: u64,
    },
    /// Terminal output could not be interpreted.
    Parse(String),
    /// A stored snapshot differs from the screen.
    SnapshotMismatch(String),
    /// Graphics regions fell outside the area they were asserted to lie in.
    SixelValidation {
        /// The asserted area, as `(row, col, width, height)`.
        area: (u16, u16, u16, u16),
        /// The cursor positions of the offending regions, in detection order.
        positions: Vec<(u16, u16)>,
    },
    /// The child process could not be started.
    SpawnFailed(String),
    /// A process is already attached to the terminal.
    ProcessAlreadyRunning,
    /// No process is attached to the terminal.
    NoProcessRunning,
    /// A terminal needs at least one row and one column.
    InvalidDimensions {
        width: u16,
        height: u16,
    },
    /// The host application's update loop failed.
    Bevy(String),
}

/// The result type of the crate's fallible operations.
pub type Result<T> = std::result::Result<T, TermTestError>;

} // verus!
