//! The ways a session can fail. Every one of them ends the session.
use vstd::prelude::*;

verus! {

#[derive(Clone, Copy, Debug, PartialEq, Eq, Structural)]
pub enum SessionError {
    /// No running process has the requested name.
    ProcessNotFound,
    /// The chosen process id does not fit the 16-bit select-target payload.
    PidOutOfRange(u32),
    /// The control device could not be opened for reading and writing.
    DeviceOpenFailed,
    /// The link to the process's executable could not be read.
    ExePathResolutionFailed,
    /// The mapping table could not be read to its end.
    MapsParseFailed,
    /// No line of the mapping table belongs to the executable.
    BaseAddressNotFound,
    /// The driver refused a request; the host's error code.
    IoctlFailed(i32),
}

} // verus!
