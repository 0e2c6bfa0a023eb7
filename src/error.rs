use vstd::prelude::*;

verus! {

/// Everything that can go wrong while bridging two interfaces.
///
/// Every error is final for the operation that produced it: nothing here
/// retries or recovers.
#[derive(Debug, Clone, Copy, PartialEq, Eq, Structural)]
pub enum Error {
    /// The interface name does not fit the control block's name field.
    NameTooLong,
    /// The capture device could not be opened.
    DeviceOpenFailure,
    /// A capture filter expression was rejected.
    FilterSyntaxError,
    /// A system call failed; `code` is the operating system's error number.
    SystemCallFailure { code: i32 },
    /// A packet source closed or became unreachable.
    StreamTerminated,
}

} // verus!
