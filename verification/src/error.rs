use vstd::prelude::*;

verus! {

/// Error codes returned to the caller across the syscall boundary.
///
/// These are the recoverable failure channel: callers are expected to branch
/// on them and degrade gracefully. Protocol violations are a separate channel
/// (see [`crate::expected::Violation`]) and are never reported as an
/// `ErrorCode` alone.
#[derive(Clone, Copy, Debug, PartialEq, Eq, Structural)]
pub enum ErrorCode {
    /// Generic failure, also used when a yield woke without the caller's
    /// upcall having been delivered.
    Fail,
    Busy,
    Already,
    Off,
    Reserve,
    /// Bad index or capability, e.g. an allow or subscribe slot the driver
    /// does not offer.
    Invalid,
    Size,
    Cancel,
    /// No memory region available.
    NoMem,
    /// Unknown command id.
    NoSupport,
    /// No driver is registered under the requested driver id.
    NoDevice,
    Uninstalled,
    NoAck,
    /// A caller-supplied size exceeds the supplied buffer's capacity.
    BadRVal,
}

/// What a driver's command handler returns: success, or a tagged failure.
#[derive(Clone, Copy, Debug, PartialEq, Eq, Structural)]
pub enum CommandReturn {
    Success,
    Failure(ErrorCode),
}

impl CommandReturn {
    /// The same value as a `Result`, for callers that want to propagate the
    /// failure with `?`.
    pub open spec fn result_spec(self) -> Result<(), ErrorCode> {
        match self {
            CommandReturn::Success => Ok(()),
            CommandReturn::Failure(e) => Err(e),
        }
    }

    pub fn is_success(&self) -> (r: bool)
        ensures
            r == (*self == CommandReturn::Success),
    {
        match self {
            CommandReturn::Success => true,
            CommandReturn::Failure(_) => false,
        }
    }

    pub fn to_result(self) -> (r: Result<(), ErrorCode>)
        ensures
            r == self.result_spec(),
    {
        match self {
            CommandReturn::Success => Ok(()),
            CommandReturn::Failure(e) => Err(e),
        }
    }
}

} // verus!
