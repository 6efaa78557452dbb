use vstd::prelude::*;
use crate::error::{CommandReturn, ErrorCode};

verus! {

/// An ordered queue entry describing a predicted call.
///
/// The simulator consumes the queue strictly first-in first-out: whenever a
/// call arrives while the queue is non-empty, the front entry is popped and
/// the call's kind and arguments must match it exactly. A mismatch is not a
/// returned error but a protocol [`Violation`] — it means the test itself is
/// wrong. An entry may carry an overridden return value, which replaces the
/// value handed back to the caller; the registered driver still runs, so its
/// side effects are kept.
#[derive(Clone, Copy, Debug, PartialEq, Eq)]
#[allow(inconsistent_fields)]
pub enum ExpectedSyscall {
    AllowRo {
        driver_num: u32,
        buffer_num: u32,
        /// When set, the driver is not consulted and this error is returned.
        return_error: Option<ErrorCode>,
    },
    AllowRw {
        driver_num: u32,
        buffer_num: u32,
        /// When set, the driver is not consulted and this error is returned.
        return_error: Option<ErrorCode>,
    },
    Subscribe {
        driver_num: u32,
        subscribe_num: u32,
        /// When set, the registration is skipped and this error is returned.
        skip_with_error: Option<ErrorCode>,
    },
    Command {
        driver_id: u32,
        command_id: u32,
        argument0: u32,
        argument1: u32,
        /// When set, replaces the value the call returns; the driver's side
        /// effects still occur.
        override_return: Option<CommandReturn>,
    },
    Memop {
        operation_id: u32,
        operation_arg: u32,
        /// When set, replaces the value the query returns.
        override_return: Option<u32>,
    },
}

/// A protocol or test-assertion violation.
///
/// These indicate that the caller or the test fixture broke an invariant the
/// type system cannot enforce; they are deliberately kept apart from the
/// recoverable [`ErrorCode`](crate::error::ErrorCode) channel. The simulator
/// latches the first violation and refuses all further work, so a test that
/// ends with a latched violation fails loudly rather than continuing on
/// corrupted state.
#[derive(Clone, Copy, Debug, PartialEq, Eq, Structural)]
pub enum Violation {
    /// The front expectation-queue entry predicted a different kind of call.
    WrongCallKind,
    /// The front expectation-queue entry predicted the same kind of call with
    /// different arguments.
    WrongCallArguments,
    /// A driver scheduled an upcall beyond its declared number of slots.
    TooManyUpcalls,
    /// A queued upcall targeted a slot that is no longer registered; the
    /// memory behind a torn-down slot is not guaranteed to remain valid.
    OrphanedUpcall,
    /// A second upcall reached a slot whose previous result had not been
    /// consumed; results are written at most once per operation.
    UpcallNotConsumed,
    /// A memory-layout query named a region index beyond the configured
    /// table, with no override to satisfy it.
    RegionOutOfRange,
}

} // verus!
