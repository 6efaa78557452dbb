use vstd::prelude::*;

verus! {

/// One system call made during test execution.
///
/// The simulator appends exactly one entry per call, in call order, whether
/// or not the call's return value was overridden by an expectation, so tests
/// can make post-hoc assertions independent of the expectation queue.
#[derive(Clone, Copy, Debug, PartialEq, Eq)]
pub enum SyscallLogEntry {
    YieldNoWait,
    YieldWait,
    Subscribe { driver_num: u32, subscribe_num: u32 },
    Command { driver_id: u32, command_id: u32, argument0: u32, argument1: u32 },
    AllowRo { driver_num: u32, buffer_num: u32, len: usize },
    AllowRw { driver_num: u32, buffer_num: u32, len: usize },
    Memop { operation_id: u32, operation_arg: u32 },
}

} // verus!
