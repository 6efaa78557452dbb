//! Userspace side of a microkernel syscall boundary, together with the
//! in-process kernel simulator that implements its other half.
//!
//! The library has two tightly coupled pieces:
//!
//! * the capability-scoped buffer/callback sharing protocol — `allow`,
//!   `subscribe`, `command` and `yield` as seen by application code, plus the
//!   share [`scope`](scope::Scope) that guarantees every share is reverted —
//!   and the client drivers written against it ([`rng`], [`app_state`]);
//! * the syscall simulator ([`fake`]): a driver registry, buffer ownership
//!   exchange, upcall scheduling, call logging, expected-call verification and
//!   memory-layout queries, so driver client code can be unit-tested without
//!   hardware.
//!
//! All state is carried explicitly by values: buffers move across the boundary
//! by swap, the kernel owns every registered driver, and the one suspension
//! point (`yield_wait`) delivers queued completion events one at a time.

pub mod app_state;
pub mod constants;
pub mod error;
pub mod expected;
pub mod fake;
pub mod layout;
pub mod rng;
pub mod scope;
pub mod syscall_log;
