//! The kernel simulator: fake drivers, the driver registry, syscall dispatch
//! with expected-call verification, upcall scheduling and memory-layout
//! queries. Everything here reproduces the real kernel's client-visible
//! semantics in-process so driver client code can be tested without hardware.

pub mod app_state;
pub mod kernel;
pub mod memop;
pub mod rng;

pub use kernel::Driver;
pub use kernel::Kernel;
