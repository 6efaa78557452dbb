use libtock_sim::app_state::AppState;
use libtock_sim::constants::{
    APP_STATE_ALLOW_WRITE, APP_STATE_COMMAND_WRITE_FLASH, APP_STATE_DRIVER_NUM, RNG_ALLOW_GEN,
    RNG_COMMAND_GEN, RNG_DRIVER_NUM, RNG_SUBSCRIBE_GEN,
};
use libtock_sim::error::{CommandReturn, ErrorCode};
use libtock_sim::expected::{ExpectedSyscall, Violation};
use libtock_sim::fake::{Driver, Kernel};
use libtock_sim::layout::{FlashRegion, MemoryLayout};
use libtock_sim::rng::Rng;
use libtock_sim::scope::open_scope;
use libtock_sim::syscall_log::SyscallLogEntry;

fn kernel_with_rng() -> Kernel {
    let mut kernel = Kernel::new();
    kernel.add_driver(Driver::Rng(libtock_sim::fake::rng::Rng::new()));
    kernel
}

fn kernel_with_app_state() -> Kernel {
    let mut kernel = Kernel::new();
    kernel.add_driver(Driver::AppState(libtock_sim::fake::app_state::AppState::new()));
    kernel
}

// Presence check purity: without a driver the check fails; either way the
// only trace is the one log entry, and no byte record appears.
#[test]
fn presence_check_logs_one_entry() {
    let mut kernel = Kernel::new();
    assert!(!Rng::driver_check(&mut kernel));
    assert_eq!(
        kernel.take_syscall_log(),
        vec![
            SyscallLogEntry::Command {
                driver_id: RNG_DRIVER_NUM,
                command_id: 0,
                argument0: 0,
                argument1: 0,
            },
        ],
    );
    let mut kernel = kernel_with_rng();
    assert!(Rng::driver_check(&mut kernel));
    assert_eq!(kernel.take_rng_bytes(), Vec::<u8>::new());
    assert_eq!(kernel.violation(), None);
}

// Allow is a strict swap: the first exchange returns the empty sentinel, the
// second returns exactly the first buffer, unchanged.
#[test]
fn allow_readwrite_swaps_strictly() {
    let mut kernel = kernel_with_rng();
    let first = kernel
        .allow_rw(RNG_DRIVER_NUM, RNG_ALLOW_GEN, vec![1u8, 2, 3])
        .unwrap();
    assert_eq!(first, Vec::<u8>::new());
    let second = kernel
        .allow_rw(RNG_DRIVER_NUM, RNG_ALLOW_GEN, vec![9u8, 9])
        .unwrap();
    assert_eq!(second, vec![1u8, 2, 3]);
}

// An allow at an index the driver does not offer hands the buffer back with
// `Invalid`.
#[test]
fn allow_readwrite_bad_index() {
    let mut kernel = kernel_with_rng();
    let (buffer, err) = kernel
        .allow_rw(RNG_DRIVER_NUM, 7, vec![5u8, 6])
        .unwrap_err();
    assert_eq!(buffer, vec![5u8, 6]);
    assert_eq!(err, ErrorCode::Invalid);
}

// Command argument propagation with a partial fill: only min(len, n) bytes
// are touched, and the upcall carries that count.
#[test]
fn gen_fills_prefix_only() {
    let mut kernel = kernel_with_rng();
    let mut buffer = vec![9u8, 9, 9, 9];
    Rng::gen(&mut kernel, &mut buffer, 2).unwrap();
    assert_eq!(buffer, vec![12u8, 12, 9, 9]);
    assert_eq!(kernel.take_rng_bytes(), vec![12u8, 12]);
}

// Oversize rejection happens before any syscall: the log stays empty.
#[test]
fn oversize_gen_leaves_no_trace() {
    let mut kernel = kernel_with_rng();
    let mut buffer = vec![0u8; 4];
    assert_eq!(Rng::gen(&mut kernel, &mut buffer, 5), Err(ErrorCode::BadRVal));
    assert_eq!(kernel.take_syscall_log(), Vec::<SyscallLogEntry>::new());
    assert_eq!(buffer, vec![0u8; 4]);
}

// The zero-length sentinel is a legal buffer: a generate over it touches
// nothing and still completes, with an upcall count of zero.
#[test]
fn gen_zero_bytes_on_empty_buffer() {
    let mut kernel = kernel_with_rng();
    let mut buffer: Vec<u8> = Vec::new();
    Rng::gen(&mut kernel, &mut buffer, 0).unwrap();
    assert_eq!(buffer, Vec::<u8>::new());
    assert_eq!(kernel.take_rng_bytes(), Vec::<u8>::new());
    assert_eq!(kernel.violation(), None);
}

// Without a registered generator the first syscall of a generate reports the
// absent device.
#[test]
fn gen_without_driver_is_no_device() {
    let mut kernel = Kernel::new();
    let mut buffer = vec![0u8; 4];
    assert_eq!(Rng::gen(&mut kernel, &mut buffer, 4), Err(ErrorCode::NoDevice));
    assert_eq!(buffer, vec![0u8; 4]);
}

// An unknown command id is `NoSupport`.
#[test]
fn unknown_command_is_no_support() {
    let mut kernel = kernel_with_rng();
    let ret = kernel.command(RNG_DRIVER_NUM, 99, 0, 0);
    assert_eq!(ret, CommandReturn::Failure(ErrorCode::NoSupport));
}

// A subscribe index beyond the driver's declared upcall count is `Invalid`.
#[test]
fn subscribe_beyond_upcall_count_is_invalid() {
    let mut kernel = kernel_with_rng();
    assert_eq!(kernel.subscribe(RNG_DRIVER_NUM, 5), Err(ErrorCode::Invalid));
    assert_eq!(kernel.subscribe(RNG_DRIVER_NUM, 1), Ok(()));
}

// FIFO upcall ordering, observed through the slot: two operations scheduled
// before yielding deliver their counts in the order the commands were
// issued.
#[test]
fn upcalls_deliver_in_fifo_order() {
    let mut kernel = kernel_with_rng();
    let mut scope = open_scope();
    let _p1 = Rng::gen_async(&mut kernel, &mut scope, vec![0u8; 4], 4).unwrap();
    let _p2 = Rng::gen_async(&mut kernel, &mut scope, vec![0u8; 3], 3).unwrap();
    kernel.yield_wait();
    assert_eq!(kernel.take_upcall(RNG_DRIVER_NUM, RNG_SUBSCRIBE_GEN), Some(4));
    kernel.yield_wait();
    assert_eq!(kernel.take_upcall(RNG_DRIVER_NUM, RNG_SUBSCRIBE_GEN), Some(3));
    let _bufs = scope.close(&mut kernel);
    assert_eq!(kernel.violation(), None);
}

// With nothing pending, a wait-yield returns at once and the slot stays
// empty; callers treat that as their operation not having completed.
#[test]
fn yield_with_nothing_pending_delivers_nothing() {
    let mut kernel = kernel_with_rng();
    kernel.subscribe(RNG_DRIVER_NUM, RNG_SUBSCRIBE_GEN).unwrap();
    kernel.yield_wait();
    assert_eq!(kernel.take_upcall(RNG_DRIVER_NUM, RNG_SUBSCRIBE_GEN), None);
    assert_eq!(kernel.violation(), None);
}

// Layout oracle determinism: the same in-range index answers the same
// configured address on every query; one region past the table is out of
// range and latches a violation.
#[test]
fn layout_oracle_is_deterministic_and_bounded() {
    let mut kernel = Kernel::new();
    assert_eq!(kernel.memop_number_writeable_flash_regions(), Ok(1));
    assert_eq!(kernel.memop_flash_region_begins_at(0), Ok(0x11000));
    assert_eq!(kernel.memop_flash_region_begins_at(0), Ok(0x11000));
    assert_eq!(kernel.memop_flash_region_ends_at(0), Ok(0x13000));
    assert_eq!(kernel.violation(), None);
    assert_eq!(kernel.memop_flash_region_begins_at(1), Err(ErrorCode::Fail));
    assert_eq!(kernel.violation(), Some(Violation::RegionOutOfRange));
}

// The unoverridden oracle answers the configured default addresses.
#[test]
fn memop_defaults_answer_configured_table() {
    let mut kernel = Kernel::new();
    assert_eq!(kernel.memop_memory_begins_at(), Ok(0x20000));
    assert_eq!(kernel.memop_memory_ends_at(), Ok(0x22000));
    assert_eq!(kernel.memop_flash_begins_at(), Ok(0x10000));
    assert_eq!(kernel.memop_flash_ends_at(), Ok(0x14000));
    assert_eq!(kernel.memop_grant_begins_at(), Ok(0x21c00));
}

// A caller-configured layout is answered as configured.
#[test]
fn custom_layout_is_served() {
    let layout = MemoryLayout {
        memory_start: 0x40000,
        memory_end: 0x48000,
        flash_start: 0x8000,
        flash_end: 0xc000,
        grant_start: 0x47000,
        regions: vec![
            FlashRegion { start: 0x9000, end: 0x9800 },
            FlashRegion { start: 0xa000, end: 0xa800 },
        ],
    };
    let mut kernel = Kernel::with_layout(layout);
    assert_eq!(kernel.memop_memory_begins_at(), Ok(0x40000));
    assert_eq!(kernel.memop_number_writeable_flash_regions(), Ok(2));
    assert_eq!(kernel.memop_flash_region_begins_at(1), Ok(0xa000));
    assert_eq!(kernel.memop_flash_region_ends_at(1), Ok(0xa800));
}

// A layout with no writable region makes locating the persistent store fail
// with `NoMem`.
#[test]
fn save_without_regions_is_no_mem() {
    let layout = MemoryLayout {
        memory_start: 0x20000,
        memory_end: 0x22000,
        flash_start: 0x10000,
        flash_end: 0x14000,
        grant_start: 0x21c00,
        regions: Vec::new(),
    };
    let mut kernel = Kernel::with_layout(layout);
    kernel.add_driver(Driver::AppState(libtock_sim::fake::app_state::AppState::new()));
    let mut state = AppState::new();
    let (_ram, ret) = state.save_sync(&mut kernel, vec![7u8; 4]);
    assert_eq!(ret, Err(ErrorCode::NoMem));
}

// A mismatched expectation is a latched violation, not a returned error;
// once latched, the simulator refuses further work.
#[test]
fn expectation_kind_mismatch_latches() {
    let mut kernel = kernel_with_rng();
    kernel.add_expected_syscall(ExpectedSyscall::Subscribe {
        driver_num: RNG_DRIVER_NUM,
        subscribe_num: 0,
        skip_with_error: None,
    });
    let ret = kernel.command(RNG_DRIVER_NUM, 0, 0, 0);
    assert_eq!(ret, CommandReturn::Failure(ErrorCode::Fail));
    assert_eq!(kernel.violation(), Some(Violation::WrongCallKind));
    // Latched: even the presence check now fails and logs nothing new.
    let before = kernel.take_syscall_log();
    assert!(!Rng::driver_check(&mut kernel));
    assert_eq!(kernel.take_syscall_log(), Vec::<SyscallLogEntry>::new());
    assert_eq!(before.len(), 1);
}

#[test]
fn expectation_argument_mismatch_latches() {
    let mut kernel = kernel_with_rng();
    kernel.add_expected_syscall(ExpectedSyscall::Command {
        driver_id: RNG_DRIVER_NUM,
        command_id: RNG_COMMAND_GEN,
        argument0: 8,
        argument1: 0,
        override_return: None,
    });
    let ret = kernel.command(RNG_DRIVER_NUM, RNG_COMMAND_GEN, 4, 0);
    assert_eq!(ret, CommandReturn::Failure(ErrorCode::Fail));
    assert_eq!(kernel.violation(), Some(Violation::WrongCallArguments));
}

// An expectation may skip a subscribe with an injected error.
#[test]
fn subscribe_skip_with_error_is_honored() {
    let mut kernel = kernel_with_rng();
    kernel.add_expected_syscall(ExpectedSyscall::AllowRw {
        driver_num: RNG_DRIVER_NUM,
        buffer_num: RNG_ALLOW_GEN,
        return_error: None,
    });
    kernel.add_expected_syscall(ExpectedSyscall::Subscribe {
        driver_num: RNG_DRIVER_NUM,
        subscribe_num: RNG_SUBSCRIBE_GEN,
        skip_with_error: Some(ErrorCode::Busy),
    });
    let mut buffer = vec![0u8; 4];
    assert_eq!(Rng::gen(&mut kernel, &mut buffer, 4), Err(ErrorCode::Busy));
    // The driver was never commanded, so no bytes were produced.
    assert_eq!(kernel.take_rng_bytes(), Vec::<u8>::new());
}

// An allow expectation may inject an error before the driver is consulted.
#[test]
fn allow_return_error_is_honored() {
    let mut kernel = kernel_with_rng();
    kernel.add_expected_syscall(ExpectedSyscall::AllowRw {
        driver_num: RNG_DRIVER_NUM,
        buffer_num: RNG_ALLOW_GEN,
        return_error: Some(ErrorCode::NoMem),
    });
    let mut buffer = vec![0u8; 4];
    assert_eq!(Rng::gen(&mut kernel, &mut buffer, 4), Err(ErrorCode::NoMem));
    assert_eq!(buffer, vec![0u8; 4]);
}

// Delivering into a slot the scope has torn down is the orphaned-upcall
// violation: exactly the hazard the scope exists to prevent.
#[test]
fn orphaned_upcall_latches() {
    let mut kernel = kernel_with_rng();
    let mut scope = open_scope();
    let _prev = Rng::gen_async(&mut kernel, &mut scope, vec![0u8; 4], 4).unwrap();
    let _bufs = scope.close(&mut kernel);
    kernel.yield_wait();
    assert_eq!(kernel.violation(), Some(Violation::OrphanedUpcall));
}

// A second delivery into a slot whose result was never consumed is the
// written-at-most-once violation.
#[test]
fn unconsumed_upcall_latches() {
    let mut kernel = kernel_with_rng();
    let mut scope = open_scope();
    let _p1 = Rng::gen_async(&mut kernel, &mut scope, vec![0u8; 4], 4).unwrap();
    let _p2 = Rng::gen_async(&mut kernel, &mut scope, vec![0u8; 3], 3).unwrap();
    kernel.yield_wait();
    kernel.yield_wait();
    assert_eq!(kernel.violation(), Some(Violation::UpcallNotConsumed));
    let _bufs = scope.close(&mut kernel);
}

// A write command with bytes actually allowed copies them into the flash
// store, where a load finds them again.
#[test]
fn write_flash_roundtrip_with_allowed_bytes() {
    let mut kernel = kernel_with_app_state();
    let mut scope = open_scope();
    let prev = scope
        .allow_ro(&mut kernel, APP_STATE_DRIVER_NUM, APP_STATE_ALLOW_WRITE, vec![1u8, 2, 3, 4])
        .unwrap();
    assert_eq!(prev, Vec::<u8>::new());
    let ret = kernel.command(APP_STATE_DRIVER_NUM, APP_STATE_COMMAND_WRITE_FLASH, 0x11000, 0);
    assert_eq!(ret, CommandReturn::Success);
    assert_eq!(kernel.take_app_state_bytes(), vec![1u8, 2, 3, 4]);
    let _bufs = scope.close(&mut kernel);

    let mut state = AppState::new();
    let mut ram = vec![0u8; 4];
    state.load_sync(&mut kernel, &mut ram).unwrap();
    assert_eq!(ram, vec![1u8, 2, 3, 4]);
}

// A write command whose target lies outside the flash store fails with
// `Invalid` and writes nothing.
#[test]
fn write_flash_out_of_range_is_invalid() {
    let mut kernel = kernel_with_app_state();
    let mut scope = open_scope();
    let _prev = scope
        .allow_ro(&mut kernel, APP_STATE_DRIVER_NUM, APP_STATE_ALLOW_WRITE, vec![1u8, 2, 3, 4])
        .unwrap();
    let ret = kernel.command(APP_STATE_DRIVER_NUM, APP_STATE_COMMAND_WRITE_FLASH, 0x20000, 0);
    assert_eq!(ret, CommandReturn::Failure(ErrorCode::Invalid));
    assert_eq!(kernel.take_app_state_bytes(), Vec::<u8>::new());
    let _bufs = scope.close(&mut kernel);
}

// The header word on the fake persistent-state driver is settable.
#[test]
fn app_state_header_is_settable() {
    let mut driver = libtock_sim::fake::app_state::AppState::new();
    driver.set_header(0x1200);
    assert_eq!(driver.header, 0x1200);
    let mut kernel = Kernel::new();
    kernel.add_driver(Driver::AppState(driver));
    kernel.set_app_state_header(0x3400);
}

// Locating the persistent store is resolved once and remembered.
#[test]
fn app_state_locates_once() {
    let mut kernel = kernel_with_app_state();
    let mut state = AppState::new();
    let (ram, ret) = state.init(&mut kernel, vec![7u8; 4]);
    assert_eq!(ret, Ok(()));
    assert_eq!(ram, vec![7u8; 4]);
    assert_eq!(state.located, Some(0x11000));
    let entries = kernel.take_syscall_log();
    assert_eq!(entries.len(), 3);
    // A second save does not locate again: only subscribe and command run.
    let (_ram, ret) = state.save_sync(&mut kernel, ram);
    assert_eq!(ret, Ok(()));
    let entries = kernel.take_syscall_log();
    assert_eq!(
        entries[0],
        SyscallLogEntry::Subscribe { driver_num: APP_STATE_DRIVER_NUM, subscribe_num: 0 },
    );
    assert_eq!(entries.len(), 3);
}

// The scope reverts shares on close: after a generate, the driver holds the
// sentinel again and the caller's buffer is back.
#[test]
fn scope_reverts_all_shares() {
    let mut kernel = kernel_with_rng();
    let mut buffer = vec![0u8; 4];
    Rng::gen(&mut kernel, &mut buffer, 4).unwrap();
    // The driver's slot is the sentinel again: a fresh exchange returns
    // an empty previous buffer.
    let prev = kernel
        .allow_rw(RNG_DRIVER_NUM, RNG_ALLOW_GEN, vec![0u8; 2])
        .unwrap();
    assert_eq!(prev, Vec::<u8>::new());
    // The subscription is gone: nothing can be taken from the slot.
    assert_eq!(kernel.take_upcall(RNG_DRIVER_NUM, RNG_SUBSCRIBE_GEN), None);
}
