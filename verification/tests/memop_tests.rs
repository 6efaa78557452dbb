use libtock_sim::constants::{
    MEMOP_FLASH_END, MEMOP_FLASH_REGIONS, MEMOP_FLASH_REGIONS_END, MEMOP_FLASH_REGIONS_START,
    MEMOP_FLASH_START, MEMOP_GRANT_START, MEMOP_MEMORY_END, MEMOP_MEMORY_START,
};
use libtock_sim::expected::ExpectedSyscall;
use libtock_sim::fake::Kernel;
use libtock_sim::syscall_log::SyscallLogEntry;

const MEM_START: u32 = 0x20000;
const MEM_END: u32 = 0x22000;
const FLASH_START: u32 = 0x10000;
const FLASH_END: u32 = 0x14000;
const GRANT_START: u32 = 0x21c00;
const FLASH_REGION_START: u32 = 0x11000;
const FLASH_REGION_END: u32 = 0x13000;
const NUM_WRITEABLE_REGIONS: u32 = 2;

#[test]
fn memop_memory_begins_at() {
    let mut kernel = Kernel::new();
    kernel.add_expected_syscall(ExpectedSyscall::Memop {
        operation_id: MEMOP_MEMORY_START,
        operation_arg: 0,
        override_return: Some(MEM_START),
    });
    assert_eq!(kernel.memop_memory_begins_at(), Ok(MEM_START));
    assert_eq!(
        kernel.take_syscall_log(),
        vec![SyscallLogEntry::Memop { operation_id: 2, operation_arg: 0 }],
    );
}

#[test]
fn memop_memory_ends_at() {
    let mut kernel = Kernel::new();
    kernel.add_expected_syscall(ExpectedSyscall::Memop {
        operation_id: MEMOP_MEMORY_END,
        operation_arg: 0,
        override_return: Some(MEM_END),
    });
    assert_eq!(kernel.memop_memory_ends_at(), Ok(MEM_END));
    assert_eq!(
        kernel.take_syscall_log(),
        vec![SyscallLogEntry::Memop { operation_id: MEMOP_MEMORY_END, operation_arg: 0 }],
    );
}

#[test]
fn memop_flash_starts_at() {
    let mut kernel = Kernel::new();
    kernel.add_expected_syscall(ExpectedSyscall::Memop {
        operation_id: MEMOP_FLASH_START,
        operation_arg: 0,
        override_return: Some(FLASH_START),
    });
    assert_eq!(kernel.memop_flash_begins_at(), Ok(FLASH_START));
    assert_eq!(
        kernel.take_syscall_log(),
        vec![SyscallLogEntry::Memop { operation_id: MEMOP_FLASH_START, operation_arg: 0 }],
    );
}

#[test]
fn memop_flash_ends_at() {
    let mut kernel = Kernel::new();
    kernel.add_expected_syscall(ExpectedSyscall::Memop {
        operation_id: MEMOP_FLASH_END,
        operation_arg: 0,
        override_return: Some(FLASH_END),
    });
    assert_eq!(kernel.memop_flash_ends_at(), Ok(FLASH_END));
    assert_eq!(
        kernel.take_syscall_log(),
        vec![SyscallLogEntry::Memop { operation_id: MEMOP_FLASH_END, operation_arg: 0 }],
    );
}

#[test]
fn memop_grant_begins_at() {
    let mut kernel = Kernel::new();
    kernel.add_expected_syscall(ExpectedSyscall::Memop {
        operation_id: MEMOP_GRANT_START,
        operation_arg: 0,
        override_return: Some(GRANT_START),
    });
    assert_eq!(kernel.memop_grant_begins_at(), Ok(GRANT_START));
    assert_eq!(
        kernel.take_syscall_log(),
        vec![SyscallLogEntry::Memop { operation_id: MEMOP_GRANT_START, operation_arg: 0 }],
    );
}

#[test]
fn memop_number_writeable_flash_regions() {
    let mut kernel = Kernel::new();
    kernel.add_expected_syscall(ExpectedSyscall::Memop {
        operation_id: MEMOP_FLASH_REGIONS,
        operation_arg: 0,
        override_return: Some(NUM_WRITEABLE_REGIONS),
    });
    assert_eq!(
        kernel.memop_number_writeable_flash_regions(),
        Ok(NUM_WRITEABLE_REGIONS),
    );
    assert_eq!(
        kernel.take_syscall_log(),
        vec![SyscallLogEntry::Memop { operation_id: MEMOP_FLASH_REGIONS, operation_arg: 0 }],
    );
}

#[test]
fn memop_flash_region_begins_at() {
    let region_index: u32 = 1;
    let mut kernel = Kernel::new();
    kernel.add_expected_syscall(ExpectedSyscall::Memop {
        operation_id: MEMOP_FLASH_REGIONS_START,
        operation_arg: region_index,
        override_return: Some(FLASH_REGION_START),
    });
    assert_eq!(
        kernel.memop_flash_region_begins_at(region_index),
        Ok(FLASH_REGION_START),
    );
    assert_eq!(
        kernel.take_syscall_log(),
        vec![
            SyscallLogEntry::Memop {
                operation_id: MEMOP_FLASH_REGIONS_START,
                operation_arg: region_index,
            },
        ],
    );
}

#[test]
fn memop_flash_region_ends_at() {
    let region_index: u32 = 1;
    let mut kernel = Kernel::new();
    kernel.add_expected_syscall(ExpectedSyscall::Memop {
        operation_id: MEMOP_FLASH_REGIONS_END,
        operation_arg: region_index,
        override_return: Some(FLASH_REGION_END),
    });
    assert_eq!(
        kernel.memop_flash_region_ends_at(region_index),
        Ok(FLASH_REGION_END),
    );
    assert_eq!(
        kernel.take_syscall_log(),
        vec![
            SyscallLogEntry::Memop {
                operation_id: MEMOP_FLASH_REGIONS_END,
                operation_arg: region_index,
            },
        ],
    );
}
