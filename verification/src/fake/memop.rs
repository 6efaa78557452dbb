use vstd::prelude::*;
use crate::constants::{
    MEMOP_FLASH_END, MEMOP_FLASH_REGIONS, MEMOP_FLASH_REGIONS_END, MEMOP_FLASH_REGIONS_START,
    MEMOP_FLASH_START, MEMOP_GRANT_START, MEMOP_MEMORY_END, MEMOP_MEMORY_START,
};
use crate::error::ErrorCode;
use crate::expected::{ExpectedSyscall, Violation};
use crate::fake::kernel::{
    expectation_violation, pop_expected, Kernel, KernelView,
};
use crate::syscall_log::SyscallLogEntry;

verus! {

pub open spec fn memop_log_entry(op: u32, arg: u32) -> SyscallLogEntry {
    SyscallLogEntry::Memop { operation_id: op, operation_arg: arg }
}

pub open spec fn is_memop_expectation(e: ExpectedSyscall) -> bool {
    e matches ExpectedSyscall::Memop { .. }
}

pub open spec fn memop_matches(e: ExpectedSyscall, op: u32, arg: u32) -> bool {
    match e {
        ExpectedSyscall::Memop { operation_id: eo, operation_arg: ea, .. } => eo == op && ea
            == arg,
        _ => false,
    }
}

pub open spec fn memop_override(e: ExpectedSyscall) -> Option<u32> {
    match e {
        ExpectedSyscall::Memop { override_return: o, .. } => o,
        _ => None,
    }
}

/// A region count clamped into the 32-bit register a memop answer occupies.
pub open spec fn count_u32(n: nat) -> u32 {
    if n > u32::MAX {
        u32::MAX
    } else {
        n as u32
    }
}

/// What the memory layout oracle answers, reading only the immutable
/// configured table. A region query beyond the table, with no override to
/// satisfy it, is a latched [`Violation::RegionOutOfRange`], not an invented
/// address; an operation id outside the table of queries is unsupported.
pub open spec fn spec_memop_answer(k: KernelView, op: u32, arg: u32) -> (
    KernelView,
    Result<u32, ErrorCode>,
) {
    if op == MEMOP_MEMORY_START {
        (k, Ok(k.layout.memory_start))
    } else if op == MEMOP_MEMORY_END {
        (k, Ok(k.layout.memory_end))
    } else if op == MEMOP_FLASH_START {
        (k, Ok(k.layout.flash_start))
    } else if op == MEMOP_FLASH_END {
        (k, Ok(k.layout.flash_end))
    } else if op == MEMOP_GRANT_START {
        (k, Ok(k.layout.grant_start))
    } else if op == MEMOP_FLASH_REGIONS {
        (k, Ok(count_u32(k.layout.regions.len())))
    } else if op == MEMOP_FLASH_REGIONS_START {
        if (arg as int) < k.layout.regions.len() {
            (k, Ok(k.layout.regions[arg as int].start))
        } else {
            (
                KernelView { violation: Some(Violation::RegionOutOfRange), ..k },
                Err(ErrorCode::Fail),
            )
        }
    } else if op == MEMOP_FLASH_REGIONS_END {
        if (arg as int) < k.layout.regions.len() {
            (k, Ok(k.layout.regions[arg as int].end))
        } else {
            (
                KernelView { violation: Some(Violation::RegionOutOfRange), ..k },
                Err(ErrorCode::Fail),
            )
        }
    } else {
        (k, Err(ErrorCode::NoSupport))
    }
}

/// What one memop syscall does: log it, check the expectation queue, then
/// answer from the override if one was scripted, else from the layout table.
pub open spec fn spec_memop(k: KernelView, op: u32, arg: u32) -> (
    KernelView,
    Result<u32, ErrorCode>,
) {
    if k.violation is Some {
        (k, Err(ErrorCode::Fail))
    } else {
        let kl = KernelView { log: k.log.push(memop_log_entry(op, arg)), ..k };
        if kl.expected.len() > 0 && !memop_matches(kl.expected[0], op, arg) {
            (
                KernelView {
                    violation: Some(expectation_violation(is_memop_expectation(kl.expected[0]))),
                    ..pop_expected(kl)
                },
                Err(ErrorCode::Fail),
            )
        } else {
            let ovr = if kl.expected.len() > 0 {
                memop_override(kl.expected[0])
            } else {
                None
            };
            let ke = if kl.expected.len() > 0 {
                pop_expected(kl)
            } else {
                kl
            };
            match ovr {
                Some(v) => (ke, Ok(v)),
                None => spec_memop_answer(ke, op, arg),
            }
        }
    }
}

impl Kernel {
    /// One memop syscall, exactly as [`spec_memop`] says.
    pub(crate) fn memop(&mut self, operation_id: u32, operation_arg: u32) -> (r: Result<
        u32,
        ErrorCode,
    >)
        ensures
            ({
                let (k2, res) = spec_memop(old(self)@, operation_id, operation_arg);
                final(self)@ == k2 && r == res
            }),
            old(self)@.wf() ==> final(self)@.wf(),
    {
        let ghost k0 = self@;
        if self.violation.is_some() {
            return Err(ErrorCode::Fail);
        }
        self.log.push(SyscallLogEntry::Memop { operation_id, operation_arg });
        let ghost kl = KernelView {
            log: k0.log.push(memop_log_entry(operation_id, operation_arg)),
            ..k0
        };
        proof {
            assert(self@ =~= kl);
        }
        let mut ovr: Option<u32> = None;
        if self.expected.len() > 0 {
            let e = self.expected.remove(0);
            proof {
                assert(self@ =~= pop_expected(kl));
            }
            let matched: bool = match e {
                ExpectedSyscall::Memop { operation_id: eo, operation_arg: ea, override_return } => {
                    if eo == operation_id && ea == operation_arg {
                        ovr = override_return;
                        true
                    } else {
                        false
                    }
                },
                _ => false,
            };
            if !matched {
                let is_kind = match e {
                    ExpectedSyscall::Memop { .. } => true,
                    _ => false,
                };
                self.violation = Some(
                    if is_kind {
                        Violation::WrongCallArguments
                    } else {
                        Violation::WrongCallKind
                    },
                );
                proof {
                    assert(self@ =~= spec_memop(k0, operation_id, operation_arg).0);
                }
                return Err(ErrorCode::Fail);
            }
        }
        if let Some(v) = ovr {
            proof {
                assert(self@ =~= spec_memop(k0, operation_id, operation_arg).0);
            }
            return Ok(v);
        }
        let r: Result<u32, ErrorCode> = if operation_id == MEMOP_MEMORY_START {
            Ok(self.layout.memory_start)
        } else if operation_id == MEMOP_MEMORY_END {
            Ok(self.layout.memory_end)
        } else if operation_id == MEMOP_FLASH_START {
            Ok(self.layout.flash_start)
        } else if operation_id == MEMOP_FLASH_END {
            Ok(self.layout.flash_end)
        } else if operation_id == MEMOP_GRANT_START {
            Ok(self.layout.grant_start)
        } else if operation_id == MEMOP_FLASH_REGIONS {
            let count = self.layout.regions.len();
            if count > u32::MAX as usize {
                Ok(u32::MAX)
            } else {
                Ok(count as u32)
            }
        } else if operation_id == MEMOP_FLASH_REGIONS_START {
            if (operation_arg as usize) < self.layout.regions.len() {
                Ok(self.layout.regions[operation_arg as usize].start)
            } else {
                self.violation = Some(Violation::RegionOutOfRange);
                Err(ErrorCode::Fail)
            }
        } else if operation_id == MEMOP_FLASH_REGIONS_END {
            if (operation_arg as usize) < self.layout.regions.len() {
                Ok(self.layout.regions[operation_arg as usize].end)
            } else {
                self.violation = Some(Violation::RegionOutOfRange);
                Err(ErrorCode::Fail)
            }
        } else {
            Err(ErrorCode::NoSupport)
        };
        proof {
            assert(self@ =~= spec_memop(k0, operation_id, operation_arg).0);
        }
        r
    }

    /// Where the process's RAM begins.
    pub fn memop_memory_begins_at(&mut self) -> (r: Result<u32, ErrorCode>)
        ensures
            ({
                let (k2, res) = spec_memop(old(self)@, MEMOP_MEMORY_START, 0);
                final(self)@ == k2 && r == res
            }),
            old(self)@.wf() ==> final(self)@.wf(),
    {
        self.memop(MEMOP_MEMORY_START, 0)
    }

    /// Where the process's RAM ends.
    pub fn memop_memory_ends_at(&mut self) -> (r: Result<u32, ErrorCode>)
        ensures
            ({
                let (k2, res) = spec_memop(old(self)@, MEMOP_MEMORY_END, 0);
                final(self)@ == k2 && r == res
            }),
            old(self)@.wf() ==> final(self)@.wf(),
    {
        self.memop(MEMOP_MEMORY_END, 0)
    }

    /// Where the process's flash begins.
    pub fn memop_flash_begins_at(&mut self) -> (r: Result<u32, ErrorCode>)
        ensures
            ({
                let (k2, res) = spec_memop(old(self)@, MEMOP_FLASH_START, 0);
                final(self)@ == k2 && r == res
            }),
            old(self)@.wf() ==> final(self)@.wf(),
    {
        self.memop(MEMOP_FLASH_START, 0)
    }

    /// Where the process's flash ends.
    pub fn memop_flash_ends_at(&mut self) -> (r: Result<u32, ErrorCode>)
        ensures
            ({
                let (k2, res) = spec_memop(old(self)@, MEMOP_FLASH_END, 0);
                final(self)@ == k2 && r == res
            }),
            old(self)@.wf() ==> final(self)@.wf(),
    {
        self.memop(MEMOP_FLASH_END, 0)
    }

    /// Where the process's grant region begins.
    pub fn memop_grant_begins_at(&mut self) -> (r: Result<u32, ErrorCode>)
        ensures
            ({
                let (k2, res) = spec_memop(old(self)@, MEMOP_GRANT_START, 0);
                final(self)@ == k2 && r == res
            }),
            old(self)@.wf() ==> final(self)@.wf(),
    {
        self.memop(MEMOP_GRANT_START, 0)
    }

    /// How many writable flash regions the process has.
    pub fn memop_number_writeable_flash_regions(&mut self) -> (r: Result<u32, ErrorCode>)
        ensures
            ({
                let (k2, res) = spec_memop(old(self)@, MEMOP_FLASH_REGIONS, 0);
                final(self)@ == k2 && r == res
            }),
            old(self)@.wf() ==> final(self)@.wf(),
    {
        self.memop(MEMOP_FLASH_REGIONS, 0)
    }

    /// Where writable flash region `region_index` begins.
    pub fn memop_flash_region_begins_at(&mut self, region_index: u32) -> (r: Result<
        u32,
        ErrorCode,
    >)
        ensures
            ({
                let (k2, res) = spec_memop(old(self)@, MEMOP_FLASH_REGIONS_START, region_index);
                final(self)@ == k2 && r == res
            }),
            old(self)@.wf() ==> final(self)@.wf(),
    {
        self.memop(MEMOP_FLASH_REGIONS_START, region_index)
    }

    /// Where writable flash region `region_index` ends.
    pub fn memop_flash_region_ends_at(&mut self, region_index: u32) -> (r: Result<u32, ErrorCode>)
        ensures
            ({
                let (k2, res) = spec_memop(old(self)@, MEMOP_FLASH_REGIONS_END, region_index);
                final(self)@ == k2 && r == res
            }),
            old(self)@.wf() ==> final(self)@.wf(),
    {
        self.memop(MEMOP_FLASH_REGIONS_END, region_index)
    }
}

/// Layout-oracle determinism: region queries answer from the immutable
/// configured table, so (with nothing scripted) querying the same in-range
/// region index twice returns the configured start address both times; and a
/// region index beyond the table is out of range — it latches a violation
/// rather than inventing an address.
pub proof fn lemma_layout_oracle_deterministic(k: KernelView, idx: u32)
    requires
        k.violation is None,
        k.expected.len() == 0,
    ensures
        ({
            let (k1, r1) = spec_memop(k, MEMOP_FLASH_REGIONS_START, idx);
            let (k2, r2) = spec_memop(k1, MEMOP_FLASH_REGIONS_START, idx);
            k1.layout == k.layout && ((idx as int) < k.layout.regions.len() ==> (r1 == Ok::<
                u32,
                ErrorCode,
            >(k.layout.regions[idx as int].start) && r2 == r1 && k2.violation is None)) && ((
            idx as int) >= k.layout.regions.len() ==> (r1 == Err::<u32, ErrorCode>(ErrorCode::Fail)
                && k1.violation == Some(Violation::RegionOutOfRange)))
        }),
{
}

} // verus!
