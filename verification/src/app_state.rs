use vstd::prelude::*;
use crate::constants::{
    APP_STATE_ALLOW_WRITE, APP_STATE_COMMAND_WRITE_FLASH, APP_STATE_DRIVER_NUM,
    APP_STATE_SUBSCRIBE_WRITE, COMMAND_DRIVER_CHECK, MEMOP_FLASH_REGIONS,
    MEMOP_FLASH_REGIONS_START,
};
use crate::error::{CommandReturn, ErrorCode};
use crate::fake::kernel::{
    command_log_entry, flash_base_of, spec_allow_ro, spec_command, spec_revert_allow,
    spec_revert_subscribe, spec_subscribe, spec_take_upcall, spec_yield_wait, Kernel, KernelView,
};
use crate::fake::memop::spec_memop;
use crate::scope::{open_scope, record_sub, revert_allows_from, revert_subs_from, Scope,
    SubscribeShare};

verus! {

/// The flash-backed persistent-state client driver library.
///
/// It locates the process's writable flash region through the memory layout
/// oracle once — the explicit state machine `located: None` (not yet
/// located) to `located: Some(address)` — and then saves the caller's bytes
/// by handing them to the persistent-state capsule together with that
/// 32-bit flash address, or loads them back by reading the process's own
/// memory-mapped flash. No hidden process-wide flag is involved: the state
/// is carried by the value.
pub struct AppState {
    /// The start address of writable flash region 0 once it has been
    /// located; saving and loading resolve it on first use.
    pub located: Option<u32>,
}

/// What locating the persistent-storage region does, end to end: inside a
/// scope, the caller's bytes are shared read-only with the capsule, the
/// oracle is asked how many writable flash regions exist (none is `NoMem`),
/// region 0's start address is taken as the storage slot, and the scope is
/// reverted. The middle value is the located address, if one was found.
pub open spec fn spec_init(k: KernelView, ram: Seq<u8>) -> (
    KernelView,
    Option<u32>,
    Result<(), ErrorCode>,
) {
    let (k1, ra) = spec_allow_ro(k, APP_STATE_DRIVER_NUM, APP_STATE_ALLOW_WRITE, ram);
    match ra {
        Err((_b, e)) => (k1, None, Err(e)),
        Ok(_prev) => {
            let (k2, rn) = spec_memop(k1, MEMOP_FLASH_REGIONS, 0);
            match rn {
                Err(e) => {
                    let (k3, _bb) = spec_revert_allow(
                        k2,
                        APP_STATE_DRIVER_NUM,
                        APP_STATE_ALLOW_WRITE,
                        true,
                    );
                    (k3, None, Err(e))
                },
                Ok(n) => if n == 0 {
                    let (k3, _bb) = spec_revert_allow(
                        k2,
                        APP_STATE_DRIVER_NUM,
                        APP_STATE_ALLOW_WRITE,
                        true,
                    );
                    (k3, None, Err(ErrorCode::NoMem))
                } else {
                    let (k3, rs) = spec_memop(k2, MEMOP_FLASH_REGIONS_START, 0);
                    match rs {
                        Err(e) => {
                            let (k4, _bb) = spec_revert_allow(
                                k3,
                                APP_STATE_DRIVER_NUM,
                                APP_STATE_ALLOW_WRITE,
                                true,
                            );
                            (k4, None, Err(e))
                        },
                        Ok(addr) => {
                            let (k4, _bb) = spec_revert_allow(
                                k3,
                                APP_STATE_DRIVER_NUM,
                                APP_STATE_ALLOW_WRITE,
                                true,
                            );
                            (k4, Some(addr), Ok(()))
                        },
                    }
                },
            }
        },
    }
}

/// The saving steps once the storage address is known: subscribe to the
/// write-completion slot, then command the capsule to copy the currently
/// allowed bytes to the flash address.
pub open spec fn spec_save_located(k: KernelView, a: u32) -> (KernelView, Result<(), ErrorCode>) {
    let (k1, rs) = spec_subscribe(k, APP_STATE_DRIVER_NUM, APP_STATE_SUBSCRIBE_WRITE);
    match rs {
        Err(e) => (k1, Err(e)),
        Ok(()) => {
            let (k2, rc) = spec_command(k1, APP_STATE_DRIVER_NUM, APP_STATE_COMMAND_WRITE_FLASH, a, 0);
            (k2, rc.result_spec())
        },
    }
}

/// What an asynchronous save does: locate the storage slot first if it has
/// not been located yet, then subscribe and command through the caller's
/// scope. The caller yields and reads the upcall slot itself.
pub open spec fn spec_save(k: KernelView, located: Option<u32>, ram: Seq<u8>) -> (
    KernelView,
    Option<u32>,
    Result<(), ErrorCode>,
) {
    match located {
        Some(a) => {
            let (k2, r) = spec_save_located(k, a);
            (k2, Some(a), r)
        },
        None => {
            let (k1, lo, ri) = spec_init(k, ram);
            match ri {
                Err(e) => (k1, None, Err(e)),
                Ok(()) => match lo {
                    Some(a) => {
                        let (k2, r) = spec_save_located(k1, a);
                        (k2, Some(a), r)
                    },
                    None => (k1, None, Err(ErrorCode::Fail)),
                },
            }
        },
    }
}

/// The synchronous saving steps once the storage address is known: inside a
/// scope, subscribe, command, wait once, and check that the completion
/// really arrived — an empty slot after waking is a failure.
pub open spec fn spec_save_sync_located(k: KernelView, a: u32) -> (
    KernelView,
    Result<(), ErrorCode>,
) {
    let (k1, rs) = spec_subscribe(k, APP_STATE_DRIVER_NUM, APP_STATE_SUBSCRIBE_WRITE);
    match rs {
        Err(e) => (k1, Err(e)),
        Ok(()) => {
            let (k2, rc) = spec_command(k1, APP_STATE_DRIVER_NUM, APP_STATE_COMMAND_WRITE_FLASH, a, 0);
            match rc.result_spec() {
                Err(e) => (
                    spec_revert_subscribe(k2, APP_STATE_DRIVER_NUM, APP_STATE_SUBSCRIBE_WRITE),
                    Err(e),
                ),
                Ok(()) => {
                    let k3 = spec_yield_wait(k2);
                    let (k4, got) = spec_take_upcall(
                        k3,
                        APP_STATE_DRIVER_NUM,
                        APP_STATE_SUBSCRIBE_WRITE,
                    );
                    let k5 = spec_revert_subscribe(
                        k4,
                        APP_STATE_DRIVER_NUM,
                        APP_STATE_SUBSCRIBE_WRITE,
                    );
                    (
                        k5,
                        if got is Some {
                            Ok(())
                        } else {
                            Err(ErrorCode::Fail)
                        },
                    )
                },
            }
        },
    }
}

/// What a synchronous save does, end to end.
pub open spec fn spec_save_sync(k: KernelView, located: Option<u32>, ram: Seq<u8>) -> (
    KernelView,
    Option<u32>,
    Result<(), ErrorCode>,
) {
    match located {
        Some(a) => {
            let (k2, r) = spec_save_sync_located(k, a);
            (k2, Some(a), r)
        },
        None => {
            let (k1, lo, ri) = spec_init(k, ram);
            match ri {
                Err(e) => (k1, None, Err(e)),
                Ok(()) => match lo {
                    Some(a) => {
                        let (k2, r) = spec_save_sync_located(k1, a);
                        (k2, Some(a), r)
                    },
                    None => (k1, None, Err(ErrorCode::Fail)),
                },
            }
        },
    }
}

/// What a load does: locate the storage slot first if need be, then read
/// the caller's number of bytes from the process's memory-mapped flash at
/// the located address — a plain length-checked read, not a syscall. The
/// third value is the caller's buffer afterwards.
pub open spec fn spec_load_sync(k: KernelView, located: Option<u32>, ram: Seq<u8>) -> (
    KernelView,
    Option<u32>,
    Seq<u8>,
    Result<(), ErrorCode>,
) {
    match located {
        Some(a) => {
            let (ram2, r) = spec_load_read(k, a, ram);
            (k, Some(a), ram2, r)
        },
        None => {
            let (k1, lo, ri) = spec_init(k, ram);
            match ri {
                Err(e) => (k1, None, ram, Err(e)),
                Ok(()) => match lo {
                    Some(a) => {
                        let (ram2, r) = spec_load_read(k1, a, ram);
                        (k1, Some(a), ram2, r)
                    },
                    None => (k1, None, ram, Err(ErrorCode::Fail)),
                },
            }
        },
    }
}

/// Reading `ram.len()` bytes of flash at `a`: the flash contents when the
/// range lies within the store, else `Invalid` with the buffer untouched.
pub open spec fn spec_load_read(k: KernelView, a: u32, ram: Seq<u8>) -> (
    Seq<u8>,
    Result<(), ErrorCode>,
) {
    let base = flash_base_of(k);
    if a >= base && a - base + ram.len() <= k.flash.len() {
        (k.flash.subrange(a - base, a - base + ram.len()), Ok(()))
    } else {
        (ram, Err(ErrorCode::Invalid))
    }
}

impl AppState {
    /// A client that has not located its storage region yet.
    pub fn new() -> (r: AppState)
        ensures
            r.located is None,
    {
        AppState { located: None }
    }

    /// Runs the presence check against the persistent-state capsule. With
    /// nothing scripted this is pure: it returns whether the driver is
    /// registered and leaves everything but the syscall log untouched.
    pub fn driver_check(kernel: &mut Kernel) -> (r: bool)
        ensures
            ({
                let (k2, ret) = spec_command(
                    old(kernel)@,
                    APP_STATE_DRIVER_NUM,
                    COMMAND_DRIVER_CHECK,
                    0,
                    0,
                );
                final(kernel)@ == k2 && r == (ret == CommandReturn::Success)
            }),
            old(kernel)@.wf() ==> final(kernel)@.wf(),
            (old(kernel)@.violation is None && old(kernel)@.expected.len() == 0) ==> (r == old(
                kernel,
            )@.app_state_present && final(kernel)@ == (KernelView {
                log: old(kernel)@.log.push(
                    command_log_entry(APP_STATE_DRIVER_NUM, COMMAND_DRIVER_CHECK, 0, 0),
                ),
                ..old(kernel)@
            })),
    {
        let ghost k0 = kernel@;
        let r = kernel.command(APP_STATE_DRIVER_NUM, COMMAND_DRIVER_CHECK, 0, 0).is_success();
        proof {
            if k0.violation is None && k0.expected.len() == 0 {
                assert(kernel@ =~= KernelView {
                    log: k0.log.push(
                        command_log_entry(APP_STATE_DRIVER_NUM, COMMAND_DRIVER_CHECK, 0, 0),
                    ),
                    ..k0
                });
            }
        }
        r
    }

    /// Locates the persistent-storage region, exactly as [`spec_init`]
    /// says. The caller's bytes come back untouched either way; on success
    /// the located address is remembered, on failure the state is
    /// unchanged.
    pub fn init(&mut self, kernel: &mut Kernel, ram: Vec<u8>) -> (r: (Vec<u8>, Result<(), ErrorCode>))
        requires
            old(kernel)@.wf(),
        ensures
            ({
                let (k2, lo, res) = spec_init(old(kernel)@, ram@);
                final(kernel)@ == k2 && r.1 == res && r.0@ == ram@ && final(self).located == (
                match lo {
                    Some(a) => Some(a),
                    None => old(self).located,
                })
            }),
            final(kernel)@.wf(),
    {
        let mut scope = open_scope();
        let mut held: Vec<u8>;
        match scope.allow_ro(kernel, APP_STATE_DRIVER_NUM, APP_STATE_ALLOW_WRITE, ram) {
            Ok(_prev) => {},
            Err((b, e)) => {
                return (b, Err(e));
            },
        }
        let outcome: Result<u32, ErrorCode> = match kernel.memop_number_writeable_flash_regions() {
            Err(e) => Err(e),
            Ok(n) => if n == 0 {
                Err(ErrorCode::NoMem)
            } else {
                match kernel.memop_flash_region_begins_at(0) {
                    Err(e) => Err(e),
                    Ok(addr) => Ok(addr),
                }
            },
        };
        let mut bufs = scope.close(kernel);
        proof {
            reveal_with_fuel(revert_subs_from, 3);
            reveal_with_fuel(revert_allows_from, 3);
        }
        held = match bufs.pop() {
            Some(b) => b,
            None => Vec::new(),
        };
        match outcome {
            Ok(addr) => {
                self.located = Some(addr);
                (held, Ok(()))
            },
            Err(e) => (held, Err(e)),
        }
    }

    /// Starts an asynchronous save through a caller-held scope, exactly as
    /// [`spec_save`] says: the storage region is located on first use, then
    /// the completion slot is subscribed and the write commanded. The
    /// caller yields and reads the upcall slot itself.
    pub fn save(&mut self, kernel: &mut Kernel, scope: &mut Scope, ram: Vec<u8>) -> (r: (
        Vec<u8>,
        Result<(), ErrorCode>,
    ))
        requires
            old(kernel)@.wf(),
            old(scope)@.wf(),
        ensures
            ({
                let (k2, lo, res) = spec_save(old(kernel)@, old(self).located, ram@);
                final(kernel)@ == k2 && r.1 == res && r.0@ == ram@ && final(self).located == (
                match lo {
                    Some(a) => Some(a),
                    None => old(self).located,
                })
            }),
            final(kernel)@.wf(),
            final(scope)@.wf(),
            final(scope)@.allows == old(scope)@.allows,
            final(scope)@.subs == old(scope)@.subs || final(scope)@.subs == record_sub(
                old(scope)@.subs,
                SubscribeShare {
                    driver_num: APP_STATE_DRIVER_NUM,
                    subscribe_num: APP_STATE_SUBSCRIBE_WRITE,
                },
            ),
    {
        let mut held = ram;
        if self.located.is_none() {
            let (held2, ri) = self.init(kernel, held);
            held = held2;
            match ri {
                Err(e) => {
                    return (held, Err(e));
                },
                Ok(()) => {},
            }
        }
        let addr: u32 = match self.located {
            Some(a) => a,
            None => 0,
        };
        match scope.subscribe(kernel, APP_STATE_DRIVER_NUM, APP_STATE_SUBSCRIBE_WRITE) {
            Ok(()) => {},
            Err(e) => {
                return (held, Err(e));
            },
        }
        match kernel.command(APP_STATE_DRIVER_NUM, APP_STATE_COMMAND_WRITE_FLASH, addr, 0)
            .to_result() {
            Ok(()) => (held, Ok(())),
            Err(e) => (held, Err(e)),
        }
    }

    /// Saves synchronously, exactly as [`spec_save_sync`] says: locate on
    /// first use, then — inside its own scope — subscribe, command, wait
    /// once, and require that the completion really arrived.
    pub fn save_sync(&mut self, kernel: &mut Kernel, ram: Vec<u8>) -> (r: (
        Vec<u8>,
        Result<(), ErrorCode>,
    ))
        requires
            old(kernel)@.wf(),
        ensures
            ({
                let (k2, lo, res) = spec_save_sync(old(kernel)@, old(self).located, ram@);
                final(kernel)@ == k2 && r.1 == res && r.0@ == ram@ && final(self).located == (
                match lo {
                    Some(a) => Some(a),
                    None => old(self).located,
                })
            }),
            final(kernel)@.wf(),
    {
        let mut held = ram;
        if self.located.is_none() {
            let (held2, ri) = self.init(kernel, held);
            held = held2;
            match ri {
                Err(e) => {
                    return (held, Err(e));
                },
                Ok(()) => {},
            }
        }
        let addr: u32 = match self.located {
            Some(a) => a,
            None => 0,
        };
        let mut scope = open_scope();
        match scope.subscribe(kernel, APP_STATE_DRIVER_NUM, APP_STATE_SUBSCRIBE_WRITE) {
            Ok(()) => {},
            Err(e) => {
                let _bufs = scope.close(kernel);
                proof {
                    reveal_with_fuel(revert_subs_from, 3);
                    reveal_with_fuel(revert_allows_from, 3);
                }
                return (held, Err(e));
            },
        }
        match kernel.command(APP_STATE_DRIVER_NUM, APP_STATE_COMMAND_WRITE_FLASH, addr, 0)
            .to_result() {
            Ok(()) => {},
            Err(e) => {
                let _bufs = scope.close(kernel);
                proof {
                    reveal_with_fuel(revert_subs_from, 3);
                    reveal_with_fuel(revert_allows_from, 3);
                }
                return (held, Err(e));
            },
        }
        kernel.yield_wait();
        let got = kernel.take_upcall(APP_STATE_DRIVER_NUM, APP_STATE_SUBSCRIBE_WRITE);
        let _bufs = scope.close(kernel);
        proof {
            reveal_with_fuel(revert_subs_from, 3);
            reveal_with_fuel(revert_allows_from, 3);
        }
        match got {
            Some(_) => (held, Ok(())),
            None => (held, Err(ErrorCode::Fail)),
        }
    }

    /// Loads the caller's number of bytes back from the located flash
    /// region, exactly as [`spec_load_sync`] says: locate on first use,
    /// then a length-checked read of the process's memory-mapped flash.
    pub fn load_sync(&mut self, kernel: &mut Kernel, ram: &mut Vec<u8>) -> (r: Result<
        (),
        ErrorCode,
    >)
        requires
            old(kernel)@.wf(),
        ensures
            ({
                let (k2, lo, ram2, res) = spec_load_sync(old(kernel)@, old(self).located, old(ram)@);
                final(kernel)@ == k2 && r == res && final(ram)@ == ram2 && final(self).located == (
                match lo {
                    Some(a) => Some(a),
                    None => old(self).located,
                })
            }),
            final(kernel)@.wf(),
    {
        if self.located.is_none() {
            let mut tmp: Vec<u8> = Vec::new();
            core::mem::swap(ram, &mut tmp);
            let (tmp2, ri) = self.init(kernel, tmp);
            let mut back = tmp2;
            core::mem::swap(ram, &mut back);
            match ri {
                Err(e) => {
                    return Err(e);
                },
                Ok(()) => {},
            }
        }
        let addr: u32 = match self.located {
            Some(a) => a,
            None => 0,
        };
        match kernel.flash_bytes(addr, ram.len()) {
            Some(mut bytes) => {
                core::mem::swap(ram, &mut bytes);
                Ok(())
            },
            None => Err(ErrorCode::Invalid),
        }
    }
}

} // verus!
