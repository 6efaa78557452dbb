use vstd::prelude::*;
use crate::constants::{
    COMMAND_DRIVER_CHECK, RNG_ALLOW_GEN, RNG_COMMAND_GEN, RNG_DRIVER_NUM, RNG_SUBSCRIBE_GEN,
};
use crate::error::{CommandReturn, ErrorCode};
use crate::fake::kernel::{
    command_log_entry, find_sub, lemma_find_after_register,
    lemma_find_sub_after_value_update, lemma_register_sub_wf, lemma_remove_sub_clears,
    lemma_update_value_wf, quiescent, spec_allow_rw, spec_command, spec_revert_allow,
    spec_revert_subscribe, spec_subscribe, spec_take_upcall, spec_yield_wait, Kernel, KernelView,
    Subscription,
};
use crate::fake::rng::{rng_fill, rng_fill_count};
use crate::scope::{open_scope, revert_allows_from, revert_subs_from, Scope};
use crate::syscall_log::SyscallLogEntry;

verus! {

/// The random-byte generator's client driver library.
///
/// It shares a buffer with the generator, asks for bytes, and waits for the
/// completion upcall; the whole exchange runs inside a share scope, so the
/// kernel holds no reference to the caller's buffer or callback slot after a
/// call returns.
pub struct Rng;

/// What one synchronous generate call does, end to end: the oversize check
/// before any syscall, then — inside a scope — allow, subscribe, command,
/// one wait-yield, the upcall read, and the scope's reversal (unsubscribe,
/// then un-allow, which hands the caller's buffer back).
pub open spec fn spec_gen(k: KernelView, b: Seq<u8>, num: u32) -> (
    KernelView,
    Seq<u8>,
    Result<(), ErrorCode>,
) {
    if b.len() < num as int {
        (k, b, Err(ErrorCode::BadRVal))
    } else {
        let (k1, ra) = spec_allow_rw(k, RNG_DRIVER_NUM, RNG_ALLOW_GEN, b);
        match ra {
            Err((bv, e)) => (k1, bv, Err(e)),
            Ok(_prev) => {
                let (k2, rs) = spec_subscribe(k1, RNG_DRIVER_NUM, RNG_SUBSCRIBE_GEN);
                match rs {
                    Err(e) => {
                        let (k3, bb) = spec_revert_allow(k2, RNG_DRIVER_NUM, RNG_ALLOW_GEN, false);
                        (k3, bb, Err(e))
                    },
                    Ok(()) => {
                        let (k3, rc) = spec_command(k2, RNG_DRIVER_NUM, RNG_COMMAND_GEN, num, 0);
                        match rc.result_spec() {
                            Err(e) => {
                                let k4 = spec_revert_subscribe(
                                    k3,
                                    RNG_DRIVER_NUM,
                                    RNG_SUBSCRIBE_GEN,
                                );
                                let (k5, bb) = spec_revert_allow(
                                    k4,
                                    RNG_DRIVER_NUM,
                                    RNG_ALLOW_GEN,
                                    false,
                                );
                                (k5, bb, Err(e))
                            },
                            Ok(()) => {
                                let k4 = spec_yield_wait(k3);
                                let (k5, got) = spec_take_upcall(
                                    k4,
                                    RNG_DRIVER_NUM,
                                    RNG_SUBSCRIBE_GEN,
                                );
                                let k6 = spec_revert_subscribe(
                                    k5,
                                    RNG_DRIVER_NUM,
                                    RNG_SUBSCRIBE_GEN,
                                );
                                let (k7, bb) = spec_revert_allow(
                                    k6,
                                    RNG_DRIVER_NUM,
                                    RNG_ALLOW_GEN,
                                    false,
                                );
                                (
                                    k7,
                                    bb,
                                    if got is Some {
                                        Ok(())
                                    } else {
                                        Err(ErrorCode::Fail)
                                    },
                                )
                            },
                        }
                    },
                }
            },
        }
    }
}

impl Rng {
    /// Runs the presence check against the generator capsule. With nothing
    /// scripted this is pure: it returns whether the driver is registered
    /// and leaves everything but the syscall log untouched.
    pub fn driver_check(kernel: &mut Kernel) -> (r: bool)
        ensures
            ({
                let (k2, ret) = spec_command(
                    old(kernel)@,
                    RNG_DRIVER_NUM,
                    COMMAND_DRIVER_CHECK,
                    0,
                    0,
                );
                final(kernel)@ == k2 && r == (ret == CommandReturn::Success)
            }),
            old(kernel)@.wf() ==> final(kernel)@.wf(),
            (old(kernel)@.violation is None && old(kernel)@.expected.len() == 0) ==> (r == old(
                kernel,
            )@.rng_present && final(kernel)@ == (KernelView {
                log: old(kernel)@.log.push(
                    command_log_entry(RNG_DRIVER_NUM, COMMAND_DRIVER_CHECK, 0, 0),
                ),
                ..old(kernel)@
            })),
    {
        let ghost k0 = kernel@;
        let r = kernel.command(RNG_DRIVER_NUM, COMMAND_DRIVER_CHECK, 0, 0).is_success();
        proof {
            if k0.violation is None && k0.expected.len() == 0 {
                assert(kernel@ =~= KernelView {
                    log: k0.log.push(command_log_entry(RNG_DRIVER_NUM, COMMAND_DRIVER_CHECK, 0, 0)),
                    ..k0
                });
            }
        }
        r
    }

    /// Synchronously fills the first `num` bytes of `buffer` through the
    /// generator driver, exactly as [`spec_gen`] says. A request larger
    /// than the buffer is rejected with `BadRVal` before any syscall is
    /// issued. Whatever happens, the buffer comes back to the caller and
    /// the scope's shares are reverted.
    pub fn gen(kernel: &mut Kernel, buffer: &mut Vec<u8>, num: u32) -> (r: Result<(), ErrorCode>)
        requires
            old(kernel)@.wf(),
        ensures
            ({
                let (k2, b2, res) = spec_gen(old(kernel)@, old(buffer)@, num);
                final(kernel)@ == k2 && final(buffer)@ == b2 && r == res
            }),
            old(buffer)@.len() < num as int ==> (r == Err::<(), ErrorCode>(ErrorCode::BadRVal)
                && final(kernel)@ == old(kernel)@ && final(buffer)@ == old(buffer)@),
            final(kernel)@.wf(),
    {
        let ghost k0 = kernel@;
        let ghost b0 = buffer@;
        if buffer.len() < num as usize {
            return Err(ErrorCode::BadRVal);
        }
        let mut scope = open_scope();
        let mut buf: Vec<u8> = Vec::new();
        core::mem::swap(buffer, &mut buf);
        match scope.allow_rw(kernel, RNG_DRIVER_NUM, RNG_ALLOW_GEN, buf) {
            Ok(_prev) => {},
            Err((mut b, e)) => {
                core::mem::swap(buffer, &mut b);
                return Err(e);
            },
        }
        match scope.subscribe(kernel, RNG_DRIVER_NUM, RNG_SUBSCRIBE_GEN) {
            Ok(()) => {},
            Err(e) => {
                let mut bufs = scope.close(kernel);
                proof {
                    reveal_with_fuel(revert_subs_from, 3);
                    reveal_with_fuel(revert_allows_from, 3);
                }
                match bufs.pop() {
                    Some(mut b) => {
                        core::mem::swap(buffer, &mut b);
                    },
                    None => {},
                }
                return Err(e);
            },
        }
        let cr = kernel.command(RNG_DRIVER_NUM, RNG_COMMAND_GEN, num, 0);
        match cr.to_result() {
            Ok(()) => {},
            Err(e) => {
                let mut bufs = scope.close(kernel);
                proof {
                    reveal_with_fuel(revert_subs_from, 3);
                    reveal_with_fuel(revert_allows_from, 3);
                }
                match bufs.pop() {
                    Some(mut b) => {
                        core::mem::swap(buffer, &mut b);
                    },
                    None => {},
                }
                return Err(e);
            },
        }
        kernel.yield_wait();
        let got = kernel.take_upcall(RNG_DRIVER_NUM, RNG_SUBSCRIBE_GEN);
        let mut bufs = scope.close(kernel);
        proof {
            reveal_with_fuel(revert_subs_from, 3);
            reveal_with_fuel(revert_allows_from, 3);
        }
        match bufs.pop() {
            Some(mut b) => {
                core::mem::swap(buffer, &mut b);
            },
            None => {},
        }
        match got {
            Some(_) => Ok(()),
            None => Err(ErrorCode::Fail),
        }
    }

    /// Starts an asynchronous generate through a caller-held scope: allow,
    /// subscribe and command, without waiting. On success the previously
    /// allowed buffer comes back (the strict swap); the caller's buffer
    /// stays shared with the kernel until the scope closes, and the caller
    /// yields and reads the upcall slot itself.
    pub fn gen_async(kernel: &mut Kernel, scope: &mut Scope, buffer: Vec<u8>, num: u32) -> (r:
        Result<Vec<u8>, (Vec<u8>, ErrorCode)>)
        requires
            old(kernel)@.wf(),
            old(scope)@.wf(),
        ensures
            final(kernel)@.wf(),
            final(scope)@.wf(),
            buffer@.len() < num as int ==> (final(kernel)@ == old(kernel)@ && final(scope)@ == old(
                scope,
            )@ && (r matches Err((b, e)) && b@ == buffer@ && e == ErrorCode::BadRVal)),
            buffer@.len() >= num as int ==> ({
                let (k1, ra) = spec_allow_rw(old(kernel)@, RNG_DRIVER_NUM, RNG_ALLOW_GEN, buffer@);
                match ra {
                    Err((bv, e)) => final(kernel)@ == k1 && final(scope)@ == old(scope)@ && (
                    r matches Err((b2, e2)) && b2@ == bv && e2 == e),
                    Ok(prev) => ({
                        let (k2, rs) = spec_subscribe(k1, RNG_DRIVER_NUM, RNG_SUBSCRIBE_GEN);
                        final(scope)@.allows == crate::scope::record_allow(
                            old(scope)@.allows,
                            crate::scope::AllowShare {
                                driver_num: RNG_DRIVER_NUM,
                                buffer_num: RNG_ALLOW_GEN,
                                readonly: false,
                            },
                        ) && match rs {
                            Err(e) => final(kernel)@ == k2 && final(scope)@.subs == old(scope)@.subs
                                && (r matches Err((b2, e2)) && b2@ == prev && e2 == e),
                            Ok(()) => ({
                                let (k3, rc) = spec_command(
                                    k2,
                                    RNG_DRIVER_NUM,
                                    RNG_COMMAND_GEN,
                                    num,
                                    0,
                                );
                                final(kernel)@ == k3 && final(scope)@.subs
                                    == crate::scope::record_sub(
                                    old(scope)@.subs,
                                    crate::scope::SubscribeShare {
                                        driver_num: RNG_DRIVER_NUM,
                                        subscribe_num: RNG_SUBSCRIBE_GEN,
                                    },
                                ) && match rc.result_spec() {
                                    Err(e) => r matches Err((b2, e2)) && b2@ == prev && e2 == e,
                                    Ok(()) => r matches Ok(b2) && b2@ == prev,
                                }
                            }),
                        }
                    }),
                }
            }),
    {
        if buffer.len() < num as usize {
            return Err((buffer, ErrorCode::BadRVal));
        }
        let prev = match scope.allow_rw(kernel, RNG_DRIVER_NUM, RNG_ALLOW_GEN, buffer) {
            Ok(p) => p,
            Err(e) => {
                return Err(e);
            },
        };
        match scope.subscribe(kernel, RNG_DRIVER_NUM, RNG_SUBSCRIBE_GEN) {
            Ok(()) => {},
            Err(e) => {
                return Err((prev, e));
            },
        }
        match kernel.command(RNG_DRIVER_NUM, RNG_COMMAND_GEN, num, 0).to_result() {
            Ok(()) => Ok(prev),
            Err(e) => Err((prev, e)),
        }
    }
}

/// What a synchronous generate does to a quiescent, well-formed kernel
/// (nothing scripted, nothing pending), for a request that fits the buffer.
/// With the generator registered, the call succeeds: the buffer comes back
/// with its first `num` bytes filled, the driver's byte record holds
/// exactly those bytes, the allowed slot is back to the sentinel, the
/// subscription is gone, nothing is pending, and the log grew by exactly
/// the four calls made. Without it, the call fails with `NoDevice` after
/// the one allow attempt, and the buffer comes back untouched.
pub proof fn lemma_gen_quiescent(k: KernelView, b: Seq<u8>, num: u32)
    requires
        k.wf(),
        quiescent(k),
        num as int <= b.len(),
    ensures
        ({
            let (k2, b2, res) = spec_gen(k, b, num);
            if k.rng_present {
                res == Ok::<(), ErrorCode>(()) && b2 == rng_fill(b, num as int) && k2.rng.messages
                    == rng_fill(b, num as int).take(num as int) && k2.rng.buffer.len() == 0
                    && find_sub(k2.subs, RNG_DRIVER_NUM, RNG_SUBSCRIBE_GEN) is None
                    && k2.queue.len() == 0 && k2.violation is None && k2.expected.len() == 0
                    && k2.log == k.log + seq![
                    crate::fake::kernel::allow_rw_log_entry(
                        RNG_DRIVER_NUM,
                        RNG_ALLOW_GEN,
                        b.len(),
                    ),
                    crate::fake::kernel::subscribe_log_entry(RNG_DRIVER_NUM, RNG_SUBSCRIBE_GEN),
                    command_log_entry(RNG_DRIVER_NUM, RNG_COMMAND_GEN, num, 0),
                    SyscallLogEntry::YieldWait,
                ] && k2.app_state == k.app_state && k2.flash == k.flash
            } else {
                res == Err::<(), ErrorCode>(ErrorCode::NoDevice) && b2 == b && k2 == (KernelView {
                    log: k.log.push(
                        crate::fake::kernel::allow_rw_log_entry(
                            RNG_DRIVER_NUM,
                            RNG_ALLOW_GEN,
                            b.len(),
                        ),
                    ),
                    ..k
                })
            }
        }),
{
    if !k.rng_present {
        return;
    }
    let (k1, ra) = spec_allow_rw(k, RNG_DRIVER_NUM, RNG_ALLOW_GEN, b);
    let (k2, rs) = spec_subscribe(k1, RNG_DRIVER_NUM, RNG_SUBSCRIBE_GEN);
    assert(k2.subs == crate::fake::kernel::register_sub(k1.subs, RNG_DRIVER_NUM, RNG_SUBSCRIBE_GEN));
    lemma_find_after_register(k1.subs, RNG_DRIVER_NUM, RNG_SUBSCRIBE_GEN);
    lemma_register_sub_wf(k1.subs, RNG_DRIVER_NUM, RNG_SUBSCRIBE_GEN);
    let i = find_sub(k2.subs, RNG_DRIVER_NUM, RNG_SUBSCRIBE_GEN)->Some_0;
    let (k3, rc) = spec_command(k2, RNG_DRIVER_NUM, RNG_COMMAND_GEN, num, 0);
    assert(rng_fill_count(k2.rng, num) == num as int);
    assert(rc == CommandReturn::Success);
    assert(k3.queue =~= seq![
        crate::fake::kernel::Upcall {
            driver_num: RNG_DRIVER_NUM,
            subscribe_num: RNG_SUBSCRIBE_GEN,
            value: num,
        },
    ]);
    let k4 = spec_yield_wait(k3);
    assert(k3.subs == k2.subs);
    let delivered = Subscription {
        value: Some(num),
        ..k2.subs[i]
    };
    assert(k4.subs == k2.subs.update(i, delivered));
    lemma_find_sub_after_value_update(k2.subs, i, delivered, RNG_DRIVER_NUM, RNG_SUBSCRIBE_GEN);
    lemma_update_value_wf(k2.subs, i, delivered);
    let (k5, got) = spec_take_upcall(k4, RNG_DRIVER_NUM, RNG_SUBSCRIBE_GEN);
    assert(got == Some(num));
    let emptied = Subscription { value: None, ..k4.subs[i] };
    assert(k5.subs == k4.subs.update(i, emptied));
    lemma_find_sub_after_value_update(k4.subs, i, emptied, RNG_DRIVER_NUM, RNG_SUBSCRIBE_GEN);
    lemma_update_value_wf(k4.subs, i, emptied);
    let k6 = spec_revert_subscribe(k5, RNG_DRIVER_NUM, RNG_SUBSCRIBE_GEN);
    lemma_remove_sub_clears(k5.subs, RNG_DRIVER_NUM, RNG_SUBSCRIBE_GEN);
    let (k7, bb) = spec_revert_allow(k6, RNG_DRIVER_NUM, RNG_ALLOW_GEN, false);
    assert(k7.log =~= k.log + seq![
        crate::fake::kernel::allow_rw_log_entry(RNG_DRIVER_NUM, RNG_ALLOW_GEN, b.len()),
        crate::fake::kernel::subscribe_log_entry(RNG_DRIVER_NUM, RNG_SUBSCRIBE_GEN),
        command_log_entry(RNG_DRIVER_NUM, RNG_COMMAND_GEN, num, 0),
        SyscallLogEntry::YieldWait,
    ]);
    assert(k7.queue.len() == 0);
}

} // verus!
