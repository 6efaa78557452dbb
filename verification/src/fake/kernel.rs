use vstd::prelude::*;
use crate::constants::{
    APP_STATE_ALLOW_WRITE, APP_STATE_DRIVER_NUM, APP_STATE_NUM_UPCALLS, COMMAND_DRIVER_CHECK,
    RNG_ALLOW_GEN, RNG_COMMAND_GEN, RNG_DRIVER_NUM, RNG_NUM_UPCALLS, RNG_SUBSCRIBE_GEN,
};
use crate::error::{CommandReturn, ErrorCode};
use crate::expected::{ExpectedSyscall, Violation};
use crate::fake::app_state::{app_state_allow_spec, app_state_command_spec, AppState, AppStateView};
use crate::fake::rng::{rng_allow_spec, rng_command_spec, rng_fill_count, Rng, RngView};
use crate::layout::{default_layout, LayoutView, MemoryLayout};
use crate::syscall_log::SyscallLogEntry;

verus! {

/// A completion event a driver scheduled: delivered by `yield_wait` into the
/// subscription slot with the matching driver id and subscribe index.
#[derive(Clone, Copy, Debug, PartialEq, Eq)]
pub struct Upcall {
    pub driver_num: u32,
    pub subscribe_num: u32,
    pub value: u32,
}

/// A registered completion-callback slot, identified by (driver id,
/// subscribe index), holding the delivered result until it is consumed.
#[derive(Clone, Copy, Debug, PartialEq, Eq)]
pub struct Subscription {
    pub driver_num: u32,
    pub subscribe_num: u32,
    pub value: Option<u32>,
}

/// The slot identity a subscription registers under.
pub open spec fn sub_key(s: Subscription) -> (u32, u32) {
    (s.driver_num, s.subscribe_num)
}

/// No two subscriptions share a slot identity.
pub open spec fn subs_unique(subs: Seq<Subscription>) -> bool {
    forall|i: int, j: int|
        0 <= i < j < subs.len() ==> sub_key(#[trigger] subs[i]) != sub_key(#[trigger] subs[j])
}

/// The index of the first subscription registered under (`d`, `n`), if any.
pub open spec fn find_sub(subs: Seq<Subscription>, d: u32, n: u32) -> Option<int>
    decreases subs.len(),
{
    if subs.len() == 0 {
        None
    } else if subs[0].driver_num == d && subs[0].subscribe_num == n {
        Some(0int)
    } else {
        match find_sub(subs.skip(1), d, n) {
            Some(i) => Some(i + 1),
            None => None,
        }
    }
}

/// What [`find_sub`] returns: the first matching index, or nothing when no
/// subscription matches.
pub proof fn lemma_find_sub(subs: Seq<Subscription>, d: u32, n: u32)
    ensures
        find_sub(subs, d, n) matches Some(i) ==> 0 <= i < subs.len() && subs[i].driver_num == d
            && subs[i].subscribe_num == n && (forall|k: int|
            0 <= k < i ==> !((#[trigger] subs[k]).driver_num == d && subs[k].subscribe_num == n)),
        find_sub(subs, d, n) is None ==> (forall|k: int|
            0 <= k < subs.len() ==> !((#[trigger] subs[k]).driver_num == d
                && subs[k].subscribe_num == n)),
    decreases subs.len(),
{
    if subs.len() == 0 {
    } else if subs[0].driver_num == d && subs[0].subscribe_num == n {
    } else {
        let tail = subs.skip(1);
        lemma_find_sub(tail, d, n);
        match find_sub(subs, d, n) {
            Some(i) => {
                assert(find_sub(tail, d, n) == Some(i - 1));
                assert(subs[i] == tail[i - 1]);
                assert forall|k: int| 0 <= k < i implies !((#[trigger] subs[k]).driver_num == d
                    && subs[k].subscribe_num == n) by {
                    if k > 0 {
                        assert(subs[k] == tail[k - 1]);
                    }
                }
            },
            None => {
                assert forall|k: int| 0 <= k < subs.len() implies !((#[trigger] subs[k]).driver_num
                    == d && subs[k].subscribe_num == n) by {
                    if k > 0 {
                        assert(subs[k] == tail[k - 1]);
                    }
                }
            },
        }
    }
}

/// When `subs[j]` is the first subscription matching (`d`, `n`),
/// [`find_sub`] finds exactly it.
pub proof fn lemma_find_sub_exact(subs: Seq<Subscription>, d: u32, n: u32, j: int)
    requires
        0 <= j < subs.len(),
        subs[j].driver_num == d,
        subs[j].subscribe_num == n,
        forall|k: int|
            0 <= k < j ==> !((#[trigger] subs[k]).driver_num == d && subs[k].subscribe_num == n),
    ensures
        find_sub(subs, d, n) == Some(j),
    decreases subs.len(),
{
    if j == 0 {
    } else {
        let tail = subs.skip(1);
        assert(tail[j - 1] == subs[j]);
        assert forall|k: int| 0 <= k < j - 1 implies !((#[trigger] tail[k]).driver_num == d
            && tail[k].subscribe_num == n) by {
            assert(tail[k] == subs[k + 1]);
        }
        lemma_find_sub_exact(tail, d, n, j - 1);
    }
}

/// The subscriptions after registering slot (`d`, `n`): a re-registration
/// resets the slot to empty, a first registration appends it.
pub open spec fn register_sub(subs: Seq<Subscription>, d: u32, n: u32) -> Seq<Subscription> {
    match find_sub(subs, d, n) {
        Some(i) => subs.update(i, Subscription { driver_num: d, subscribe_num: n, value: None }),
        None => subs.push(Subscription { driver_num: d, subscribe_num: n, value: None }),
    }
}

/// The subscriptions after clearing slot (`d`, `n`), if it was registered.
pub open spec fn remove_sub(subs: Seq<Subscription>, d: u32, n: u32) -> Seq<Subscription> {
    match find_sub(subs, d, n) {
        Some(i) => subs.remove(i),
        None => subs,
    }
}

pub proof fn lemma_register_sub_wf(subs: Seq<Subscription>, d: u32, n: u32)
    requires
        subs_unique(subs),
    ensures
        subs_unique(register_sub(subs, d, n)),
{
    lemma_find_sub(subs, d, n);
    let fresh = Subscription { driver_num: d, subscribe_num: n, value: None };
    match find_sub(subs, d, n) {
        Some(i) => {
            let subs2 = subs.update(i, fresh);
            assert forall|p: int, q: int| 0 <= p < q < subs2.len() implies sub_key(
                #[trigger] subs2[p],
            ) != sub_key(#[trigger] subs2[q]) by {
                assert(sub_key(subs2[p]) == sub_key(subs[p]));
                assert(sub_key(subs2[q]) == sub_key(subs[q]));
            }
        },
        None => {
            let subs2 = subs.push(fresh);
            assert forall|p: int, q: int| 0 <= p < q < subs2.len() implies sub_key(
                #[trigger] subs2[p],
            ) != sub_key(#[trigger] subs2[q]) by {
                if q == subs.len() {
                    assert(subs2[p] == subs[p]);
                    assert(!(subs[p].driver_num == d && subs[p].subscribe_num == n));
                } else {
                    assert(subs2[p] == subs[p]);
                    assert(subs2[q] == subs[q]);
                }
            }
        },
    }
}

pub proof fn lemma_remove_sub_wf(subs: Seq<Subscription>, d: u32, n: u32)
    requires
        subs_unique(subs),
    ensures
        subs_unique(remove_sub(subs, d, n)),
{
    lemma_find_sub(subs, d, n);
    match find_sub(subs, d, n) {
        Some(i) => {
            let subs2 = subs.remove(i);
            assert forall|p: int, q: int| 0 <= p < q < subs2.len() implies sub_key(
                #[trigger] subs2[p],
            ) != sub_key(#[trigger] subs2[q]) by {
                let p0 = if p < i { p } else { p + 1 };
                let q0 = if q < i { q } else { q + 1 };
                assert(subs2[p] == subs[p0]);
                assert(subs2[q] == subs[q0]);
                assert(sub_key(subs[p0]) != sub_key(subs[q0]));
            }
        },
        None => {},
    }
}

pub proof fn lemma_update_value_wf(subs: Seq<Subscription>, i: int, x: Subscription)
    requires
        subs_unique(subs),
        0 <= i < subs.len(),
        sub_key(x) == sub_key(subs[i]),
    ensures
        subs_unique(subs.update(i, x)),
{
    let subs2 = subs.update(i, x);
    assert forall|p: int, q: int| 0 <= p < q < subs2.len() implies sub_key(#[trigger] subs2[p])
        != sub_key(#[trigger] subs2[q]) by {
        assert(sub_key(subs2[p]) == sub_key(subs[p]));
        assert(sub_key(subs2[q]) == sub_key(subs[q]));
    }
}

/// Registering a slot leaves it findable and empty.
pub proof fn lemma_find_after_register(subs: Seq<Subscription>, d: u32, n: u32)
    ensures
        ({
            let subs2 = register_sub(subs, d, n);
            find_sub(subs2, d, n) matches Some(i) && 0 <= i < subs2.len() && subs2[i]
                == (Subscription { driver_num: d, subscribe_num: n, value: None })
        }),
{
    lemma_find_sub(subs, d, n);
    let fresh = Subscription { driver_num: d, subscribe_num: n, value: None };
    match find_sub(subs, d, n) {
        Some(i) => {
            let subs2 = subs.update(i, fresh);
            assert forall|k: int| 0 <= k < i implies !((#[trigger] subs2[k]).driver_num == d
                && subs2[k].subscribe_num == n) by {
                assert(subs2[k] == subs[k]);
            }
            lemma_find_sub_exact(subs2, d, n, i);
        },
        None => {
            let subs2 = subs.push(fresh);
            assert forall|k: int| 0 <= k < subs.len() implies !((#[trigger] subs2[k]).driver_num
                == d && subs2[k].subscribe_num == n) by {
                assert(subs2[k] == subs[k]);
            }
            lemma_find_sub_exact(subs2, d, n, subs.len() as int);
        },
    }
}

/// Updating a slot's value in place does not change which slot is found.
pub proof fn lemma_find_sub_after_value_update(
    subs: Seq<Subscription>,
    i: int,
    x: Subscription,
    d: u32,
    n: u32,
)
    requires
        find_sub(subs, d, n) == Some(i),
        sub_key(x) == sub_key(subs[i]),
    ensures
        find_sub(subs.update(i, x), d, n) == Some(i),
{
    lemma_find_sub(subs, d, n);
    let subs2 = subs.update(i, x);
    assert forall|k: int| 0 <= k < i implies !((#[trigger] subs2[k]).driver_num == d
        && subs2[k].subscribe_num == n) by {
        assert(subs2[k] == subs[k]);
    }
    lemma_find_sub_exact(subs2, d, n, i);
}

/// Clearing a slot from a well-formed table really clears it: nothing under
/// the same identity remains findable.
pub proof fn lemma_remove_sub_clears(subs: Seq<Subscription>, d: u32, n: u32)
    requires
        subs_unique(subs),
    ensures
        find_sub(remove_sub(subs, d, n), d, n) is None,
{
    lemma_find_sub(subs, d, n);
    match find_sub(subs, d, n) {
        Some(i) => {
            let subs2 = subs.remove(i);
            lemma_find_sub(subs2, d, n);
            match find_sub(subs2, d, n) {
                Some(m) => {
                    let m0 = if m < i {
                        m
                    } else {
                        m + 1
                    };
                    assert(subs2[m] == subs[m0]);
                    assert(sub_key(subs[m0]) == sub_key(subs[i]));
                    if m0 < i {
                        assert(sub_key(subs[m0]) != sub_key(subs[i]));
                    } else {
                        assert(sub_key(subs[i]) != sub_key(subs[m0]));
                    }
                },
                None => {},
            }
        },
        None => {},
    }
}

/// Clearing one slot cannot make another slot reappear: a slot identity
/// absent from the table stays absent after any removal.
pub proof fn lemma_remove_preserves_absence(
    subs: Seq<Subscription>,
    d: u32,
    n: u32,
    d2: u32,
    n2: u32,
)
    requires
        find_sub(subs, d, n) is None,
    ensures
        find_sub(remove_sub(subs, d2, n2), d, n) is None,
{
    lemma_find_sub(subs, d, n);
    lemma_find_sub(subs, d2, n2);
    match find_sub(subs, d2, n2) {
        Some(j) => {
            let subs2 = subs.remove(j);
            lemma_find_sub(subs2, d, n);
            match find_sub(subs2, d, n) {
                Some(m) => {
                    let m0 = if m < j {
                        m
                    } else {
                        m + 1
                    };
                    assert(subs2[m] == subs[m0]);
                },
                None => {},
            }
        },
        None => {},
    }
}

/// The mathematical value of the whole simulator.
#[verifier::ext_equal]
pub ghost struct KernelView {
    pub rng: RngView,
    pub rng_present: bool,
    pub app_state: AppStateView,
    pub app_state_present: bool,
    pub expected: Seq<ExpectedSyscall>,
    pub log: Seq<SyscallLogEntry>,
    pub queue: Seq<Upcall>,
    pub subs: Seq<Subscription>,
    pub flash: Seq<u8>,
    pub layout: LayoutView,
    pub violation: Option<Violation>,
}

impl KernelView {
    /// Internal invariant: subscription slots are uniquely identified.
    /// Constructors establish it and every operation preserves it.
    pub open spec fn wf(self) -> bool {
        subs_unique(self.subs)
    }
}

/// The kernel simulator.
///
/// It owns the registered drivers, the expectation queue, the syscall log,
/// the pending-upcall queue, the registered subscription slots and the
/// simulated flash store, and it implements the syscall client interface
/// against them. Every operation is specified by a transition function over
/// [`KernelView`] (`spec_command`, `spec_allow_rw`, …), so the exact effect
/// of each call is pinned down.
///
/// The first protocol violation is latched (see
/// [`Violation`](crate::expected::Violation)); once latched, the simulator
/// refuses all further work and every call fails.
pub struct Kernel {
    pub rng: Rng,
    pub rng_present: bool,
    pub app_state: AppState,
    pub app_state_present: bool,
    pub expected: Vec<ExpectedSyscall>,
    pub log: Vec<SyscallLogEntry>,
    pub queue: Vec<Upcall>,
    pub subs: Vec<Subscription>,
    pub flash: Vec<u8>,
    pub layout: MemoryLayout,
    pub violation: Option<Violation>,
}

impl View for Kernel {
    type V = KernelView;

    open spec fn view(&self) -> KernelView {
        KernelView {
            rng: self.rng@,
            rng_present: self.rng_present,
            app_state: self.app_state@,
            app_state_present: self.app_state_present,
            expected: self.expected@,
            log: self.log@,
            queue: self.queue@,
            subs: self.subs@,
            flash: self.flash@,
            layout: self.layout@,
            violation: self.violation,
        }
    }
}

/// A driver implementation to register; the driver set is closed, so the
/// registry is a tagged union keyed by the drivers' fixed ids.
pub enum Driver {
    Rng(Rng),
    AppState(AppState),
}

/// Whether a driver is registered under id `d`.
pub open spec fn driver_present(k: KernelView, d: u32) -> bool {
    (d == RNG_DRIVER_NUM && k.rng_present) || (d == APP_STATE_DRIVER_NUM && k.app_state_present)
}

/// A kernel with nothing scripted, nothing logged and nothing pending: the
/// state in which the standard call sequences are fully determined.
pub open spec fn quiescent(k: KernelView) -> bool {
    k.violation is None && k.expected.len() == 0 && k.queue.len() == 0
}

/// The base address of the simulated flash store: the start of writable
/// flash region 0, or 0 when no region is configured.
pub open spec fn flash_base_of(k: KernelView) -> u32 {
    if k.layout.regions.len() > 0 {
        k.layout.regions[0].start
    } else {
        0u32
    }
}

/// How many bytes of flash the simulator stores: the size of writable flash
/// region 0.
pub open spec fn flash_store_len(layout: LayoutView) -> nat {
    if layout.regions.len() > 0 && layout.regions[0].start <= layout.regions[0].end {
        (layout.regions[0].end - layout.regions[0].start) as nat
    } else {
        0
    }
}

/// The state of a freshly built simulator over `layout`: no drivers, empty
/// queues, zeroed flash.
pub open spec fn initial_kernel(layout: LayoutView) -> KernelView {
    KernelView {
        rng: RngView { messages: Seq::<u8>::empty(), buffer: Seq::<u8>::empty() },
        rng_present: false,
        app_state: AppStateView {
            flash_ptr: 0,
            header: 0,
            flash_buffer: Seq::<u8>::empty(),
            buffer: Seq::<u8>::empty(),
        },
        app_state_present: false,
        expected: Seq::<ExpectedSyscall>::empty(),
        log: Seq::<SyscallLogEntry>::empty(),
        queue: Seq::<Upcall>::empty(),
        subs: Seq::<Subscription>::empty(),
        flash: Seq::new(flash_store_len(layout), |i: int| 0u8),
        layout: layout,
        violation: None,
    }
}

// ---------------------------------------------------------------------------
// Expectation-queue helpers
// ---------------------------------------------------------------------------

pub open spec fn pop_expected(k: KernelView) -> KernelView {
    KernelView { expected: k.expected.skip(1), ..k }
}

/// The violation a mismatched expectation raises: a wrong kind of call, or
/// the right kind with wrong arguments.
pub open spec fn expectation_violation(kind_matches: bool) -> Violation {
    if kind_matches {
        Violation::WrongCallArguments
    } else {
        Violation::WrongCallKind
    }
}

pub open spec fn is_command_expectation(e: ExpectedSyscall) -> bool {
    e matches ExpectedSyscall::Command { .. }
}

pub open spec fn command_matches(e: ExpectedSyscall, d: u32, c: u32, a0: u32, a1: u32) -> bool {
    match e {
        ExpectedSyscall::Command {
            driver_id: ed,
            command_id: ec,
            argument0: e0,
            argument1: e1,
            ..
        } => ed == d && ec == c && e0 == a0 && e1 == a1,
        _ => false,
    }
}

pub open spec fn command_override(e: ExpectedSyscall) -> Option<CommandReturn> {
    match e {
        ExpectedSyscall::Command { override_return: o, .. } => o,
        _ => None,
    }
}

pub open spec fn is_subscribe_expectation(e: ExpectedSyscall) -> bool {
    e matches ExpectedSyscall::Subscribe { .. }
}

pub open spec fn subscribe_matches(e: ExpectedSyscall, d: u32, n: u32) -> bool {
    match e {
        ExpectedSyscall::Subscribe { driver_num: ed, subscribe_num: en, .. } => ed == d && en == n,
        _ => false,
    }
}

pub open spec fn subscribe_skip(e: ExpectedSyscall) -> Option<ErrorCode> {
    match e {
        ExpectedSyscall::Subscribe { skip_with_error: s, .. } => s,
        _ => None,
    }
}

pub open spec fn is_allow_rw_expectation(e: ExpectedSyscall) -> bool {
    e matches ExpectedSyscall::AllowRw { .. }
}

pub open spec fn allow_rw_matches(e: ExpectedSyscall, d: u32, n: u32) -> bool {
    match e {
        ExpectedSyscall::AllowRw { driver_num: ed, buffer_num: en, .. } => ed == d && en == n,
        _ => false,
    }
}

pub open spec fn allow_rw_error(e: ExpectedSyscall) -> Option<ErrorCode> {
    match e {
        ExpectedSyscall::AllowRw { return_error: r, .. } => r,
        _ => None,
    }
}

pub open spec fn is_allow_ro_expectation(e: ExpectedSyscall) -> bool {
    e matches ExpectedSyscall::AllowRo { .. }
}

pub open spec fn allow_ro_matches(e: ExpectedSyscall, d: u32, n: u32) -> bool {
    match e {
        ExpectedSyscall::AllowRo { driver_num: ed, buffer_num: en, .. } => ed == d && en == n,
        _ => false,
    }
}

pub open spec fn allow_ro_error(e: ExpectedSyscall) -> Option<ErrorCode> {
    match e {
        ExpectedSyscall::AllowRo { return_error: r, .. } => r,
        _ => None,
    }
}

// ---------------------------------------------------------------------------
// Transition functions
// ---------------------------------------------------------------------------

pub open spec fn command_log_entry(d: u32, c: u32, a0: u32, a1: u32) -> SyscallLogEntry {
    SyscallLogEntry::Command { driver_id: d, command_id: c, argument0: a0, argument1: a1 }
}

pub open spec fn returned_value(ret: CommandReturn, ovr: Option<CommandReturn>) -> CommandReturn {
    match ovr {
        Some(o) => o,
        None => ret,
    }
}

/// The tail of a command dispatch: enqueue the upcall the driver scheduled
/// (a slot beyond the driver's declared count is a latched violation), then
/// hand back the driver's value, or the override if one was scripted.
pub open spec fn finish_command(
    k: KernelView,
    d: u32,
    cap: u32,
    up: Option<(u32, u32)>,
    ret: CommandReturn,
    ovr: Option<CommandReturn>,
) -> (KernelView, CommandReturn) {
    match up {
        None => (k, returned_value(ret, ovr)),
        Some((slot, v)) => if slot < cap {
            (
                KernelView {
                    queue: k.queue.push(Upcall { driver_num: d, subscribe_num: slot, value: v }),
                    ..k
                },
                returned_value(ret, ovr),
            )
        } else {
            (
                KernelView { violation: Some(Violation::TooManyUpcalls), ..k },
                CommandReturn::Failure(ErrorCode::Fail),
            )
        },
    }
}

/// What one command syscall does to the whole simulator.
///
/// The call is logged unconditionally; a non-empty expectation queue is
/// consumed front-first and must match; the registered driver runs even when
/// an override is scripted (only the returned status is replaced); a missing
/// driver yields a `NoDevice` failure without consulting anyone.
pub open spec fn spec_command(k: KernelView, d: u32, c: u32, a0: u32, a1: u32) -> (
    KernelView,
    CommandReturn,
) {
    if k.violation is Some {
        (k, CommandReturn::Failure(ErrorCode::Fail))
    } else {
        let kl = KernelView { log: k.log.push(command_log_entry(d, c, a0, a1)), ..k };
        if kl.expected.len() > 0 && !command_matches(kl.expected[0], d, c, a0, a1) {
            (
                KernelView {
                    violation: Some(expectation_violation(is_command_expectation(kl.expected[0]))),
                    ..pop_expected(kl)
                },
                CommandReturn::Failure(ErrorCode::Fail),
            )
        } else {
            let ovr = if kl.expected.len() > 0 {
                command_override(kl.expected[0])
            } else {
                None
            };
            let ke = if kl.expected.len() > 0 {
                pop_expected(kl)
            } else {
                kl
            };
            if d == RNG_DRIVER_NUM && ke.rng_present {
                let (s2, ret, up) = rng_command_spec(ke.rng, c, a0);
                finish_command(KernelView { rng: s2, ..ke }, d, RNG_NUM_UPCALLS, up, ret, ovr)
            } else if d == APP_STATE_DRIVER_NUM && ke.app_state_present {
                let (s2, fl2, ret, up) = app_state_command_spec(
                    ke.app_state,
                    flash_base_of(ke),
                    ke.flash,
                    c,
                    a0,
                );
                finish_command(
                    KernelView { app_state: s2, flash: fl2, ..ke },
                    d,
                    APP_STATE_NUM_UPCALLS,
                    up,
                    ret,
                    ovr,
                )
            } else {
                finish_command(ke, d, 0, None, CommandReturn::Failure(ErrorCode::NoDevice), ovr)
            }
        }
    }
}

pub open spec fn allow_rw_log_entry(d: u32, n: u32, len: nat) -> SyscallLogEntry {
    SyscallLogEntry::AllowRw { driver_num: d, buffer_num: n, len: len as usize }
}

/// What one read-write allow syscall does: log, check the expectation queue,
/// then exchange the caller's buffer with the driver's slot. On every failure
/// the caller's buffer comes back untouched.
pub open spec fn spec_allow_rw(k: KernelView, d: u32, n: u32, b: Seq<u8>) -> (
    KernelView,
    Result<Seq<u8>, (Seq<u8>, ErrorCode)>,
) {
    if k.violation is Some {
        (k, Err((b, ErrorCode::Fail)))
    } else {
        let kl = KernelView { log: k.log.push(allow_rw_log_entry(d, n, b.len())), ..k };
        if kl.expected.len() > 0 && !allow_rw_matches(kl.expected[0], d, n) {
            (
                KernelView {
                    violation: Some(expectation_violation(is_allow_rw_expectation(kl.expected[0]))),
                    ..pop_expected(kl)
                },
                Err((b, ErrorCode::Fail)),
            )
        } else {
            let err = if kl.expected.len() > 0 {
                allow_rw_error(kl.expected[0])
            } else {
                None
            };
            let ke = if kl.expected.len() > 0 {
                pop_expected(kl)
            } else {
                kl
            };
            match err {
                Some(e) => (ke, Err((b, e))),
                None => if d == RNG_DRIVER_NUM && ke.rng_present {
                    let (s2, res) = rng_allow_spec(ke.rng, n, b);
                    (KernelView { rng: s2, ..ke }, res)
                } else if d == APP_STATE_DRIVER_NUM && ke.app_state_present {
                    (ke, Err((b, ErrorCode::NoSupport)))
                } else {
                    (ke, Err((b, ErrorCode::NoDevice)))
                },
            }
        }
    }
}

pub open spec fn allow_ro_log_entry(d: u32, n: u32, len: nat) -> SyscallLogEntry {
    SyscallLogEntry::AllowRo { driver_num: d, buffer_num: n, len: len as usize }
}

/// What one read-only allow syscall does; the mirror image of
/// [`spec_allow_rw`] for the read-only slot.
pub open spec fn spec_allow_ro(k: KernelView, d: u32, n: u32, b: Seq<u8>) -> (
    KernelView,
    Result<Seq<u8>, (Seq<u8>, ErrorCode)>,
) {
    if k.violation is Some {
        (k, Err((b, ErrorCode::Fail)))
    } else {
        let kl = KernelView { log: k.log.push(allow_ro_log_entry(d, n, b.len())), ..k };
        if kl.expected.len() > 0 && !allow_ro_matches(kl.expected[0], d, n) {
            (
                KernelView {
                    violation: Some(expectation_violation(is_allow_ro_expectation(kl.expected[0]))),
                    ..pop_expected(kl)
                },
                Err((b, ErrorCode::Fail)),
            )
        } else {
            let err = if kl.expected.len() > 0 {
                allow_ro_error(kl.expected[0])
            } else {
                None
            };
            let ke = if kl.expected.len() > 0 {
                pop_expected(kl)
            } else {
                kl
            };
            match err {
                Some(e) => (ke, Err((b, e))),
                None => if d == APP_STATE_DRIVER_NUM && ke.app_state_present {
                    let (s2, res) = app_state_allow_spec(ke.app_state, n, b);
                    (KernelView { app_state: s2, ..ke }, res)
                } else if d == RNG_DRIVER_NUM && ke.rng_present {
                    (ke, Err((b, ErrorCode::NoSupport)))
                } else {
                    (ke, Err((b, ErrorCode::NoDevice)))
                },
            }
        }
    }
}

pub open spec fn subscribe_log_entry(d: u32, n: u32) -> SyscallLogEntry {
    SyscallLogEntry::Subscribe { driver_num: d, subscribe_num: n }
}

/// How many upcall slots the driver registered under `d` declares, if one is
/// registered at all.
pub open spec fn num_upcalls_of(k: KernelView, d: u32) -> Option<u32> {
    if d == RNG_DRIVER_NUM && k.rng_present {
        Some(RNG_NUM_UPCALLS)
    } else if d == APP_STATE_DRIVER_NUM && k.app_state_present {
        Some(APP_STATE_NUM_UPCALLS)
    } else {
        None
    }
}

/// What one subscribe syscall does: log, check the expectation queue, then
/// register the slot — replacing (and emptying) any previous registration of
/// the same slot.
pub open spec fn spec_subscribe(k: KernelView, d: u32, n: u32) -> (
    KernelView,
    Result<(), ErrorCode>,
) {
    if k.violation is Some {
        (k, Err(ErrorCode::Fail))
    } else {
        let kl = KernelView { log: k.log.push(subscribe_log_entry(d, n)), ..k };
        if kl.expected.len() > 0 && !subscribe_matches(kl.expected[0], d, n) {
            (
                KernelView {
                    violation: Some(
                        expectation_violation(is_subscribe_expectation(kl.expected[0])),
                    ),
                    ..pop_expected(kl)
                },
                Err(ErrorCode::Fail),
            )
        } else {
            let skip = if kl.expected.len() > 0 {
                subscribe_skip(kl.expected[0])
            } else {
                None
            };
            let ke = if kl.expected.len() > 0 {
                pop_expected(kl)
            } else {
                kl
            };
            match skip {
                Some(e) => (ke, Err(e)),
                None => match num_upcalls_of(ke, d) {
                    None => (ke, Err(ErrorCode::NoDevice)),
                    Some(cap) => if n >= cap {
                        (ke, Err(ErrorCode::Invalid))
                    } else {
                        (KernelView { subs: register_sub(ke.subs, d, n), ..ke }, Ok(()))
                    },
                },
            }
        }
    }
}

/// What one wait-yield does: log it, then deliver the front pending upcall
/// into its slot, if any is pending (first-in first-out; later events stay
/// queued). Delivering to a torn-down slot, or onto an unconsumed result, is
/// a latched violation.
pub open spec fn spec_yield_wait(k: KernelView) -> KernelView {
    if k.violation is Some {
        k
    } else {
        let kl = KernelView { log: k.log.push(SyscallLogEntry::YieldWait), ..k };
        if kl.queue.len() == 0 {
            kl
        } else {
            let u = kl.queue[0];
            let kq = KernelView { queue: kl.queue.skip(1), ..kl };
            match find_sub(kq.subs, u.driver_num, u.subscribe_num) {
                None => KernelView { violation: Some(Violation::OrphanedUpcall), ..kq },
                Some(i) => if kq.subs[i].value is Some {
                    KernelView { violation: Some(Violation::UpcallNotConsumed), ..kq }
                } else {
                    KernelView {
                        subs: kq.subs.update(
                            i,
                            Subscription { value: Some(u.value), ..kq.subs[i] },
                        ),
                        ..kq
                    }
                },
            }
        }
    }
}

/// What consuming a slot's delivered result does: the result comes out and
/// the slot is empty again; an empty or unregistered slot yields nothing.
pub open spec fn spec_take_upcall(k: KernelView, d: u32, n: u32) -> (KernelView, Option<u32>) {
    match find_sub(k.subs, d, n) {
        Some(i) => match k.subs[i].value {
            Some(v) => (
                KernelView {
                    subs: k.subs.update(i, Subscription { value: None, ..k.subs[i] }),
                    ..k
                },
                Some(v),
            ),
            None => (k, None),
        },
        None => (k, None),
    }
}

/// What reverting an allow share does: the driver's slot is swapped back to
/// the zero-length sentinel and the buffer it held comes out. Reversal is
/// share-scope bookkeeping, not a syscall: it is not logged and not checked
/// against the expectation queue.
pub open spec fn spec_revert_allow(k: KernelView, d: u32, n: u32, readonly: bool) -> (
    KernelView,
    Seq<u8>,
) {
    if !readonly && d == RNG_DRIVER_NUM && n == RNG_ALLOW_GEN && k.rng_present {
        (
            KernelView { rng: RngView { buffer: Seq::<u8>::empty(), ..k.rng }, ..k },
            k.rng.buffer,
        )
    } else if readonly && d == APP_STATE_DRIVER_NUM && n == APP_STATE_ALLOW_WRITE
        && k.app_state_present {
        (
            KernelView {
                app_state: AppStateView { buffer: Seq::<u8>::empty(), ..k.app_state },
                ..k
            },
            k.app_state.buffer,
        )
    } else {
        (k, Seq::<u8>::empty())
    }
}

/// What reverting a subscribe share does: the slot is unregistered, so no
/// later upcall can reach it.
pub open spec fn spec_revert_subscribe(k: KernelView, d: u32, n: u32) -> KernelView {
    KernelView { subs: remove_sub(k.subs, d, n), ..k }
}

// ---------------------------------------------------------------------------
// The simulator itself
// ---------------------------------------------------------------------------

impl Kernel {
    /// A simulator over the default test layout.
    pub fn new() -> (r: Kernel)
        ensures
            r@ == initial_kernel(default_layout()),
            r@.wf(),
    {
        Kernel::with_layout(MemoryLayout::default())
    }

    /// A simulator over a caller-configured memory layout; the layout is
    /// fixed for the simulator's lifetime.
    pub fn with_layout(layout: MemoryLayout) -> (r: Kernel)
        requires
            layout@.wf(),
        ensures
            r@ == initial_kernel(layout@),
            r@.wf(),
    {
        let flash_len: usize = if layout.regions.len() > 0 {
            let r0 = layout.regions[0];
            (r0.end - r0.start) as usize
        } else {
            0
        };
        let mut flash: Vec<u8> = Vec::new();
        while flash.len() < flash_len
            invariant
                flash@.len() <= flash_len,
                forall|i: int| 0 <= i < flash@.len() ==> flash@[i] == 0u8,
            decreases flash_len - flash@.len(),
        {
            flash.push(0u8);
        }
        let r = Kernel {
            rng: Rng::new(),
            rng_present: false,
            app_state: AppState::new(),
            app_state_present: false,
            expected: Vec::new(),
            log: Vec::new(),
            queue: Vec::new(),
            subs: Vec::new(),
            flash,
            layout,
            violation: None,
        };
        proof {
            assert(r@.flash =~= initial_kernel(layout@).flash);
            assert(r@ =~= initial_kernel(layout@));
        }
        r
    }

    /// Registers a driver under its fixed id, replacing any driver already
    /// registered under it; the registry holds at most one driver per id.
    pub fn add_driver(&mut self, driver: Driver)
        ensures
            final(self)@ == (match driver {
                Driver::Rng(r) => (KernelView { rng: r@, rng_present: true, ..old(self)@ }),
                Driver::AppState(a) => (KernelView {
                    app_state: a@,
                    app_state_present: true,
                    ..old(self)@
                }),
            }),
            old(self)@.wf() ==> final(self)@.wf(),
    {
        match driver {
            Driver::Rng(r) => {
                self.rng = r;
                self.rng_present = true;
            },
            Driver::AppState(a) => {
                self.app_state = a;
                self.app_state_present = true;
            },
        }
    }

    /// Appends one entry to the expectation queue; entries are consumed
    /// strictly first-in first-out.
    pub fn add_expected_syscall(&mut self, expected: ExpectedSyscall)
        ensures
            final(self)@ == (KernelView {
                expected: old(self)@.expected.push(expected),
                ..old(self)@
            }),
            old(self)@.wf() ==> final(self)@.wf(),
    {
        self.expected.push(expected);
        proof {
            assert(self@ =~= KernelView { expected: old(self)@.expected.push(expected), ..old(self)@ });
        }
    }

    /// Returns the accumulated syscall log and clears it.
    pub fn take_syscall_log(&mut self) -> (r: Vec<SyscallLogEntry>)
        ensures
            r@ == old(self)@.log,
            final(self)@ == (KernelView { log: Seq::<SyscallLogEntry>::empty(), ..old(self)@ }),
            old(self)@.wf() ==> final(self)@.wf(),
    {
        let mut taken: Vec<SyscallLogEntry> = Vec::new();
        core::mem::swap(&mut self.log, &mut taken);
        proof {
            assert(self@ =~= KernelView { log: Seq::<SyscallLogEntry>::empty(), ..old(self)@ });
        }
        taken
    }

    /// The latched protocol violation, if any; a test that ends with one has
    /// broken the protocol even if every call appeared to return.
    pub fn violation(&self) -> (r: Option<Violation>)
        ensures
            r == self@.violation,
    {
        self.violation
    }

    /// Returns and clears the byte record of the registered generator
    /// driver (empty when none is registered).
    pub fn take_rng_bytes(&mut self) -> (r: Vec<u8>)
        ensures
            r@ == old(self)@.rng.messages,
            final(self)@ == (KernelView {
                rng: (RngView { messages: Seq::<u8>::empty(), ..old(self)@.rng }),
                ..old(self)@
            }),
            old(self)@.wf() ==> final(self)@.wf(),
    {
        let r = self.rng.take_bytes();
        proof {
            assert(self@ =~= KernelView {
                rng: RngView { messages: Seq::<u8>::empty(), ..old(self)@.rng },
                ..old(self)@
            });
        }
        r
    }

    /// Returns and clears the byte record of the registered persistent-state
    /// driver (empty when none is registered).
    pub fn take_app_state_bytes(&mut self) -> (r: Vec<u8>)
        ensures
            r@ == old(self)@.app_state.flash_buffer,
            final(self)@ == (KernelView {
                app_state: (AppStateView {
                    flash_buffer: Seq::<u8>::empty(),
                    ..old(self)@.app_state
                }),
                ..old(self)@
            }),
            old(self)@.wf() ==> final(self)@.wf(),
    {
        let r = self.app_state.take_bytes();
        proof {
            assert(self@ =~= KernelView {
                app_state: AppStateView {
                    flash_buffer: Seq::<u8>::empty(),
                    ..old(self)@.app_state
                },
                ..old(self)@
            });
        }
        r
    }

    /// Sets the persistent-state driver's test-settable header word.
    pub fn set_app_state_header(&mut self, val: usize)
        ensures
            final(self)@ == (KernelView {
                app_state: (AppStateView { header: val, ..old(self)@.app_state }),
                ..old(self)@
            }),
            old(self)@.wf() ==> final(self)@.wf(),
    {
        self.app_state.set_header(val);
        proof {
            assert(self@ =~= KernelView {
                app_state: AppStateView { header: val, ..old(self)@.app_state },
                ..old(self)@
            });
        }
    }

    /// The base address of the simulated flash store.
    pub fn flash_base(&self) -> (r: u32)
        ensures
            r == flash_base_of(self@),
    {
        if self.layout.regions.len() > 0 {
            self.layout.regions[0].start
        } else {
            0
        }
    }

    /// Reads `len` bytes of the simulated flash store at address `addr`, the
    /// way a process reads its own memory-mapped flash: not a syscall, so
    /// nothing is logged. Yields nothing when the range lies outside the
    /// store.
    pub fn flash_bytes(&self, addr: u32, len: usize) -> (r: Option<Vec<u8>>)
        ensures
            ({
                let base = flash_base_of(self@);
                match r {
                    Some(v) => addr >= base && addr - base + len <= self@.flash.len() && v@
                        == self@.flash.subrange(addr - base, addr - base + len),
                    None => !(addr >= base && addr - base + len <= self@.flash.len()),
                }
            }),
    {
        let base = self.flash_base();
        if addr < base {
            return None;
        }
        let off_u32: u32 = addr - base;
        let off: usize = off_u32 as usize;
        if off > self.flash.len() || len > self.flash.len() - off {
            return None;
        }
        let mut out: Vec<u8> = Vec::new();
        let mut j: usize = 0;
        while j < len
            invariant
                j <= len,
                off + len <= self@.flash.len(),
                self@.flash.len() <= usize::MAX,
                out@.len() == j,
                forall|k: int| 0 <= k < j ==> out@[k] == self@.flash[off + k],
            decreases len - j,
        {
            let byte = self.flash[off + j];
            out.push(byte);
            j += 1;
        }
        proof {
            assert(out@ =~= self@.flash.subrange(off as int, off as int + len as int));
        }
        Some(out)
    }

    /// The index of the subscription registered under (`d`, `n`), if any.
    fn find_sub_index(&self, d: u32, n: u32) -> (r: Option<usize>)
        ensures
            match r {
                Some(i) => find_sub(self@.subs, d, n) == Some(i as int),
                None => find_sub(self@.subs, d, n) is None,
            },
    {
        let mut i: usize = 0;
        while i < self.subs.len()
            invariant
                i <= self@.subs.len(),
                forall|k: int|
                    0 <= k < i ==> !((#[trigger] self@.subs[k]).driver_num == d
                        && self@.subs[k].subscribe_num == n),
            decreases self@.subs.len() - i,
        {
            let s = self.subs[i];
            if s.driver_num == d && s.subscribe_num == n {
                proof {
                    lemma_find_sub_exact(self@.subs, d, n, i as int);
                }
                return Some(i);
            }
            i += 1;
        }
        proof {
            lemma_find_sub(self@.subs, d, n);
        }
        None
    }

    /// One command syscall, exactly as [`spec_command`] says.
    pub fn command(&mut self, driver_id: u32, command_id: u32, argument0: u32, argument1: u32) -> (r:
        CommandReturn)
        ensures
            ({
                let (k2, ret) = spec_command(old(self)@, driver_id, command_id, argument0, argument1);
                final(self)@ == k2 && r == ret
            }),
            old(self)@.wf() ==> final(self)@.wf(),
    {
        let ghost k0 = self@;
        if self.violation.is_some() {
            return CommandReturn::Failure(ErrorCode::Fail);
        }
        self.log.push(
            SyscallLogEntry::Command { driver_id, command_id, argument0, argument1 },
        );
        let ghost kl = KernelView {
            log: k0.log.push(command_log_entry(driver_id, command_id, argument0, argument1)),
            ..k0
        };
        proof {
            assert(self@ =~= kl);
        }
        let mut ovr: Option<CommandReturn> = None;
        if self.expected.len() > 0 {
            let e = self.expected.remove(0);
            proof {
                assert(self@.expected =~= kl.expected.skip(1));
                assert(self@ =~= pop_expected(kl));
            }
            let matched: bool = match e {
                ExpectedSyscall::Command {
                    driver_id: ed,
                    command_id: ec,
                    argument0: e0,
                    argument1: e1,
                    override_return,
                } => {
                    if ed == driver_id && ec == command_id && e0 == argument0 && e1 == argument1 {
                        ovr = override_return;
                        true
                    } else {
                        false
                    }
                },
                _ => false,
            };
            if !matched {
                let is_kind = match e {
                    ExpectedSyscall::Command { .. } => true,
                    _ => false,
                };
                self.violation = Some(
                    if is_kind {
                        Violation::WrongCallArguments
                    } else {
                        Violation::WrongCallKind
                    },
                );
                proof {
                    assert(self@ =~= spec_command(k0, driver_id, command_id, argument0, argument1).0);
                }
                return CommandReturn::Failure(ErrorCode::Fail);
            }
        }
        let ghost ke = self@;
        let ret: CommandReturn;
        let up: Option<(u32, u32)>;
        let cap: u32;
        if driver_id == RNG_DRIVER_NUM && self.rng_present {
            let (r1, u1) = self.rng.command(command_id, argument0, argument1);
            ret = r1;
            up = u1;
            cap = RNG_NUM_UPCALLS;
            proof {
                assert(self@ =~= KernelView { rng: rng_command_spec(ke.rng, command_id, argument0).0, ..ke });
            }
        } else if driver_id == APP_STATE_DRIVER_NUM && self.app_state_present {
            let base = self.flash_base();
            let (r1, u1) = self.app_state.command(
                base,
                &mut self.flash,
                command_id,
                argument0,
                argument1,
            );
            ret = r1;
            up = u1;
            cap = APP_STATE_NUM_UPCALLS;
            proof {
                let (s2, fl2, _ret2, _up2) = app_state_command_spec(
                    ke.app_state,
                    flash_base_of(ke),
                    ke.flash,
                    command_id,
                    argument0,
                );
                assert(self@ =~= KernelView { app_state: s2, flash: fl2, ..ke });
            }
        } else {
            ret = CommandReturn::Failure(ErrorCode::NoDevice);
            up = None;
            cap = 0;
        }
        match up {
            None => {
                proof {
                    assert(self@ =~= spec_command(k0, driver_id, command_id, argument0, argument1).0);
                }
                match ovr {
                    Some(o) => o,
                    None => ret,
                }
            },
            Some((slot, v)) => {
                if slot < cap {
                    self.queue.push(
                        Upcall { driver_num: driver_id, subscribe_num: slot, value: v },
                    );
                    proof {
                        assert(self@ =~= spec_command(k0, driver_id, command_id, argument0, argument1).0);
                    }
                    match ovr {
                        Some(o) => o,
                        None => ret,
                    }
                } else {
                    self.violation = Some(Violation::TooManyUpcalls);
                    proof {
                        assert(self@ =~= spec_command(k0, driver_id, command_id, argument0, argument1).0);
                    }
                    CommandReturn::Failure(ErrorCode::Fail)
                }
            },
        }
    }

    /// One read-write allow syscall, exactly as [`spec_allow_rw`] says.
    pub fn allow_rw(&mut self, driver_num: u32, buffer_num: u32, buffer: Vec<u8>) -> (r: Result<
        Vec<u8>,
        (Vec<u8>, ErrorCode),
    >)
        ensures
            ({
                let (k2, res) = spec_allow_rw(old(self)@, driver_num, buffer_num, buffer@);
                final(self)@ == k2 && (match (r, res) {
                    (Ok(v), Ok(sv)) => v@ == sv,
                    (Err((v, e)), Err((sv, se))) => v@ == sv && e == se,
                    _ => false,
                })
            }),
            old(self)@.wf() ==> final(self)@.wf(),
    {
        let ghost k0 = self@;
        if self.violation.is_some() {
            return Err((buffer, ErrorCode::Fail));
        }
        self.log.push(
            SyscallLogEntry::AllowRw { driver_num, buffer_num, len: buffer.len() },
        );
        let ghost kl = KernelView {
            log: k0.log.push(allow_rw_log_entry(driver_num, buffer_num, buffer@.len())),
            ..k0
        };
        proof {
            assert(self@ =~= kl);
        }
        let mut inject: Option<ErrorCode> = None;
        if self.expected.len() > 0 {
            let e = self.expected.remove(0);
            proof {
                assert(self@ =~= pop_expected(kl));
            }
            let matched: bool = match e {
                ExpectedSyscall::AllowRw { driver_num: ed, buffer_num: en, return_error } => {
                    if ed == driver_num && en == buffer_num {
                        inject = return_error;
                        true
                    } else {
                        false
                    }
                },
                _ => false,
            };
            if !matched {
                let is_kind = match e {
                    ExpectedSyscall::AllowRw { .. } => true,
                    _ => false,
                };
                self.violation = Some(
                    if is_kind {
                        Violation::WrongCallArguments
                    } else {
                        Violation::WrongCallKind
                    },
                );
                proof {
                    assert(self@ =~= spec_allow_rw(k0, driver_num, buffer_num, buffer@).0);
                }
                return Err((buffer, ErrorCode::Fail));
            }
        }
        match inject {
            Some(e) => {
                proof {
                    assert(self@ =~= spec_allow_rw(k0, driver_num, buffer_num, buffer@).0);
                }
                Err((buffer, e))
            },
            None => {
                let ghost ke = self@;
                if driver_num == RNG_DRIVER_NUM && self.rng_present {
                    let res = self.rng.allow_readwrite(buffer_num, buffer);
                    proof {
                        assert(self@ =~= spec_allow_rw(k0, driver_num, buffer_num, buffer@).0);
                    }
                    res
                } else if driver_num == APP_STATE_DRIVER_NUM && self.app_state_present {
                    proof {
                        assert(self@ =~= spec_allow_rw(k0, driver_num, buffer_num, buffer@).0);
                    }
                    Err((buffer, ErrorCode::NoSupport))
                } else {
                    proof {
                        assert(self@ =~= spec_allow_rw(k0, driver_num, buffer_num, buffer@).0);
                    }
                    Err((buffer, ErrorCode::NoDevice))
                }
            },
        }
    }

    /// One read-only allow syscall, exactly as [`spec_allow_ro`] says.
    pub fn allow_ro(&mut self, driver_num: u32, buffer_num: u32, buffer: Vec<u8>) -> (r: Result<
        Vec<u8>,
        (Vec<u8>, ErrorCode),
    >)
        ensures
            ({
                let (k2, res) = spec_allow_ro(old(self)@, driver_num, buffer_num, buffer@);
                final(self)@ == k2 && (match (r, res) {
                    (Ok(v), Ok(sv)) => v@ == sv,
                    (Err((v, e)), Err((sv, se))) => v@ == sv && e == se,
                    _ => false,
                })
            }),
            old(self)@.wf() ==> final(self)@.wf(),
    {
        let ghost k0 = self@;
        if self.violation.is_some() {
            return Err((buffer, ErrorCode::Fail));
        }
        self.log.push(
            SyscallLogEntry::AllowRo { driver_num, buffer_num, len: buffer.len() },
        );
        let ghost kl = KernelView {
            log: k0.log.push(allow_ro_log_entry(driver_num, buffer_num, buffer@.len())),
            ..k0
        };
        proof {
            assert(self@ =~= kl);
        }
        let mut inject: Option<ErrorCode> = None;
        if self.expected.len() > 0 {
            let e = self.expected.remove(0);
            proof {
                assert(self@ =~= pop_expected(kl));
            }
            let matched: bool = match e {
                ExpectedSyscall::AllowRo { driver_num: ed, buffer_num: en, return_error } => {
                    if ed == driver_num && en == buffer_num {
                        inject = return_error;
                        true
                    } else {
                        false
                    }
                },
                _ => false,
            };
            if !matched {
                let is_kind = match e {
                    ExpectedSyscall::AllowRo { .. } => true,
                    _ => false,
                };
                self.violation = Some(
                    if is_kind {
                        Violation::WrongCallArguments
                    } else {
                        Violation::WrongCallKind
                    },
                );
                proof {
                    assert(self@ =~= spec_allow_ro(k0, driver_num, buffer_num, buffer@).0);
                }
                return Err((buffer, ErrorCode::Fail));
            }
        }
        match inject {
            Some(e) => {
                proof {
                    assert(self@ =~= spec_allow_ro(k0, driver_num, buffer_num, buffer@).0);
                }
                Err((buffer, e))
            },
            None => {
                if driver_num == APP_STATE_DRIVER_NUM && self.app_state_present {
                    let res = self.app_state.allow_readonly(buffer_num, buffer);
                    proof {
                        assert(self@ =~= spec_allow_ro(k0, driver_num, buffer_num, buffer@).0);
                    }
                    res
                } else if driver_num == RNG_DRIVER_NUM && self.rng_present {
                    proof {
                        assert(self@ =~= spec_allow_ro(k0, driver_num, buffer_num, buffer@).0);
                    }
                    Err((buffer, ErrorCode::NoSupport))
                } else {
                    proof {
                        assert(self@ =~= spec_allow_ro(k0, driver_num, buffer_num, buffer@).0);
                    }
                    Err((buffer, ErrorCode::NoDevice))
                }
            },
        }
    }

    /// One subscribe syscall, exactly as [`spec_subscribe`] says.
    pub fn subscribe(&mut self, driver_num: u32, subscribe_num: u32) -> (r: Result<
        (),
        ErrorCode,
    >)
        ensures
            ({
                let (k2, res) = spec_subscribe(old(self)@, driver_num, subscribe_num);
                final(self)@ == k2 && r == res
            }),
            old(self)@.wf() ==> final(self)@.wf(),
    {
        let ghost k0 = self@;
        if self.violation.is_some() {
            return Err(ErrorCode::Fail);
        }
        self.log.push(SyscallLogEntry::Subscribe { driver_num, subscribe_num });
        let ghost kl = KernelView {
            log: k0.log.push(subscribe_log_entry(driver_num, subscribe_num)),
            ..k0
        };
        proof {
            assert(self@ =~= kl);
        }
        let mut skip: Option<ErrorCode> = None;
        if self.expected.len() > 0 {
            let e = self.expected.remove(0);
            proof {
                assert(self@ =~= pop_expected(kl));
            }
            let matched: bool = match e {
                ExpectedSyscall::Subscribe {
                    driver_num: ed,
                    subscribe_num: en,
                    skip_with_error,
                } => {
                    if ed == driver_num && en == subscribe_num {
                        skip = skip_with_error;
                        true
                    } else {
                        false
                    }
                },
                _ => false,
            };
            if !matched {
                let is_kind = match e {
                    ExpectedSyscall::Subscribe { .. } => true,
                    _ => false,
                };
                self.violation = Some(
                    if is_kind {
                        Violation::WrongCallArguments
                    } else {
                        Violation::WrongCallKind
                    },
                );
                proof {
                    assert(self@ =~= spec_subscribe(k0, driver_num, subscribe_num).0);
                }
                return Err(ErrorCode::Fail);
            }
        }
        if let Some(e) = skip {
            proof {
                assert(self@ =~= spec_subscribe(k0, driver_num, subscribe_num).0);
            }
            return Err(e);
        }
        let cap: u32;
        if driver_num == RNG_DRIVER_NUM && self.rng_present {
            cap = RNG_NUM_UPCALLS;
        } else if driver_num == APP_STATE_DRIVER_NUM && self.app_state_present {
            cap = APP_STATE_NUM_UPCALLS;
        } else {
            proof {
                assert(self@ =~= spec_subscribe(k0, driver_num, subscribe_num).0);
            }
            return Err(ErrorCode::NoDevice);
        }
        if subscribe_num >= cap {
            proof {
                assert(self@ =~= spec_subscribe(k0, driver_num, subscribe_num).0);
            }
            return Err(ErrorCode::Invalid);
        }
        let ghost ke = self@;
        let fresh = Subscription { driver_num, subscribe_num, value: None };
        match self.find_sub_index(driver_num, subscribe_num) {
            Some(i) => {
                proof {
                    lemma_find_sub(ke.subs, driver_num, subscribe_num);
                }
                self.subs[i] = fresh;
            },
            None => {
                self.subs.push(fresh);
            },
        }
        proof {
            assert(self@.subs =~= register_sub(ke.subs, driver_num, subscribe_num));
            assert(self@ =~= spec_subscribe(k0, driver_num, subscribe_num).0);
            if k0.wf() {
                lemma_register_sub_wf(ke.subs, driver_num, subscribe_num);
            }
        }
        Ok(())
    }

    /// The single suspension point: one wait-yield, exactly as
    /// [`spec_yield_wait`] says. At most one pending upcall is delivered per
    /// call, in scheduling order; with nothing pending it returns at once,
    /// so callers must check their slot and treat an empty one as their
    /// operation not having completed.
    pub fn yield_wait(&mut self)
        ensures
            final(self)@ == spec_yield_wait(old(self)@),
            old(self)@.wf() ==> final(self)@.wf(),
    {
        let ghost k0 = self@;
        if self.violation.is_some() {
            return;
        }
        self.log.push(SyscallLogEntry::YieldWait);
        let ghost kl = KernelView { log: k0.log.push(SyscallLogEntry::YieldWait), ..k0 };
        proof {
            assert(self@ =~= kl);
        }
        if self.queue.len() == 0 {
            return;
        }
        let u = self.queue.remove(0);
        let ghost kq = KernelView { queue: kl.queue.skip(1), ..kl };
        proof {
            assert(self@.queue =~= kl.queue.skip(1));
            assert(self@ =~= kq);
        }
        match self.find_sub_index(u.driver_num, u.subscribe_num) {
            None => {
                self.violation = Some(Violation::OrphanedUpcall);
                proof {
                    assert(self@ =~= spec_yield_wait(k0));
                }
            },
            Some(i) => {
                proof {
                    lemma_find_sub(kq.subs, u.driver_num, u.subscribe_num);
                }
                let s = self.subs[i];
                if s.value.is_some() {
                    self.violation = Some(Violation::UpcallNotConsumed);
                    proof {
                        assert(self@ =~= spec_yield_wait(k0));
                    }
                } else {
                    self.subs[i] = Subscription { value: Some(u.value), ..s };
                    proof {
                        assert(self@ =~= spec_yield_wait(k0));
                        if k0.wf() {
                            lemma_update_value_wf(
                                kq.subs,
                                i as int,
                                Subscription { value: Some(u.value), ..s },
                            );
                        }
                    }
                }
            },
        }
    }

    /// Consumes the result delivered into slot (`driver_num`,
    /// `subscribe_num`), exactly as [`spec_take_upcall`] says. This is the
    /// caller's side of the callback cell: not a syscall, nothing is logged.
    pub fn take_upcall(&mut self, driver_num: u32, subscribe_num: u32) -> (r: Option<u32>)
        ensures
            ({
                let (k2, res) = spec_take_upcall(old(self)@, driver_num, subscribe_num);
                final(self)@ == k2 && r == res
            }),
            old(self)@.wf() ==> final(self)@.wf(),
    {
        let ghost k0 = self@;
        match self.find_sub_index(driver_num, subscribe_num) {
            None => None,
            Some(i) => {
                proof {
                    lemma_find_sub(k0.subs, driver_num, subscribe_num);
                }
                let s = self.subs[i];
                match s.value {
                    Some(v) => {
                        self.subs[i] = Subscription { value: None, ..s };
                        proof {
                            assert(self@ =~= spec_take_upcall(k0, driver_num, subscribe_num).0);
                            if k0.wf() {
                                lemma_update_value_wf(
                                    k0.subs,
                                    i as int,
                                    Subscription { value: None, ..s },
                                );
                            }
                        }
                        Some(v)
                    },
                    None => None,
                }
            },
        }
    }

    /// Reverts one allow share on scope exit, exactly as
    /// [`spec_revert_allow`] says: the zero-length sentinel goes back in and
    /// the buffer the driver held comes out.
    pub(crate) fn revert_allow(&mut self, driver_num: u32, buffer_num: u32, readonly: bool) -> (r:
        Vec<u8>)
        ensures
            ({
                let (k2, b) = spec_revert_allow(old(self)@, driver_num, buffer_num, readonly);
                final(self)@ == k2 && r@ == b
            }),
            old(self)@.wf() ==> final(self)@.wf(),
    {
        let ghost k0 = self@;
        if !readonly && driver_num == RNG_DRIVER_NUM && buffer_num == RNG_ALLOW_GEN
            && self.rng_present {
            let mut b: Vec<u8> = Vec::new();
            core::mem::swap(&mut self.rng.buffer, &mut b);
            proof {
                assert(self@ =~= spec_revert_allow(k0, driver_num, buffer_num, readonly).0);
            }
            b
        } else if readonly && driver_num == APP_STATE_DRIVER_NUM
            && buffer_num == APP_STATE_ALLOW_WRITE && self.app_state_present {
            let mut b: Vec<u8> = Vec::new();
            core::mem::swap(&mut self.app_state.buffer, &mut b);
            proof {
                assert(self@ =~= spec_revert_allow(k0, driver_num, buffer_num, readonly).0);
            }
            b
        } else {
            Vec::new()
        }
    }

    /// Reverts one subscribe share on scope exit, exactly as
    /// [`spec_revert_subscribe`] says: the slot is unregistered.
    pub(crate) fn revert_subscribe(&mut self, driver_num: u32, subscribe_num: u32)
        ensures
            final(self)@ == spec_revert_subscribe(old(self)@, driver_num, subscribe_num),
            old(self)@.wf() ==> final(self)@.wf(),
    {
        let ghost k0 = self@;
        match self.find_sub_index(driver_num, subscribe_num) {
            Some(i) => {
                proof {
                    lemma_find_sub(k0.subs, driver_num, subscribe_num);
                }
                self.subs.remove(i);
                proof {
                    assert(self@ =~= spec_revert_subscribe(k0, driver_num, subscribe_num));
                    if k0.wf() {
                        lemma_remove_sub_wf(k0.subs, driver_num, subscribe_num);
                    }
                }
            },
            None => {
                proof {
                    assert(self@ =~= spec_revert_subscribe(k0, driver_num, subscribe_num));
                }
            },
        }
    }
}

// ---------------------------------------------------------------------------
// Laws
// ---------------------------------------------------------------------------

/// Presence-check purity: with no expectations scripted, the presence
/// command (command id 0) returns success exactly when a driver is
/// registered under the id, and has no side effects beyond its log entry —
/// driver states, byte records, buffers, flash, upcall queue and
/// subscriptions are all untouched; an absent driver yields the `NoDevice`
/// failure without consulting anyone.
pub proof fn lemma_presence_check_purity(k: KernelView, d: u32)
    requires
        k.violation is None,
        k.expected.len() == 0,
    ensures
        ({
            let (k2, r) = spec_command(k, d, COMMAND_DRIVER_CHECK, 0, 0);
            ((r == CommandReturn::Success) <==> driver_present(k, d)) && k2.rng == k.rng
                && k2.app_state == k.app_state && k2.flash == k.flash && k2.queue == k.queue
                && k2.subs == k.subs && k2.violation is None && k2.log == k.log.push(
                command_log_entry(d, COMMAND_DRIVER_CHECK, 0, 0),
            ) && (!driver_present(k, d) ==> r == CommandReturn::Failure(ErrorCode::NoDevice))
        }),
{
}

/// Allow is a strict swap, observed at the syscall boundary: with nothing
/// scripted and the generator present, allowing `b` returns whatever the
/// slot previously held (the sentinel on first use), and allowing `c` right
/// after returns exactly `b`, unchanged — never `c` — while the slot holds
/// `c` and the driver's byte record is untouched.
pub proof fn lemma_allow_rw_strict_swap(k: KernelView, b: Seq<u8>, c: Seq<u8>)
    requires
        k.violation is None,
        k.expected.len() == 0,
        k.rng_present,
    ensures
        ({
            let (k1, r1) = spec_allow_rw(k, RNG_DRIVER_NUM, RNG_ALLOW_GEN, b);
            let (k2, r2) = spec_allow_rw(k1, RNG_DRIVER_NUM, RNG_ALLOW_GEN, c);
            r1 == Ok::<Seq<u8>, (Seq<u8>, ErrorCode)>(k.rng.buffer) && r2 == Ok::<
                Seq<u8>,
                (Seq<u8>, ErrorCode),
            >(b) && k2.rng.buffer == c && k2.rng.messages == k.rng.messages
        }),
{
}

/// An injected failure is honored without suppressing the driver: when the
/// front expectation matches a generate command and overrides its return,
/// the call returns the override while the driver's side effects — the
/// filled buffer, the byte record and the scheduled upcall — still occur.
pub proof fn lemma_injected_failure_honored(k: KernelView, n: u32, ovr: CommandReturn)
    requires
        k.violation is None,
        k.rng_present,
        k.expected.len() > 0,
        k.expected[0] == (ExpectedSyscall::Command {
            driver_id: RNG_DRIVER_NUM,
            command_id: RNG_COMMAND_GEN,
            argument0: n,
            argument1: 0,
            override_return: Some(ovr),
        }),
    ensures
        ({
            let (k2, r) = spec_command(k, RNG_DRIVER_NUM, RNG_COMMAND_GEN, n, 0);
            let (s2, ret, up) = rng_command_spec(k.rng, RNG_COMMAND_GEN, n);
            r == ovr && k2.rng == s2 && k2.queue == k.queue.push(
                Upcall {
                    driver_num: RNG_DRIVER_NUM,
                    subscribe_num: RNG_SUBSCRIBE_GEN,
                    value: rng_fill_count(k.rng, n) as u32,
                },
            ) && k2.expected == k.expected.skip(1) && k2.log == k.log.push(
                command_log_entry(RNG_DRIVER_NUM, RNG_COMMAND_GEN, n, 0),
            ) && k2.violation is None
        }),
{
}

/// First-in first-out upcall delivery: with two events queued for two
/// distinct registered, empty slots, the first wait-yield delivers the
/// first-scheduled event into its own slot and the second wait-yield the
/// second event into its own slot — results arrive in the order the
/// operations were issued, and neither delivery disturbs the other slot.
pub proof fn lemma_upcall_fifo(k: KernelView, i: int, j: int)
    requires
        k.violation is None,
        k.queue.len() >= 2,
        find_sub(k.subs, k.queue[0].driver_num, k.queue[0].subscribe_num) == Some(i),
        find_sub(k.subs, k.queue[1].driver_num, k.queue[1].subscribe_num) == Some(j),
        i != j,
        0 <= i < k.subs.len(),
        0 <= j < k.subs.len(),
        k.subs[i].value is None,
        k.subs[j].value is None,
    ensures
        ({
            let k1 = spec_yield_wait(k);
            let k2 = spec_yield_wait(k1);
            k1.violation is None && k2.violation is None && k2.queue == k.queue.skip(2)
                && k1.subs[i].value == Some(k.queue[0].value) && k2.subs[i].value == Some(
                k.queue[0].value,
            ) && k2.subs[j].value == Some(k.queue[1].value) && k2.log == k.log.push(
                SyscallLogEntry::YieldWait,
            ).push(SyscallLogEntry::YieldWait)
        }),
{
    let u0 = k.queue[0];
    let u1 = k.queue[1];
    lemma_find_sub(k.subs, u0.driver_num, u0.subscribe_num);
    lemma_find_sub(k.subs, u1.driver_num, u1.subscribe_num);
    let k1 = spec_yield_wait(k);
    let subs1 = k.subs.update(i, Subscription { value: Some(u0.value), ..k.subs[i] });
    assert(k1.subs == subs1);
    assert(k1.queue == k.queue.skip(1));
    // The two slots are distinct identities: were they the same, find_sub
    // would have named the same index for both events.
    assert(!(u1.driver_num == u0.driver_num && u1.subscribe_num == u0.subscribe_num)) by {
        if u1.driver_num == u0.driver_num && u1.subscribe_num == u0.subscribe_num {
            assert(i == j);
        }
    }
    assert(subs1[j] == k.subs[j]);
    assert forall|m: int| 0 <= m < j implies !((#[trigger] subs1[m]).driver_num == u1.driver_num
        && subs1[m].subscribe_num == u1.subscribe_num) by {
        if m != i {
            assert(subs1[m] == k.subs[m]);
        }
    }
    lemma_find_sub_exact(subs1, u1.driver_num, u1.subscribe_num, j);
    assert(k1.queue[0] == u1);
    let k2 = spec_yield_wait(k1);
    assert(k2.subs == subs1.update(j, Subscription { value: Some(u1.value), ..subs1[j] }));
    assert(k2.queue =~= k.queue.skip(2));
}

} // verus!
