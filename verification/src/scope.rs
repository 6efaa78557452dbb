use vstd::prelude::*;
use crate::error::ErrorCode;
use crate::fake::kernel::{
    spec_allow_ro, spec_allow_rw, spec_revert_allow, spec_revert_subscribe, spec_subscribe, Kernel,
    KernelView,
};

verus! {

/// One live allow share a scope holds: which driver, which buffer index,
/// and whether it is the read-only or the read-write slot.
#[derive(Clone, Copy, Debug, PartialEq, Eq, Structural)]
pub struct AllowShare {
    pub driver_num: u32,
    pub buffer_num: u32,
    pub readonly: bool,
}

/// One live subscribe share a scope holds.
#[derive(Clone, Copy, Debug, PartialEq, Eq, Structural)]
pub struct SubscribeShare {
    pub driver_num: u32,
    pub subscribe_num: u32,
}

/// A share scope: the stack-discipline construct through which buffers and
/// callback slots are shared with the kernel, and which guarantees their
/// reversal.
///
/// Every allow and subscribe made through the scope is recorded (once per
/// handle identity — re-allowing the same slot replaces the share rather
/// than stacking a second one). [`Scope::close`] reverts every recorded
/// share: allowed buffers are swapped back against the zero-length sentinel
/// and returned to the caller, and subscriptions are unregistered, so no
/// buffer or callback reference shared inside the scope remains reachable
/// from the kernel side after it ends.
pub struct Scope {
    pub allows: Vec<AllowShare>,
    pub subs: Vec<SubscribeShare>,
}

/// The mathematical value of a [`Scope`].
#[verifier::ext_equal]
pub ghost struct ScopeView {
    pub allows: Seq<AllowShare>,
    pub subs: Seq<SubscribeShare>,
}

impl View for Scope {
    type V = ScopeView;

    open spec fn view(&self) -> ScopeView {
        ScopeView { allows: self.allows@, subs: self.subs@ }
    }
}

pub open spec fn allow_shares_unique(allows: Seq<AllowShare>) -> bool {
    forall|i: int, j: int| 0 <= i < j < allows.len() ==> #[trigger] allows[i] != #[trigger] allows[j]
}

pub open spec fn sub_shares_unique(subs: Seq<SubscribeShare>) -> bool {
    forall|i: int, j: int| 0 <= i < j < subs.len() ==> #[trigger] subs[i] != #[trigger] subs[j]
}

impl ScopeView {
    /// Internal invariant: each share is recorded at most once.
    pub open spec fn wf(self) -> bool {
        allow_shares_unique(self.allows) && sub_shares_unique(self.subs)
    }
}

pub open spec fn contains_allow(allows: Seq<AllowShare>, a: AllowShare) -> bool {
    exists|i: int| 0 <= i < allows.len() && allows[i] == a
}

/// The allow shares after recording `a`: unchanged when the same handle
/// identity is already live, else appended.
pub open spec fn record_allow(allows: Seq<AllowShare>, a: AllowShare) -> Seq<AllowShare> {
    if contains_allow(allows, a) {
        allows
    } else {
        allows.push(a)
    }
}

pub open spec fn contains_sub(subs: Seq<SubscribeShare>, s: SubscribeShare) -> bool {
    exists|i: int| 0 <= i < subs.len() && subs[i] == s
}

/// The subscribe shares after recording `s`.
pub open spec fn record_sub(subs: Seq<SubscribeShare>, s: SubscribeShare) -> Seq<SubscribeShare> {
    if contains_sub(subs, s) {
        subs
    } else {
        subs.push(s)
    }
}

pub proof fn lemma_record_allow_wf(allows: Seq<AllowShare>, a: AllowShare)
    requires
        allow_shares_unique(allows),
    ensures
        allow_shares_unique(record_allow(allows, a)),
{
    if !contains_allow(allows, a) {
        let allows2 = allows.push(a);
        assert forall|i: int, j: int| 0 <= i < j < allows2.len() implies #[trigger] allows2[i]
            != #[trigger] allows2[j] by {
            if j == allows.len() {
                assert(allows2[i] == allows[i]);
            } else {
                assert(allows2[i] == allows[i]);
                assert(allows2[j] == allows[j]);
            }
        }
    }
}

pub proof fn lemma_record_sub_wf(subs: Seq<SubscribeShare>, s: SubscribeShare)
    requires
        sub_shares_unique(subs),
    ensures
        sub_shares_unique(record_sub(subs, s)),
{
    if !contains_sub(subs, s) {
        let subs2 = subs.push(s);
        assert forall|i: int, j: int| 0 <= i < j < subs2.len() implies #[trigger] subs2[i]
            != #[trigger] subs2[j] by {
            if j == subs.len() {
                assert(subs2[i] == subs[i]);
            } else {
                assert(subs2[i] == subs[i]);
                assert(subs2[j] == subs[j]);
            }
        }
    }
}

/// The kernel after reverting the subscribe shares at indices
/// `i..subs.len()`, last share first.
pub open spec fn revert_subs_from(k: KernelView, subs: Seq<SubscribeShare>, i: int) -> KernelView
    decreases subs.len() - i,
{
    if i < 0 || i >= subs.len() {
        k
    } else {
        spec_revert_subscribe(
            revert_subs_from(k, subs, i + 1),
            subs[i].driver_num,
            subs[i].subscribe_num,
        )
    }
}

/// The kernel after reverting the allow shares at indices
/// `i..allows.len()`, last share first, together with the buffers that came
/// back, in reversal order.
pub open spec fn revert_allows_from(k: KernelView, allows: Seq<AllowShare>, i: int) -> (
    KernelView,
    Seq<Seq<u8>>,
)
    decreases allows.len() - i,
{
    if i < 0 || i >= allows.len() {
        (k, Seq::<Seq<u8>>::empty())
    } else {
        let (k1, bs) = revert_allows_from(k, allows, i + 1);
        let (k2, b) = spec_revert_allow(
            k1,
            allows[i].driver_num,
            allows[i].buffer_num,
            allows[i].readonly,
        );
        (k2, bs.push(b))
    }
}

/// What closing a scope does: unregister every recorded subscription, then
/// swap every recorded allow back to the sentinel, newest share first,
/// collecting the buffers that come back.
pub open spec fn spec_close(k: KernelView, s: ScopeView) -> (KernelView, Seq<Seq<u8>>) {
    revert_allows_from(revert_subs_from(k, s.subs, 0), s.allows, 0)
}

/// Reverting subscribe shares touches only the subscription table: log,
/// expectation queue, upcall queue, drivers, flash and violation state are
/// untouched, and well-formedness is preserved.
pub proof fn lemma_revert_subs_from_frame(k: KernelView, subs: Seq<SubscribeShare>, i: int)
    requires
        0 <= i <= subs.len(),
    ensures
        ({
            let k2 = revert_subs_from(k, subs, i);
            (k.wf() ==> k2.wf()) && k2 == (KernelView { subs: k2.subs, ..k })
        }),
    decreases subs.len() - i,
{
    if i < subs.len() {
        lemma_revert_subs_from_frame(k, subs, i + 1);
        let k1 = revert_subs_from(k, subs, i + 1);
        if k1.wf() {
            crate::fake::kernel::lemma_remove_sub_wf(
                k1.subs,
                subs[i].driver_num,
                subs[i].subscribe_num,
            );
        }
    }
}

/// Reverting allow shares touches only the two drivers' allow slots: the
/// rest of the kernel is untouched, well-formedness is preserved, and one
/// buffer comes back per share reverted.
pub proof fn lemma_revert_allows_from_frame(k: KernelView, allows: Seq<AllowShare>, i: int)
    requires
        0 <= i <= allows.len(),
    ensures
        ({
            let (k2, bs) = revert_allows_from(k, allows, i);
            (k.wf() ==> k2.wf()) && bs.len() == allows.len() - i && k2 == (KernelView {
                rng: k2.rng,
                app_state: k2.app_state,
                ..k
            }) && k2.rng.messages == k.rng.messages && k2.app_state.flash_buffer
                == k.app_state.flash_buffer && k2.app_state.flash_ptr == k.app_state.flash_ptr
                && k2.app_state.header == k.app_state.header
        }),
    decreases allows.len() - i,
{
    if i < allows.len() {
        lemma_revert_allows_from_frame(k, allows, i + 1);
    }
}

/// The share identity of the generator's read-write buffer slot.
pub open spec fn rng_gen_share() -> AllowShare {
    AllowShare {
        driver_num: crate::constants::RNG_DRIVER_NUM,
        buffer_num: crate::constants::RNG_ALLOW_GEN,
        readonly: false,
    }
}

/// The share identity of the persistent-state capsule's read-only buffer
/// slot.
pub open spec fn app_state_write_share() -> AllowShare {
    AllowShare {
        driver_num: crate::constants::APP_STATE_DRIVER_NUM,
        buffer_num: crate::constants::APP_STATE_ALLOW_WRITE,
        readonly: true,
    }
}

/// In `k2`, no slot named by `subs[i..]` is registered any more.
pub open spec fn sub_shares_cleared(k2: KernelView, subs: Seq<SubscribeShare>, i: int) -> bool {
    forall|m: int|
        i <= m < subs.len() ==> crate::fake::kernel::find_sub(
            k2.subs,
            (#[trigger] subs[m]).driver_num,
            subs[m].subscribe_num,
        ) is None
}

/// In `k2`, every driver slot named by `allows[i..]` holds the zero-length
/// sentinel again (presence as of `k`; reverting never changes presence).
pub open spec fn allow_shares_cleared(
    k: KernelView,
    k2: KernelView,
    allows: Seq<AllowShare>,
    i: int,
) -> bool {
    forall|m: int|
        i <= m < allows.len() ==> (((#[trigger] allows[m]) == rng_gen_share() && k.rng_present
            ==> k2.rng.buffer.len() == 0) && (allows[m] == app_state_write_share()
            && k.app_state_present ==> k2.app_state.buffer.len() == 0))
}

pub proof fn lemma_revert_subs_from_clears(k: KernelView, subs: Seq<SubscribeShare>, i: int)
    requires
        0 <= i <= subs.len(),
        k.wf(),
    ensures
        sub_shares_cleared(revert_subs_from(k, subs, i), subs, i),
    decreases subs.len() - i,
{
    if i < subs.len() {
        lemma_revert_subs_from_clears(k, subs, i + 1);
        lemma_revert_subs_from_frame(k, subs, i + 1);
        let k1 = revert_subs_from(k, subs, i + 1);
        let k2 = revert_subs_from(k, subs, i);
        crate::fake::kernel::lemma_remove_sub_clears(
            k1.subs,
            subs[i].driver_num,
            subs[i].subscribe_num,
        );
        assert forall|m: int| i <= m < subs.len() implies crate::fake::kernel::find_sub(
            k2.subs,
            (#[trigger] subs[m]).driver_num,
            subs[m].subscribe_num,
        ) is None by {
            if m > i {
                crate::fake::kernel::lemma_remove_preserves_absence(
                    k1.subs,
                    subs[m].driver_num,
                    subs[m].subscribe_num,
                    subs[i].driver_num,
                    subs[i].subscribe_num,
                );
            }
        }
    }
}

pub proof fn lemma_revert_allows_from_clears(k: KernelView, allows: Seq<AllowShare>, i: int)
    requires
        0 <= i <= allows.len(),
    ensures
        allow_shares_cleared(k, revert_allows_from(k, allows, i).0, allows, i),
    decreases allows.len() - i,
{
    if i < allows.len() {
        lemma_revert_allows_from_clears(k, allows, i + 1);
        lemma_revert_allows_from_frame(k, allows, i + 1);
    }
}

/// The central safety property of the share scope: after a close, no share
/// the scope recorded remains reachable from the kernel side. Every
/// recorded subscription slot is unregistered — no identity a recorded
/// share names is findable — and every recorded allow slot holds the
/// zero-length sentinel again, so the kernel retains no reference into the
/// memory that backed the scope's shares.
pub proof fn lemma_close_reverts_every_share(k: KernelView, s: ScopeView)
    requires
        k.wf(),
    ensures
        sub_shares_cleared(spec_close(k, s).0, s.subs, 0),
        allow_shares_cleared(k, spec_close(k, s).0, s.allows, 0),
{
    let k1 = revert_subs_from(k, s.subs, 0);
    lemma_revert_subs_from_frame(k, s.subs, 0);
    lemma_revert_subs_from_clears(k, s.subs, 0);
    lemma_revert_allows_from_frame(k1, s.allows, 0);
    lemma_revert_allows_from_clears(k1, s.allows, 0);
    let (k2, _bs) = revert_allows_from(k1, s.allows, 0);
    // Reverting allows swaps only the two drivers' slots: it cannot
    // re-register a subscription the first phase cleared.
    assert forall|m: int| 0 <= m < s.subs.len() implies crate::fake::kernel::find_sub(
        k2.subs,
        (#[trigger] s.subs[m]).driver_num,
        s.subs[m].subscribe_num,
    ) is None by {
        assert(k2.subs == k1.subs);
    }
    // Reverting allow shares keeps the presence flags, so the slots named
    // by the recorded shares are judged against the kernel as it stood
    // before the close.
    assert(k1.rng_present == k.rng_present);
    assert(k1.app_state_present == k.app_state_present);
}

/// Opens a fresh share scope with no live shares.
pub fn open_scope() -> (r: Scope)
    ensures
        r@.allows.len() == 0,
        r@.subs.len() == 0,
        r@.wf(),
{
    Scope { allows: Vec::new(), subs: Vec::new() }
}

impl Scope {
    fn has_allow(&self, a: AllowShare) -> (r: bool)
        ensures
            r == contains_allow(self@.allows, a),
    {
        let mut i: usize = 0;
        while i < self.allows.len()
            invariant
                i <= self@.allows.len(),
                forall|k: int| 0 <= k < i ==> #[trigger] self@.allows[k] != a,
            decreases self@.allows.len() - i,
        {
            let cur = self.allows[i];
            if cur == a {
                return true;
            }
            i += 1;
        }
        false
    }

    fn has_sub(&self, s: SubscribeShare) -> (r: bool)
        ensures
            r == contains_sub(self@.subs, s),
    {
        let mut i: usize = 0;
        while i < self.subs.len()
            invariant
                i <= self@.subs.len(),
                forall|k: int| 0 <= k < i ==> #[trigger] self@.subs[k] != s,
            decreases self@.subs.len() - i,
        {
            let cur = self.subs[i];
            if cur == s {
                return true;
            }
            i += 1;
        }
        false
    }

    /// Shares a read-write buffer with the kernel through this scope. On
    /// success the previously held buffer comes back and the share is
    /// recorded for reversal; on failure the caller's buffer comes back and
    /// nothing is recorded.
    pub fn allow_rw(
        &mut self,
        kernel: &mut Kernel,
        driver_num: u32,
        buffer_num: u32,
        buffer: Vec<u8>,
    ) -> (r: Result<Vec<u8>, (Vec<u8>, ErrorCode)>)
        ensures
            ({
                let (k2, res) = spec_allow_rw(old(kernel)@, driver_num, buffer_num, buffer@);
                final(kernel)@ == k2 && (match (r, res) {
                    (Ok(v), Ok(sv)) => v@ == sv,
                    (Err((v, e)), Err((sv, se))) => v@ == sv && e == se,
                    _ => false,
                })
            }),
            r is Ok ==> final(self)@.allows == record_allow(
                old(self)@.allows,
                AllowShare { driver_num, buffer_num, readonly: false },
            ),
            r is Err ==> final(self)@.allows == old(self)@.allows,
            final(self)@.subs == old(self)@.subs,
            old(self)@.wf() ==> final(self)@.wf(),
            old(kernel)@.wf() ==> final(kernel)@.wf(),
    {
        match kernel.allow_rw(driver_num, buffer_num, buffer) {
            Ok(prev) => {
                let share = AllowShare { driver_num, buffer_num, readonly: false };
                if !self.has_allow(share) {
                    self.allows.push(share);
                }
                proof {
                    assert(self@.allows =~= record_allow(old(self)@.allows, share));
                    if old(self)@.wf() {
                        lemma_record_allow_wf(old(self)@.allows, share);
                    }
                }
                Ok(prev)
            },
            Err(e) => Err(e),
        }
    }

    /// Shares a read-only buffer with the kernel through this scope; the
    /// read-only mirror of [`Scope::allow_rw`].
    pub fn allow_ro(
        &mut self,
        kernel: &mut Kernel,
        driver_num: u32,
        buffer_num: u32,
        buffer: Vec<u8>,
    ) -> (r: Result<Vec<u8>, (Vec<u8>, ErrorCode)>)
        ensures
            ({
                let (k2, res) = spec_allow_ro(old(kernel)@, driver_num, buffer_num, buffer@);
                final(kernel)@ == k2 && (match (r, res) {
                    (Ok(v), Ok(sv)) => v@ == sv,
                    (Err((v, e)), Err((sv, se))) => v@ == sv && e == se,
                    _ => false,
                })
            }),
            r is Ok ==> final(self)@.allows == record_allow(
                old(self)@.allows,
                AllowShare { driver_num, buffer_num, readonly: true },
            ),
            r is Err ==> final(self)@.allows == old(self)@.allows,
            final(self)@.subs == old(self)@.subs,
            old(self)@.wf() ==> final(self)@.wf(),
            old(kernel)@.wf() ==> final(kernel)@.wf(),
    {
        match kernel.allow_ro(driver_num, buffer_num, buffer) {
            Ok(prev) => {
                let share = AllowShare { driver_num, buffer_num, readonly: true };
                if !self.has_allow(share) {
                    self.allows.push(share);
                }
                proof {
                    assert(self@.allows =~= record_allow(old(self)@.allows, share));
                    if old(self)@.wf() {
                        lemma_record_allow_wf(old(self)@.allows, share);
                    }
                }
                Ok(prev)
            },
            Err(e) => Err(e),
        }
    }

    /// Registers a completion-callback slot through this scope. On success
    /// the share is recorded, so the slot is unregistered again when the
    /// scope closes.
    pub fn subscribe(&mut self, kernel: &mut Kernel, driver_num: u32, subscribe_num: u32) -> (r:
        Result<(), ErrorCode>)
        ensures
            ({
                let (k2, res) = spec_subscribe(old(kernel)@, driver_num, subscribe_num);
                final(kernel)@ == k2 && r == res
            }),
            r is Ok ==> final(self)@.subs == record_sub(
                old(self)@.subs,
                SubscribeShare { driver_num, subscribe_num },
            ),
            r is Err ==> final(self)@.subs == old(self)@.subs,
            final(self)@.allows == old(self)@.allows,
            old(self)@.wf() ==> final(self)@.wf(),
            old(kernel)@.wf() ==> final(kernel)@.wf(),
    {
        match kernel.subscribe(driver_num, subscribe_num) {
            Ok(()) => {
                let share = SubscribeShare { driver_num, subscribe_num };
                if !self.has_sub(share) {
                    self.subs.push(share);
                }
                proof {
                    assert(self@.subs =~= record_sub(old(self)@.subs, share));
                    if old(self)@.wf() {
                        lemma_record_sub_wf(old(self)@.subs, share);
                    }
                }
                Ok(())
            },
            Err(e) => Err(e),
        }
    }

    /// Closes the scope, reverting every live share as [`spec_close`] says:
    /// every recorded subscription is unregistered and every recorded allow
    /// is swapped back to the zero-length sentinel. The buffers the kernel
    /// held come back in reversal order (newest share first) — true
    /// ownership returns to the caller, and nothing shared inside the scope
    /// remains reachable from the kernel side.
    pub fn close(self, kernel: &mut Kernel) -> (r: Vec<Vec<u8>>)
        ensures
            ({
                let (k2, bs) = spec_close(old(kernel)@, self@);
                final(kernel)@ == k2 && r@.len() == bs.len() && (forall|j: int|
                    0 <= j < bs.len() ==> #[trigger] r@[j]@ == bs[j])
            }),
            old(kernel)@.wf() ==> final(kernel)@.wf(),
    {
        let ghost k0 = kernel@;
        let mut idx: usize = self.subs.len();
        proof {
            assert(kernel@ == revert_subs_from(k0, self@.subs, idx as int));
        }
        while idx > 0
            invariant
                idx <= self@.subs.len(),
                kernel@ == revert_subs_from(k0, self@.subs, idx as int),
            decreases idx,
        {
            idx -= 1;
            let s = self.subs[idx];
            kernel.revert_subscribe(s.driver_num, s.subscribe_num);
        }
        let ghost k1 = revert_subs_from(k0, self@.subs, 0);
        let mut bufs: Vec<Vec<u8>> = Vec::new();
        let mut aidx: usize = self.allows.len();
        while aidx > 0
            invariant
                aidx <= self@.allows.len(),
                kernel@ == revert_allows_from(k1, self@.allows, aidx as int).0,
                bufs@.len() == revert_allows_from(k1, self@.allows, aidx as int).1.len(),
                forall|j: int|
                    0 <= j < bufs@.len() ==> #[trigger] bufs@[j]@ == revert_allows_from(
                        k1,
                        self@.allows,
                        aidx as int,
                    ).1[j],
            decreases aidx,
        {
            aidx -= 1;
            let a = self.allows[aidx];
            let b = kernel.revert_allow(a.driver_num, a.buffer_num, a.readonly);
            bufs.push(b);
        }
        proof {
            if old(kernel)@.wf() {
                lemma_revert_subs_from_frame(k0, self@.subs, 0);
                lemma_revert_allows_from_frame(k1, self@.allows, 0);
            }
        }
        bufs
    }
}

} // verus!
