use vstd::prelude::*;
use crate::constants::{
    COMMAND_DRIVER_CHECK, RNG_ALLOW_GEN, RNG_COMMAND_GEN, RNG_DRIVER_NUM, RNG_FILL_BYTE,
    RNG_NUM_UPCALLS, RNG_SUBSCRIBE_GEN,
};
use crate::error::{CommandReturn, ErrorCode};

verus! {

/// The fake random-byte generator driver.
///
/// It owns one read-write allow slot; a generate command fills the allowed
/// buffer with a fixed byte (so tests can assert exact contents), records the
/// bytes it produced, and schedules one upcall carrying the count.
pub struct Rng {
    /// The bytes the last generate command produced, until a test takes them.
    pub messages: Vec<u8>,
    /// The currently allowed read-write buffer; the zero-length sentinel
    /// stands for "nothing allowed".
    pub buffer: Vec<u8>,
}

/// The mathematical value of a fake [`Rng`] driver.
#[verifier::ext_equal]
pub ghost struct RngView {
    pub messages: Seq<u8>,
    pub buffer: Seq<u8>,
}

impl View for Rng {
    type V = RngView;

    open spec fn view(&self) -> RngView {
        RngView { messages: self.messages@, buffer: self.buffer@ }
    }
}

/// How many bytes a generate command touches: the requested count, capped at
/// the allowed buffer's length.
pub open spec fn rng_fill_count(s: RngView, argument0: u32) -> int {
    vstd::math::min(s.buffer.len() as int, argument0 as int)
}

/// The allowed buffer after a generate command: the first `n` bytes replaced
/// by the fill byte, the rest untouched.
pub open spec fn rng_fill(buffer: Seq<u8>, n: int) -> Seq<u8> {
    Seq::new(buffer.len(), |i: int| if i < n { RNG_FILL_BYTE } else { buffer[i] })
}

/// What exchanging the read-write buffer at `buffer_num` does to the driver:
/// a strict swap at the one offered slot — the caller's buffer moves in, the
/// previously held buffer moves out — and a rejection, returning the caller's
/// buffer untouched, at every other index.
pub open spec fn rng_allow_spec(s: RngView, buffer_num: u32, b: Seq<u8>) -> (
    RngView,
    Result<Seq<u8>, (Seq<u8>, ErrorCode)>,
) {
    if buffer_num == RNG_ALLOW_GEN {
        (RngView { buffer: b, ..s }, Ok(s.buffer))
    } else {
        (s, Err((b, ErrorCode::Invalid)))
    }
}

/// What a command does to the driver: the state afterwards, the returned
/// value, and the upcall (slot, payload) it schedules, if any.
pub open spec fn rng_command_spec(s: RngView, command_num: u32, argument0: u32) -> (
    RngView,
    CommandReturn,
    Option<(u32, u32)>,
) {
    if command_num == COMMAND_DRIVER_CHECK {
        (s, CommandReturn::Success, None)
    } else if command_num == RNG_COMMAND_GEN {
        let n = rng_fill_count(s, argument0);
        let filled = rng_fill(s.buffer, n);
        (
            RngView { messages: filled.take(n), buffer: filled },
            CommandReturn::Success,
            Some((RNG_SUBSCRIBE_GEN, n as u32)),
        )
    } else {
        (s, CommandReturn::Failure(ErrorCode::NoSupport), None)
    }
}

impl Rng {
    /// A fresh driver: nothing produced, nothing allowed.
    pub fn new() -> (r: Rng)
        ensures
            r@ == (RngView { messages: Seq::<u8>::empty(), buffer: Seq::<u8>::empty() }),
    {
        let r = Rng { messages: Vec::new(), buffer: Vec::new() };
        proof {
            assert(r@ =~= RngView { messages: Seq::<u8>::empty(), buffer: Seq::<u8>::empty() });
        }
        r
    }

    /// Returns the bytes that have been produced so far, and clears them.
    pub fn take_bytes(&mut self) -> (r: Vec<u8>)
        ensures
            r@ == old(self)@.messages,
            final(self)@ == (RngView { messages: Seq::<u8>::empty(), ..old(self)@ }),
    {
        let mut taken: Vec<u8> = Vec::new();
        core::mem::swap(&mut self.messages, &mut taken);
        proof {
            assert(self@ =~= RngView { messages: Seq::<u8>::empty(), ..old(self)@ });
        }
        taken
    }

    /// The driver id this driver registers under.
    pub fn id(&self) -> (r: u32)
        ensures
            r == RNG_DRIVER_NUM,
    {
        RNG_DRIVER_NUM
    }

    /// The number of distinct upcall slots this driver may schedule into;
    /// scheduling beyond it is a protocol violation, not a returned error.
    pub fn num_upcalls(&self) -> (r: u32)
        ensures
            r == RNG_NUM_UPCALLS,
    {
        RNG_NUM_UPCALLS
    }

    /// Exchanges the read-write buffer at `buffer_num`, as
    /// [`rng_allow_spec`] says.
    pub fn allow_readwrite(&mut self, buffer_num: u32, buffer: Vec<u8>) -> (r: Result<
        Vec<u8>,
        (Vec<u8>, ErrorCode),
    >)
        ensures
            ({
                let (s2, res) = rng_allow_spec(old(self)@, buffer_num, buffer@);
                final(self)@ == s2 && (match (r, res) {
                    (Ok(v), Ok(sv)) => v@ == sv,
                    (Err((v, e)), Err((sv, se))) => v@ == sv && e == se,
                    _ => false,
                })
            }),
    {
        if buffer_num == RNG_ALLOW_GEN {
            let mut b = buffer;
            core::mem::swap(&mut self.buffer, &mut b);
            proof {
                assert(self@ =~= rng_allow_spec(old(self)@, buffer_num, buffer@).0);
            }
            Ok(b)
        } else {
            Err((buffer, ErrorCode::Invalid))
        }
    }

    /// Runs one command, as [`rng_command_spec`] says: presence checks
    /// succeed without side effects, a generate command fills the allowed
    /// buffer and schedules one upcall with the count, anything else is
    /// unsupported.
    pub fn command(&mut self, command_num: u32, argument0: u32, _argument1: u32) -> (r: (
        CommandReturn,
        Option<(u32, u32)>,
    ))
        ensures
            ({
                let (s2, ret, up) = rng_command_spec(old(self)@, command_num, argument0);
                final(self)@ == s2 && r.0 == ret && r.1 == up
            }),
    {
        if command_num == COMMAND_DRIVER_CHECK {
            (CommandReturn::Success, None)
        } else if command_num == RNG_COMMAND_GEN {
            let ghost orig = self@;
            let size: usize = if (argument0 as usize) < self.buffer.len() {
                argument0 as usize
            } else {
                self.buffer.len()
            };
            proof {
                assert(size as int == rng_fill_count(orig, argument0));
            }
            let mut i: usize = 0;
            while i < size
                invariant
                    i <= size,
                    size <= self.buffer.len(),
                    size as int == rng_fill_count(orig, argument0),
                    self@.buffer.len() == orig.buffer.len(),
                    self@.messages == orig.messages,
                    forall|k: int| 0 <= k < i ==> self@.buffer[k] == RNG_FILL_BYTE,
                    forall|k: int|
                        i <= k < self@.buffer.len() ==> self@.buffer[k] == orig.buffer[k],
                decreases size - i,
            {
                self.buffer[i] = RNG_FILL_BYTE;
                i += 1;
            }
            proof {
                assert(self@.buffer =~= rng_fill(orig.buffer, size as int));
            }
            self.messages.clear();
            let mut j: usize = 0;
            while j < size
                invariant
                    j <= size,
                    size <= self.buffer.len(),
                    self@.buffer == rng_fill(orig.buffer, size as int),
                    self@.messages.len() == j,
                    forall|k: int| 0 <= k < j ==> self@.messages[k] == self@.buffer[k],
                decreases size - j,
            {
                let byte = self.buffer[j];
                self.messages.push(byte);
                j += 1;
            }
            proof {
                let n = rng_fill_count(orig, argument0);
                assert(self@.messages =~= rng_fill(orig.buffer, n).take(n));
                assert(self@ =~= rng_command_spec(orig, command_num, argument0).0);
            }
            (CommandReturn::Success, Some((RNG_SUBSCRIBE_GEN, size as u32)))
        } else {
            (CommandReturn::Failure(ErrorCode::NoSupport), None)
        }
    }
}

/// The allow exchange is a strict swap. After allowing `b` into an empty or
/// previously filled slot, the caller gets back exactly what the slot held;
/// after a second allow of `c`, the caller gets back exactly `b`, unchanged —
/// never `c` — and the slot holds `c`. The driver's produced-byte record is
/// untouched either way.
pub proof fn lemma_allow_is_strict_swap(s0: RngView, b: Seq<u8>, c: Seq<u8>)
    ensures
        ({
            let (s1, r1) = rng_allow_spec(s0, RNG_ALLOW_GEN, b);
            let (s2, r2) = rng_allow_spec(s1, RNG_ALLOW_GEN, c);
            r1 == Ok::<Seq<u8>, (Seq<u8>, ErrorCode)>(s0.buffer) && s1.buffer == b && r2 == Ok::<
                Seq<u8>,
                (Seq<u8>, ErrorCode),
            >(b) && s2.buffer == c && s1.messages == s0.messages && s2.messages == s0.messages
        }),
{
}

/// Command argument propagation: a generate command fills the allowed buffer
/// with the fixed fill byte up to `min(allowed_len, n)` bytes, records
/// exactly those bytes, and schedules exactly one upcall carrying that count.
pub proof fn lemma_gen_propagates_count(s: RngView, n: u32)
    ensures
        ({
            let (s2, ret, up) = rng_command_spec(s, RNG_COMMAND_GEN, n);
            let count = rng_fill_count(s, n);
            ret == CommandReturn::Success && up == Some((RNG_SUBSCRIBE_GEN, count as u32))
                && s2.messages.len() == count && (forall|k: int|
                0 <= k < count ==> s2.messages[k] == RNG_FILL_BYTE) && s2.buffer.len()
                == s.buffer.len() && (forall|k: int|
                0 <= k < count ==> s2.buffer[k] == RNG_FILL_BYTE) && (forall|k: int|
                count <= k < s.buffer.len() ==> s2.buffer[k] == s.buffer[k])
        }),
{
}

} // verus!
