use vstd::prelude::*;
use crate::constants::{
    APP_STATE_ALLOW_WRITE, APP_STATE_COMMAND_WRITE_FLASH, APP_STATE_DRIVER_NUM,
    APP_STATE_NUM_UPCALLS, APP_STATE_SUBSCRIBE_WRITE, COMMAND_DRIVER_CHECK,
};
use crate::error::{CommandReturn, ErrorCode};

verus! {

/// The fake flash-backed persistent-state driver.
///
/// It owns one read-only allow slot; a write-flash command copies the allowed
/// bytes into the simulated flash store at the 32-bit address given as the
/// first command argument, records the bytes it wrote, and schedules one
/// upcall carrying the count.
pub struct AppState {
    /// The flash address the last write command targeted.
    pub flash_ptr: u32,
    /// A test-settable header word; tests working with wider host values may
    /// park high-order bits here.
    pub header: usize,
    /// The bytes the last write command copied to flash, until a test takes
    /// them.
    pub flash_buffer: Vec<u8>,
    /// The currently allowed read-only buffer; the zero-length sentinel
    /// stands for "nothing allowed".
    pub buffer: Vec<u8>,
}

/// The mathematical value of a fake [`AppState`] driver.
#[verifier::ext_equal]
pub ghost struct AppStateView {
    pub flash_ptr: u32,
    pub header: usize,
    pub flash_buffer: Seq<u8>,
    pub buffer: Seq<u8>,
}

impl View for AppState {
    type V = AppStateView;

    open spec fn view(&self) -> AppStateView {
        AppStateView {
            flash_ptr: self.flash_ptr,
            header: self.header,
            flash_buffer: self.flash_buffer@,
            buffer: self.buffer@,
        }
    }
}

/// What exchanging the read-only buffer at `buffer_num` does to the driver:
/// a strict swap at the one offered slot, a rejection (returning the caller's
/// buffer untouched) at every other index.
pub open spec fn app_state_allow_spec(s: AppStateView, buffer_num: u32, b: Seq<u8>) -> (
    AppStateView,
    Result<Seq<u8>, (Seq<u8>, ErrorCode)>,
) {
    if buffer_num == APP_STATE_ALLOW_WRITE {
        (AppStateView { buffer: b, ..s }, Ok(s.buffer))
    } else {
        (s, Err((b, ErrorCode::Invalid)))
    }
}

/// Whether a write of `size` bytes at address `addr` stays within the
/// simulated flash store, which is based at `base` and `flash_len` bytes
/// long.
pub open spec fn flash_write_ok(base: u32, flash_len: int, addr: u32, size: int) -> bool {
    addr >= base && size <= u32::MAX && addr - base + size <= flash_len
}

/// The flash store after writing `data` at offset `off`.
pub open spec fn flash_write(flash: Seq<u8>, off: int, data: Seq<u8>) -> Seq<u8> {
    Seq::new(
        flash.len(),
        |i: int| if off <= i < off + data.len() { data[i - off] } else { flash[i] },
    )
}

/// What a command does to the driver and to the flash store: the driver state
/// and flash afterwards, the returned value, and the upcall (slot, payload)
/// it schedules, if any. A write-flash command whose target range does not
/// lie within the flash store fails with `Invalid` and changes nothing.
pub open spec fn app_state_command_spec(
    s: AppStateView,
    flash_base: u32,
    flash: Seq<u8>,
    command_id: u32,
    argument0: u32,
) -> (AppStateView, Seq<u8>, CommandReturn, Option<(u32, u32)>) {
    if command_id == COMMAND_DRIVER_CHECK {
        (s, flash, CommandReturn::Success, None)
    } else if command_id == APP_STATE_COMMAND_WRITE_FLASH {
        let size = s.buffer.len() as int;
        if flash_write_ok(flash_base, flash.len() as int, argument0, size) {
            (
                AppStateView { flash_ptr: argument0, flash_buffer: s.buffer, ..s },
                flash_write(flash, argument0 - flash_base, s.buffer),
                CommandReturn::Success,
                Some((APP_STATE_SUBSCRIBE_WRITE, size as u32)),
            )
        } else {
            (s, flash, CommandReturn::Failure(ErrorCode::Invalid), None)
        }
    } else {
        (s, flash, CommandReturn::Failure(ErrorCode::NoSupport), None)
    }
}

impl AppState {
    /// A fresh driver: no write recorded, nothing allowed.
    pub fn new() -> (r: AppState)
        ensures
            r@ == (AppStateView {
                flash_ptr: 0,
                header: 0,
                flash_buffer: Seq::<u8>::empty(),
                buffer: Seq::<u8>::empty(),
            }),
    {
        let r = AppState { flash_ptr: 0, header: 0, flash_buffer: Vec::new(), buffer: Vec::new() };
        proof {
            assert(r@ =~= AppStateView {
                flash_ptr: 0,
                header: 0,
                flash_buffer: Seq::<u8>::empty(),
                buffer: Seq::<u8>::empty(),
            });
        }
        r
    }

    /// Returns the bytes the last write command copied to flash, and clears
    /// them.
    pub fn take_bytes(&mut self) -> (r: Vec<u8>)
        ensures
            r@ == old(self)@.flash_buffer,
            final(self)@ == (AppStateView { flash_buffer: Seq::<u8>::empty(), ..old(self)@ }),
    {
        let mut taken: Vec<u8> = Vec::new();
        core::mem::swap(&mut self.flash_buffer, &mut taken);
        proof {
            assert(self@ =~= AppStateView { flash_buffer: Seq::<u8>::empty(), ..old(self)@ });
        }
        taken
    }

    /// Sets the test-settable header word.
    pub fn set_header(&mut self, val: usize)
        ensures
            final(self)@ == (AppStateView { header: val, ..old(self)@ }),
    {
        self.header = val;
        proof {
            assert(self@ =~= AppStateView { header: val, ..old(self)@ });
        }
    }

    /// The driver id this driver registers under.
    pub fn id(&self) -> (r: u32)
        ensures
            r == APP_STATE_DRIVER_NUM,
    {
        APP_STATE_DRIVER_NUM
    }

    /// The number of distinct upcall slots this driver may schedule into.
    pub fn num_upcalls(&self) -> (r: u32)
        ensures
            r == APP_STATE_NUM_UPCALLS,
    {
        APP_STATE_NUM_UPCALLS
    }

    /// Exchanges the read-only buffer at `buffer_num`, as
    /// [`app_state_allow_spec`] says.
    pub fn allow_readonly(&mut self, buffer_num: u32, buffer: Vec<u8>) -> (r: Result<
        Vec<u8>,
        (Vec<u8>, ErrorCode),
    >)
        ensures
            ({
                let (s2, res) = app_state_allow_spec(old(self)@, buffer_num, buffer@);
                final(self)@ == s2 && (match (r, res) {
                    (Ok(v), Ok(sv)) => v@ == sv,
                    (Err((v, e)), Err((sv, se))) => v@ == sv && e == se,
                    _ => false,
                })
            }),
    {
        if buffer_num == APP_STATE_ALLOW_WRITE {
            let mut b = buffer;
            core::mem::swap(&mut self.buffer, &mut b);
            proof {
                assert(self@ =~= app_state_allow_spec(old(self)@, buffer_num, buffer@).0);
            }
            Ok(b)
        } else {
            Err((buffer, ErrorCode::Invalid))
        }
    }

    /// Runs one command against the driver and the flash store, as
    /// [`app_state_command_spec`] says.
    pub fn command(
        &mut self,
        flash_base: u32,
        flash: &mut Vec<u8>,
        command_id: u32,
        argument0: u32,
        _argument1: u32,
    ) -> (r: (CommandReturn, Option<(u32, u32)>))
        ensures
            ({
                let (s2, fl2, ret, up) = app_state_command_spec(
                    old(self)@,
                    flash_base,
                    old(flash)@,
                    command_id,
                    argument0,
                );
                final(self)@ == s2 && final(flash)@ == fl2 && r.0 == ret && r.1 == up
            }),
    {
        if command_id == COMMAND_DRIVER_CHECK {
            (CommandReturn::Success, None)
        } else if command_id == APP_STATE_COMMAND_WRITE_FLASH {
            let ghost orig = self@;
            let ghost orig_flash = flash@;
            let size: usize = self.buffer.len();
            // Range check: the write must stay within the flash store.
            let in_range: bool = if argument0 < flash_base {
                false
            } else if size > u32::MAX as usize {
                false
            } else {
                let off: usize = (argument0 - flash_base) as usize;
                off <= flash.len() && size <= flash.len() - off
            };
            if !in_range {
                proof {
                    assert(!flash_write_ok(
                        flash_base,
                        orig_flash.len() as int,
                        argument0,
                        size as int,
                    ));
                }
                return (CommandReturn::Failure(ErrorCode::Invalid), None);
            }
            let off: usize = (argument0 - flash_base) as usize;
            self.flash_ptr = argument0;
            self.flash_buffer.clear();
            let mut j: usize = 0;
            while j < size
                invariant
                    j <= size,
                    size == self.buffer.len(),
                    self@.buffer == orig.buffer,
                    self@.flash_ptr == argument0,
                    self@.header == orig.header,
                    self@.flash_buffer.len() == j,
                    forall|k: int| 0 <= k < j ==> self@.flash_buffer[k] == orig.buffer[k],
                decreases size - j,
            {
                let byte = self.buffer[j];
                self.flash_buffer.push(byte);
                j += 1;
            }
            let mut i: usize = 0;
            while i < size
                invariant
                    i <= size,
                    size == self.buffer.len(),
                    off + size <= flash@.len(),
                    flash@.len() <= usize::MAX,
                    self@ == (AppStateView {
                        flash_ptr: argument0,
                        flash_buffer: orig.buffer,
                        ..orig
                    }),
                    flash@.len() == orig_flash.len(),
                    forall|k: int| 0 <= k < i ==> flash@[off + k] == orig.buffer[k],
                    forall|k: int|
                        0 <= k < flash@.len() && !(off <= k < off + i) ==> flash@[k]
                            == orig_flash[k],
                decreases size - i,
            {
                let byte = self.buffer[i];
                flash[off + i] = byte;
                i += 1;
            }
            proof {
                assert(self@.flash_buffer =~= orig.buffer);
                assert(self@ =~= AppStateView {
                    flash_ptr: argument0,
                    flash_buffer: orig.buffer,
                    ..orig
                });
                assert(flash@ =~= flash_write(orig_flash, off as int, orig.buffer));
            }
            (CommandReturn::Success, Some((APP_STATE_SUBSCRIBE_WRITE, size as u32)))
        } else {
            (CommandReturn::Failure(ErrorCode::NoSupport), None)
        }
    }
}

} // verus!
