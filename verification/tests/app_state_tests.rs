use libtock_sim::app_state::AppState;
use libtock_sim::constants::{APP_STATE_DRIVER_NUM, APP_STATE_SUBSCRIBE_WRITE};
use libtock_sim::error::ErrorCode;
use libtock_sim::fake::{Driver, Kernel};
use libtock_sim::scope::open_scope;

// Helper mirroring the client pattern: wait once, then check that our own
// upcall really arrived.
fn _yield(kernel: &mut Kernel) -> Result<(), ErrorCode> {
    kernel.yield_wait();
    match kernel.take_upcall(APP_STATE_DRIVER_NUM, APP_STATE_SUBSCRIBE_WRITE) {
        Some(_) => Ok(()),
        None => Err(ErrorCode::Fail),
    }
}

// Test if the driver is present.
#[test]
fn no_driver() {
    let mut kernel = Kernel::new();
    assert!(!AppState::driver_check(&mut kernel));
}

#[test]
fn driver_check() {
    let mut kernel = Kernel::new();
    let driver = libtock_sim::fake::app_state::AppState::new();
    kernel.add_driver(Driver::AppState(driver));

    assert!(AppState::driver_check(&mut kernel));
    assert_eq!(kernel.take_app_state_bytes(), Vec::<u8>::new());
}

// Test saving a 32-bit integer to flash. The save succeeds, but by the time
// the write command runs the client's bytes are no longer allowed (locating
// the region reverted its share), so zero bytes reach flash and the load
// reads back the store's zeroed contents.
#[test]
fn save_and_load_u32() {
    let mut kernel = Kernel::new();
    let driver = libtock_sim::fake::app_state::AppState::new();
    kernel.add_driver(Driver::AppState(driver));

    let mut state = AppState::new();
    let num: u32 = 42;
    let ram: Vec<u8> = num.to_le_bytes().to_vec();

    let mut scope = open_scope();
    let (ram_back, save_ret) = state.save(&mut kernel, &mut scope, ram);
    let ret: Result<(), ErrorCode> = match save_ret {
        Ok(()) => _yield(&mut kernel),
        Err(e) => Err(e),
    };
    let _bufs = scope.close(&mut kernel);
    assert_eq!(ret, Ok(()));
    ret.expect("Save failed");

    let mut ram = ram_back;
    state.load_sync(&mut kernel, &mut ram).expect("Load failed");
    assert_eq!(u32::from_le_bytes([ram[0], ram[1], ram[2], ram[3]]), 0);
}
