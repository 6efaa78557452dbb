use libtock_sim::constants::{RNG_COMMAND_GEN, RNG_DRIVER_NUM, RNG_SUBSCRIBE_GEN};
use libtock_sim::error::{CommandReturn, ErrorCode};
use libtock_sim::expected::ExpectedSyscall;
use libtock_sim::fake::{Driver, Kernel};
use libtock_sim::rng::Rng;
use libtock_sim::scope::open_scope;

// Helper mirroring the client pattern: wait once, then check that our own
// upcall really arrived.
fn _yield(kernel: &mut Kernel) -> Result<(), ErrorCode> {
    kernel.yield_wait();
    match kernel.take_upcall(RNG_DRIVER_NUM, RNG_SUBSCRIBE_GEN) {
        Some(_) => Ok(()),
        None => Err(ErrorCode::Fail),
    }
}

#[test]
fn tests_no_driver() {
    let mut kernel = Kernel::new();
    assert!(!Rng::driver_check(&mut kernel));
}

#[test]
fn tests_driver_check() {
    let mut kernel = Kernel::new();
    let driver = libtock_sim::fake::rng::Rng::new();
    kernel.add_driver(Driver::Rng(driver));

    assert!(Rng::driver_check(&mut kernel));
    assert_eq!(kernel.take_rng_bytes(), Vec::<u8>::new());
}

// We only check the buffer contents; randomness is the real capsule's
// business, the fake driver fills deterministically.
#[test]
fn gen_bytes() {
    let mut kernel = Kernel::new();
    let driver = libtock_sim::fake::rng::Rng::new();
    kernel.add_driver(Driver::Rng(driver));

    let mut buffer = vec![0u8; 4];
    let num = buffer.len() as u32;
    Rng::gen(&mut kernel, &mut buffer, num).unwrap();
    assert_eq!(kernel.take_rng_bytes(), vec![12, 12, 12, 12]);
}

#[test]
fn gen_bytes_async() {
    let mut kernel = Kernel::new();
    let driver = libtock_sim::fake::rng::Rng::new();
    kernel.add_driver(Driver::Rng(driver));

    let buffer = vec![0u8; 4];
    let num = buffer.len() as u32;

    let mut scope = open_scope();
    let _prev = Rng::gen_async(&mut kernel, &mut scope, buffer, num).unwrap();
    let _ret = _yield(&mut kernel);
    let _bufs = scope.close(&mut kernel);

    assert_eq!(kernel.take_rng_bytes(), vec![12, 12, 12, 12]);
}

#[test]
fn gen_bytes_async_mult() {
    let mut kernel = Kernel::new();
    let driver = libtock_sim::fake::rng::Rng::new();
    kernel.add_driver(Driver::Rng(driver));

    let buffer = vec![0u8; 4];
    let buffer2 = vec![1u8; 3];
    let num = buffer.len() as u32;
    let num2 = buffer2.len() as u32;

    let mut scope = open_scope();
    let _prev = Rng::gen_async(&mut kernel, &mut scope, buffer, num).unwrap();
    // The second allow is a strict swap: the first buffer, already filled,
    // comes back to the caller.
    let buffer_back = Rng::gen_async(&mut kernel, &mut scope, buffer2, num2).unwrap();
    let _r1 = _yield(&mut kernel);
    let _r2 = _yield(&mut kernel);
    let mut bufs = scope.close(&mut kernel);
    let buffer2_back = bufs.pop().unwrap();

    assert_eq!(kernel.take_rng_bytes(), vec![12, 12, 12]);
    assert_eq!(buffer2_back, vec![12, 12, 12]);
    assert_eq!(buffer_back, vec![12, 12, 12, 12]);
}

#[test]
fn failed_gen() {
    let mut kernel = Kernel::new();
    let driver = libtock_sim::fake::rng::Rng::new();
    let mut buffer = vec![0u8; 4];
    let size = buffer.len();
    kernel.add_driver(Driver::Rng(driver));

    kernel.add_expected_syscall(ExpectedSyscall::AllowRw {
        driver_num: RNG_DRIVER_NUM,
        buffer_num: RNG_SUBSCRIBE_GEN,
        return_error: None,
    });
    kernel.add_expected_syscall(ExpectedSyscall::Subscribe {
        driver_num: RNG_DRIVER_NUM,
        subscribe_num: RNG_SUBSCRIBE_GEN,
        skip_with_error: None,
    });
    kernel.add_expected_syscall(ExpectedSyscall::Command {
        driver_id: RNG_DRIVER_NUM,
        command_id: RNG_COMMAND_GEN,
        argument0: buffer.len() as u32,
        argument1: 0,
        override_return: Some(CommandReturn::Failure(ErrorCode::Fail)),
    });

    assert_eq!(Rng::gen(&mut kernel, &mut buffer, size as u32), Err(ErrorCode::Fail));
    // The fake driver still receives the command even if a fake error is injected.
    assert_eq!(kernel.take_rng_bytes(), vec![12, 12, 12, 12]);
}

#[test]
fn small_buffer() {
    let mut kernel = Kernel::new();
    let driver = libtock_sim::fake::rng::Rng::new();
    let mut buffer = vec![0u8; 4];
    kernel.add_driver(Driver::Rng(driver));
    assert_eq!(Rng::gen(&mut kernel, &mut buffer, 5u32), Err(ErrorCode::BadRVal));
}
