use boot_core::harness::exit_qemu;
use boot_core::harness::test_panic_handler;
use boot_core::harness::ExitPort;
use boot_core::harness::TestCase;
use boot_core::harness::TrivialAssertion;
use boot_core::harness::EXIT_FAILED;
use boot_core::harness::EXIT_SUCCESS;
use boot_core::serial::usize_to_string;
use boot_core::serial::_print;
use boot_core::test_runner;
use boot_core::DebugChannel;
use boot_core::QemuExitCode;

#[test]
fn trivial_assertion_alone_passes() {
    let tests = vec![TrivialAssertion];
    let mut serial = DebugChannel::new();
    let mut port = ExitPort::new();
    test_runner(&tests, &mut serial, &mut port);
    assert_eq!(
        serial.transmitted,
        "Running 1 tests\ntrivial_assertion...\t[ok]\n"
    );
    assert_eq!(port.writes, vec![EXIT_SUCCESS]);
}

#[test]
fn all_passing_cases_report_ok_each() {
    let tests = vec![
        TestCase::Passing {
            name: "first".to_string(),
        },
        TestCase::Passing {
            name: "second".to_string(),
        },
        TestCase::Passing {
            name: "third".to_string(),
        },
    ];
    let mut serial = DebugChannel::new();
    let mut port = ExitPort::new();
    test_runner(&tests, &mut serial, &mut port);
    assert_eq!(
        serial.transmitted,
        "Running 3 tests\nfirst...\t[ok]\nsecond...\t[ok]\nthird...\t[ok]\n"
    );
    assert_eq!(serial.transmitted.matches("[ok]").count(), 3);
    assert_eq!(port.writes, vec![EXIT_SUCCESS]);
}

#[test]
fn fault_stops_the_run() {
    let tests = vec![
        TestCase::Passing {
            name: "first".to_string(),
        },
        TestCase::Faulting {
            name: "second".to_string(),
            message: "assertion failed".to_string(),
        },
        TestCase::Passing {
            name: "never_reached".to_string(),
        },
    ];
    let mut serial = DebugChannel::new();
    let mut port = ExitPort::new();
    test_runner(&tests, &mut serial, &mut port);
    assert_eq!(
        serial.transmitted,
        "Running 3 tests\nfirst...\t[ok]\nsecond...\t[failed]\n\nError: assertion failed\n\n"
    );
    assert_eq!(serial.transmitted.matches("[ok]").count(), 1);
    assert_eq!(serial.transmitted.matches("[failed]").count(), 1);
    assert!(!serial.transmitted.contains("never_reached"));
    assert_eq!(port.writes, vec![EXIT_FAILED]);
}

#[test]
fn fault_in_first_case_reports_no_ok() {
    let tests = vec![
        TestCase::Faulting {
            name: "boom".to_string(),
            message: "broke".to_string(),
        },
        TestCase::Passing {
            name: "later".to_string(),
        },
    ];
    let mut serial = DebugChannel::new();
    let mut port = ExitPort::new();
    test_runner(&tests, &mut serial, &mut port);
    assert_eq!(
        serial.transmitted,
        "Running 2 tests\nboom...\t[failed]\n\nError: broke\n\n"
    );
    assert_eq!(serial.transmitted.matches("[ok]").count(), 0);
    assert_eq!(port.writes, vec![EXIT_FAILED]);
}

#[test]
fn empty_run_succeeds_at_once() {
    let tests: Vec<TrivialAssertion> = Vec::new();
    let mut serial = DebugChannel::new();
    let mut port = ExitPort::new();
    test_runner(&tests, &mut serial, &mut port);
    assert_eq!(serial.transmitted, "Running 0 tests\n");
    assert_eq!(port.writes, vec![EXIT_SUCCESS]);
}

#[test]
fn exit_codes_match_the_device_contract() {
    assert_eq!(QemuExitCode::Success.code(), 0x10);
    assert_eq!(QemuExitCode::Failed.code(), 0x11);
    let mut port = ExitPort::new();
    exit_qemu(&mut port, QemuExitCode::Success);
    exit_qemu(&mut port, QemuExitCode::Failed);
    assert_eq!(port.writes, vec![0x10, 0x11]);
}

#[test]
fn panic_handler_reports_and_signals_failure() {
    let mut serial = DebugChannel::new();
    let mut port = ExitPort::new();
    test_panic_handler(&mut serial, &mut port, "page fault");
    assert_eq!(serial.transmitted, "[failed]\n\nError: page fault\n\n");
    assert_eq!(port.writes, vec![EXIT_FAILED]);
}

#[test]
fn serial_prints_accumulate_in_order() {
    let mut serial = DebugChannel::new();
    serial.serial_print("abc");
    serial.serial_println("def");
    _print(&mut serial, "ghi");
    serial.serial_print_number(42);
    assert_eq!(serial.transmitted, "abcdef\nghi42");
}

#[test]
fn decimal_rendering_is_exact() {
    assert_eq!(usize_to_string(0), "0");
    assert_eq!(usize_to_string(7), "7");
    assert_eq!(usize_to_string(10), "10");
    assert_eq!(usize_to_string(12345), "12345");
    assert_eq!(usize_to_string(1000), "1000");
}
