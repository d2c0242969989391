use way_shell::brightness::{
    device, parse, target, valid_name, Action, Active, BrightnessDevice, BrightnessError,
    ControlKind, RequestError, Requests, Started, MAX_PENDING,
};

fn dev(current: u32, maximum: u32) -> BrightnessDevice {
    BrightnessDevice { name: "intel_backlight".into(), current, maximum }
}

#[test]
fn sysfs_values_are_trimmed_decimal_numbers() {
    assert_eq!(parse(b"120\n"), Ok(120));
    assert_eq!(parse(b"  7 \t"), Ok(7));
    assert_eq!(parse("\u{a0}42\u{2003}".as_bytes()), Ok(42));
    assert_eq!(parse(b"4294967295"), Ok(u32::MAX));
    assert_eq!(parse(b"4294967296"), Err(BrightnessError::Invalid));
    assert_eq!(parse(b""), Err(BrightnessError::Invalid));
    assert_eq!(parse(b"1 2"), Err(BrightnessError::Invalid));
    assert_eq!(parse(b"-1"), Err(BrightnessError::Invalid));
    assert_eq!(parse(b"+1"), Err(BrightnessError::Invalid));
    assert_eq!(parse(&[b'1'; 65]), Err(BrightnessError::Oversized));
    assert_eq!(parse(&[b'0'; 64]), Ok(0));
}

#[test]
fn devices_read_maximum_then_current() {
    let d = device("acpi_video0", b"30\n", b"100\n").unwrap();
    assert_eq!(d, BrightnessDevice { name: "acpi_video0".into(), current: 30, maximum: 100 });
    assert_eq!(device("x", b"bad", b"also bad"), Err(BrightnessError::Invalid));
    assert_eq!(device("x", b"101", b"100"), Err(BrightnessError::OutOfRange));
    assert_eq!(device("x", b"0", b"0"), Err(BrightnessError::OutOfRange));
    assert_eq!(
        device("x", b"1", &[b'9'; 70]),
        Err(BrightnessError::Oversized)
    );
}

#[test]
fn device_names_cannot_leave_the_class_directory() {
    assert!(valid_name("intel_backlight"));
    assert!(valid_name("tpacpi::kbd_backlight"));
    assert!(valid_name("..."));
    assert!(!valid_name(""));
    assert!(!valid_name("."));
    assert!(!valid_name(".."));
    assert!(!valid_name("a/b"));
    assert!(!valid_name("a\nb"));
    assert!(!valid_name("a\u{85}b"));
}

#[test]
fn backlight_steps_are_a_twelfth_and_saturate() {
    let d = dev(50, 120);
    assert_eq!(target(Some(&d), ControlKind::Backlight, Action::Adjust(true)), Ok(60));
    assert_eq!(target(Some(&d), ControlKind::Backlight, Action::Adjust(false)), Ok(40));
    let top = dev(115, 120);
    assert_eq!(target(Some(&top), ControlKind::Backlight, Action::Adjust(true)), Ok(120));
    let low = dev(3, 120);
    assert_eq!(target(Some(&low), ControlKind::Backlight, Action::Adjust(false)), Ok(0));
    let tiny = dev(1, 5);
    assert_eq!(target(Some(&tiny), ControlKind::Backlight, Action::Adjust(true)), Ok(2));
    let huge = dev(u32::MAX - 1, u32::MAX);
    assert_eq!(target(Some(&huge), ControlKind::Backlight, Action::Adjust(true)), Ok(u32::MAX));
}

#[test]
fn keyboard_levels_cycle_and_undo() {
    let d = dev(2, 2);
    assert_eq!(target(Some(&d), ControlKind::Keyboard, Action::Adjust(true)), Ok(0));
    let zero = dev(0, 2);
    assert_eq!(target(Some(&zero), ControlKind::Keyboard, Action::Adjust(false)), Ok(2));
    for current in 0..=3 {
        let d = dev(current, 3);
        let up = target(Some(&d), ControlKind::Keyboard, Action::Adjust(true)).unwrap();
        let back = target(Some(&dev(up, 3)), ControlKind::Keyboard, Action::Adjust(false));
        assert_eq!(back, Ok(current));
    }
}

#[test]
fn explicit_values_are_bounded_and_a_device_is_needed() {
    let d = dev(5, 10);
    assert_eq!(target(Some(&d), ControlKind::Backlight, Action::Value(10)), Ok(10));
    assert_eq!(
        target(Some(&d), ControlKind::Keyboard, Action::Value(11)),
        Err(BrightnessError::ExceedsMaximum)
    );
    assert_eq!(
        target(None, ControlKind::Backlight, Action::Adjust(true)),
        Err(BrightnessError::NoDevice)
    );
}

#[test]
fn control_kinds_name_their_subsystem_and_setting() {
    assert_eq!(ControlKind::Backlight.index(), 0);
    assert_eq!(ControlKind::Keyboard.index(), 1);
    assert_eq!(ControlKind::Backlight.subsystem(), "backlight");
    assert_eq!(ControlKind::Keyboard.subsystem(), "leds");
    assert_eq!(ControlKind::Keyboard.setting(), "keyboard-backlight-directory");
    assert_eq!(
        BrightnessError::NoDevice.message(),
        "No configured brightness device is available"
    );
}

#[test]
fn requests_run_in_order_and_refused_ones_fail_first() {
    let d = dev(5, 10);
    let k = ControlKind::Backlight;
    let mut q = Requests::new();
    assert_eq!(q.submit(1, Action::Value(3), Some(&d), k, false, true), Ok(()));
    assert_eq!(q.submit(2, Action::Value(9), Some(&d), k, false, true), Ok(()));
    assert_eq!(q.submit(3, Action::Value(11), Some(&d), k, false, true),
        Err(RequestError::Refused(BrightnessError::ExceedsMaximum)));
    assert_eq!(q.submit(3, Action::Value(1), Some(&d), k, true, true), Err(RequestError::Cancelled));
    assert_eq!(q.submit(3, Action::Value(1), Some(&d), k, false, false), Err(RequestError::Unavailable));
    assert_eq!(q.submit(3, Action::Value(1), None, k, false, true),
        Err(RequestError::Refused(BrightnessError::NoDevice)));
    assert_eq!(q.pending_len(), 2);
    // The device shrank: the first request no longer fits and fails before the second starts.
    let smaller = dev(1, 2);
    let (failed, started) = q.start_next(Some(&dev(1, 9)), k, 70);
    assert!(failed.is_empty());
    assert_eq!(started, Some(Started { id: 70, token: 1, value: 3 }));
    assert_eq!(q.active(), Some(Active { id: 70, token: 1 }));
    assert_eq!(q.start_next(Some(&smaller), k, 71), (Vec::new(), None));
    assert!(q.is_current(0, 70));
    assert!(!q.is_current(0, 71));
    assert_eq!(q.complete(0, 71), None);
    assert_eq!(q.complete(0, 70), Some(1));
    assert_eq!(q.complete(0, 70), None);
    let (failed, started) = q.start_next(Some(&smaller), k, 72);
    assert_eq!(failed, vec![(2, BrightnessError::ExceedsMaximum)]);
    assert_eq!(started, None);
    assert_eq!(q.pending_len(), 0);
}

#[test]
fn queues_are_bounded() {
    let d = dev(5, 10);
    let mut q = Requests::new();
    for token in 0..MAX_PENDING as u64 {
        assert_eq!(q.submit(token, Action::Adjust(true), Some(&d), ControlKind::Keyboard, false, true), Ok(()));
    }
    assert_eq!(
        q.submit(99, Action::Adjust(true), Some(&d), ControlKind::Keyboard, false, true),
        Err(RequestError::Busy)
    );
    assert_eq!(q.pending_len(), MAX_PENDING);
}

#[test]
fn cancelling_hands_back_every_token_and_ends_the_generation() {
    let d = dev(5, 10);
    let k = ControlKind::Backlight;
    let mut q = Requests::new();
    q.submit(1, Action::Value(1), Some(&d), k, false, true).unwrap();
    q.submit(2, Action::Value(2), Some(&d), k, false, true).unwrap();
    q.submit(3, Action::Value(3), Some(&d), k, false, true).unwrap();
    q.start_next(Some(&d), k, 8);
    assert_eq!(q.cancel(), vec![1, 2, 3]);
    assert_eq!(q.generation(), 1);
    assert!(!q.is_current(0, 8));
    assert_eq!(q.complete(0, 8), None);
    assert!(q.cancel_operations().is_empty());
    assert_eq!(q.generation(), 1);
}
