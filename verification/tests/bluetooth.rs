use way_shell::bluetooth::{
    airplane_restore, blocked, connectable, decode_radio, encode_radio, finish_outcome, listed,
    overrides_airplane, retry_power, toggle_plan, transient, Finish, RadioChange, MAX_RETRIES,
    RFKILL_BLUETOOTH,
};

fn record(index: u32, kind: u8, op: u8, soft: u8, hard: u8) -> [u8; 8] {
    let n = index.to_ne_bytes();
    [n[0], n[1], n[2], n[3], kind, op, soft, hard]
}

#[test]
fn rfkill_records_decode_in_native_byte_order() {
    assert_eq!(
        decode_radio(&record(0x0102_0304, RFKILL_BLUETOOTH, 0, 1, 0)),
        Some(RadioChange::Blocks { id: 0x0102_0304, soft: true, hard: false })
    );
    assert_eq!(
        decode_radio(&record(7, RFKILL_BLUETOOTH, 2, 0, 1)),
        Some(RadioChange::Blocks { id: 7, soft: false, hard: true })
    );
    assert_eq!(
        decode_radio(&record(9, RFKILL_BLUETOOTH, 1, 0, 0)),
        Some(RadioChange::Removed { id: 9 })
    );
    assert_eq!(decode_radio(&record(9, 1, 0, 1, 1)), None);
}

#[test]
fn rfkill_requests_encode_in_native_byte_order() {
    let r = encode_radio(2, 0x0a0b_0c0d, true);
    assert_eq!(r, record(0x0a0b_0c0d, RFKILL_BLUETOOTH, 2, 1, 0));
    assert_eq!(
        decode_radio(&r),
        Some(RadioChange::Blocks { id: 0x0a0b_0c0d, soft: true, hard: false })
    );
    let all = encode_radio(3, 0, false);
    assert_eq!(all[4..], [RFKILL_BLUETOOTH, 3, 0, 0]);
}

#[test]
fn a_manual_unblock_overrides_airplane_mode() {
    let unblock = record(1, RFKILL_BLUETOOTH, 2, 0, 0);
    assert!(overrides_airplane(true, false, &unblock));
    assert!(!overrides_airplane(false, false, &unblock));
    assert!(!overrides_airplane(true, true, &unblock));
    assert!(!overrides_airplane(true, false, &record(1, RFKILL_BLUETOOTH, 2, 1, 0)));
    assert!(!overrides_airplane(true, false, &record(1, 1, 2, 0, 0)));
}

#[test]
fn blocks_are_soft_or_hard() {
    let radios = vec![(0, false, true), (1, false, false)];
    assert!(blocked(&radios, true));
    assert!(!blocked(&radios, false));
    assert!(!blocked(&Vec::new(), true));
}

#[test]
fn devices_offer_connectable_profiles() {
    assert!(connectable(&vec!["0000110B-0000-1000-8000-00805F9B34FB".into()]));
    assert!(connectable(&vec![
        "00001800-0000-1000-8000-00805f9b34fb".into(),
        "00001812-0000-1000-8000-00805f9b34fb".into()
    ]));
    assert!(connectable(&vec!["03B80E5A-EDE8-4B33-A751-6CE34EC4C700".into()]));
    assert!(!connectable(&vec!["00001800-0000-1000-8000-00805f9b34fb".into()]));
    assert!(!connectable(&Vec::new()));
    assert!(listed(true, false, false, true, true));
    assert!(listed(false, true, true, false, true));
    assert!(!listed(false, false, true, true, true));
    assert!(!listed(true, true, false, false, true));
    assert!(!listed(true, true, true, true, false));
}

#[test]
fn transient_failures_are_retried_within_limits() {
    assert!(transient(Some("org.bluez.Error.Busy"), ""));
    assert!(transient(Some("org.bluez.Error.NotReady"), "x"));
    assert!(transient(Some("org.bluez.Error.Failed"), "Adapter is blocked by rfkill"));
    assert!(transient(Some("org.bluez.Error.Failed"), "Blocked"));
    assert!(!transient(Some("org.bluez.Error.Failed"), "No such adapter"));
    assert!(!transient(Some("org.bluez.Error.AuthenticationFailed"), "blocked"));
    assert!(!transient(None, "blocked"));
    assert!(retry_power(true, true, false, false, MAX_RETRIES - 1, true, true));
    assert!(!retry_power(true, true, false, false, MAX_RETRIES, true, true));
    assert!(!retry_power(true, true, true, false, 0, true, true));
    assert!(!retry_power(true, true, false, true, 0, true, true));
    assert!(!retry_power(true, true, false, false, 0, false, true));
    assert!(!retry_power(false, true, false, false, 0, true, true));
}

#[test]
fn airplane_restore_puts_back_present_radios() {
    let r = airplane_restore(false, &vec![(1, true), (2, false), (3, true)], &vec![3, 1], &vec![false, true]);
    assert_eq!(r.all, Some(false));
    assert_eq!(r.power, Some(true));
    assert_eq!(r.radios, vec![(1, true), (3, true)]);
    let r = airplane_restore(false, &vec![(1, true)], &Vec::new(), &vec![false]);
    assert_eq!(r.all, Some(true));
    assert_eq!(r.power, Some(false));
    assert!(r.radios.is_empty());
    let r = airplane_restore(false, &Vec::new(), &Vec::new(), &Vec::new());
    assert_eq!((r.all, r.power), (None, None));
    let r = airplane_restore(true, &vec![(1, true)], &vec![1], &vec![true]);
    assert_eq!((r.all, r.power, r.radios.len()), (None, None, 0));
}

use way_shell::bluetooth::{power_plan, power_request, PowerError, PowerRequest};
use way_shell::bluetooth::{judge_request, PendingAction, PendingTable};

#[test]
fn power_requests_check_switches_and_service() {
    assert_eq!(
        power_request(true, true, true, false, false, true, false),
        Err(PowerError::HardwareBlocked)
    );
    assert_eq!(
        power_request(false, true, false, false, false, true, false),
        Err(PowerError::Unavailable)
    );
    assert_eq!(
        power_request(false, true, true, true, false, true, true),
        Ok(PowerRequest { block_after_off: true, cancel_connections: true, unblock_all: false })
    );
    assert_eq!(
        power_request(false, false, true, true, true, true, false),
        Ok(PowerRequest { block_after_off: false, cancel_connections: true, unblock_all: false })
    );
    assert_eq!(
        power_request(true, false, true, false, false, true, true),
        Ok(PowerRequest { block_after_off: false, cancel_connections: false, unblock_all: true })
    );
    assert_eq!(
        power_request(true, false, true, false, false, false, true),
        Ok(PowerRequest { block_after_off: false, cancel_connections: false, unblock_all: false })
    );
    assert_eq!(PowerError::HardwareBlocked.message(), "Bluetooth is disabled by a hardware switch");
}

fn adapters(list: &[(&str, bool)]) -> Vec<(String, bool)> {
    list.iter().map(|(p, b)| (p.to_string(), *b)).collect()
}

#[test]
fn power_plans_drive_covered_adapters_to_their_targets() {
    let all = adapters(&[("/hci0", false), ("/hci1", true)]);
    let (calls, done) = power_plan(&all, None, true, &Vec::new(), false, false);
    assert_eq!(calls, adapters(&[("/hci0", true)]));
    assert!(!done);
    let (calls, done) = power_plan(&all, None, true, &vec!["/hci0".to_string()], false, false);
    assert!(calls.is_empty());
    assert!(!done);
    let on = adapters(&[("/hci0", true), ("/hci1", true)]);
    assert_eq!(power_plan(&on, None, true, &Vec::new(), false, false), (Vec::new(), true));
    assert_eq!(power_plan(&on, None, true, &Vec::new(), true, false), (Vec::new(), false));
    assert_eq!(power_plan(&on, None, true, &Vec::new(), false, true), (Vec::new(), false));
    assert_eq!(power_plan(&Vec::new(), None, true, &Vec::new(), false, false), (Vec::new(), false));
    assert_eq!(power_plan(&Vec::new(), None, false, &Vec::new(), false, false), (Vec::new(), true));
    // A saved set restores only its adapters, each to its saved state.
    let saved = adapters(&[("/hci1", false), ("/hci2", true)]);
    let (calls, done) = power_plan(&all, Some(&saved), true, &Vec::new(), true, false);
    assert_eq!(calls, adapters(&[("/hci1", false)]));
    assert!(!done);
    let restored = adapters(&[("/hci0", false), ("/hci1", false)]);
    assert_eq!(power_plan(&restored, Some(&saved), true, &Vec::new(), true, false), (Vec::new(), true));
    let none_saved = adapters(&[("/hci9", true)]);
    assert_eq!(power_plan(&restored, Some(&none_saved), true, &Vec::new(), false, false), (Vec::new(), false));
}

#[test]
fn device_clicks_connect_or_disconnect_unless_refused() {
    assert_eq!(
        toggle_plan(false, false, true, false, false, "Headphones"),
        Some((true, "Could not connect to Headphones".to_string()))
    );
    assert_eq!(
        toggle_plan(false, false, true, false, true, "Mouse"),
        Some((false, "Could not disconnect Mouse".to_string()))
    );
    assert_eq!(toggle_plan(true, false, true, false, false, "x"), None);
    assert_eq!(toggle_plan(false, true, true, false, false, "x"), None);
    assert_eq!(toggle_plan(false, false, false, false, false, "x"), None);
    assert_eq!(toggle_plan(false, false, true, true, false, "x"), None);
}

#[test]
fn finished_requests_report_failures_short_of_their_target() {
    assert_eq!(
        finish_outcome(true, false, false, Some("Timeout"), "Could not connect to Mouse"),
        Finish::Failed("Could not connect to Mouse: Timeout".to_string())
    );
    assert_eq!(finish_outcome(true, false, true, Some("Timeout"), "d"), Finish::Succeeded);
    assert_eq!(finish_outcome(true, false, false, None, "d"), Finish::Succeeded);
    assert_eq!(finish_outcome(false, false, false, Some("e"), "d"), Finish::Ignore);
    assert_eq!(finish_outcome(true, true, false, Some("e"), "d"), Finish::Ignore);
}

#[test]
fn only_the_latest_request_on_an_object_counts() {
    let mut table = PendingTable::new();
    let adapter = "/org/bluez/hci0";
    let device = "/org/bluez/hci0/dev_00";
    assert_eq!(table.call(adapter, PendingAction::Power(true)), (0, None));
    assert_eq!(table.call(device, PendingAction::Connection(true)), (1, None));
    assert_eq!(table.on(device), Some((1, PendingAction::Connection(true))));
    assert_eq!(table.call(adapter, PendingAction::Power(false)), (2, Some(0)));
    assert!(!table.is_current(adapter, 0));
    assert!(table.is_current(adapter, 2));
    assert_eq!(
        judge_request(&table, adapter, 0, PendingAction::Power(true), false, true, true, false, true, false),
        (false, true)
    );
    assert_eq!(
        judge_request(&table, adapter, 2, PendingAction::Power(false), false, true, true, false, true, false),
        (true, false)
    );
    table.finish(adapter, 0);
    assert!(table.is_current(adapter, 2));
    table.finish(adapter, 2);
    assert_eq!(table.on(adapter), None);
    assert_eq!(table.cancel(device), Some(1));
    assert_eq!(table.cancel(device), None);
}
