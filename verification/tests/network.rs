use way_shell::network::{
    activate_plan, disconnect_plan, join_calls, join_target, scan_plan, vpn_plan, AccessPoint,
    ActiveConnection, Device, JoinTarget, NetworkCall, NetworkError, NetworkState,
    SavedConnection, WIFI,
};
use way_shell::network::{CallStep, NetworkRequests};

fn wifi(id: &str, state: u32, active: Option<&str>) -> Device {
    Device {
        id: id.into(),
        interface: "wlan0".into(),
        description: String::new(),
        kind: WIFI,
        state,
        managed: true,
        carrier: false,
        available_connections: Vec::new(),
        active_connection: active.map(String::from),
    }
}

fn ap(id: &str, device: &str, ssid: &[u8]) -> AccessPoint {
    AccessPoint {
        id: id.into(),
        device: device.into(),
        ssid: ssid.to_vec(),
        name: String::from_utf8_lossy(ssid).into_owned(),
        strength: 50,
        flags: 0,
        wpa_flags: 0,
        rsn_flags: 0,
        active: false,
    }
}

fn saved(id: &str, kind: &str, ssid: Option<&[u8]>) -> SavedConnection {
    SavedConnection {
        id: id.into(),
        uuid: "u".into(),
        name: id.into(),
        kind: kind.into(),
        ssid: ssid.map(|s| s.to_vec()),
        last_used: 0,
    }
}

fn state() -> NetworkState {
    let mut s = NetworkState::new();
    s.available = true;
    s.wireless_enabled = true;
    s.devices = vec![wifi("/D/1", 30, None)];
    s.access_points = vec![
        ap("/AP/1", "/D/1", b"home"),
        ap("/AP/2", "/D/1", &[0, 0]),
        ap("/AP/3", "/D/1", b"cafe"),
    ];
    s.connections = vec![
        saved("/S/1", "802-11-wireless", Some(b"other")),
        saved("/S/2", "802-11-wireless", Some(b"home")),
        saved("/S/3", "vpn", None),
        saved("/S/4", "wireguard", None),
    ];
    s
}

#[test]
fn joining_reuses_the_saved_profile_for_the_ssid() {
    let s = state();
    let t = join_target(&s, "/D/1", "/AP/1", Some("secret")).unwrap();
    assert_eq!(t, JoinTarget { access_point: 0, saved: Some(1) });
    assert_eq!(
        join_calls(&s, t, "/D/1", Some("secret")),
        Ok(vec![
            NetworkCall::UpdatePassword { path: "/S/2".into(), password: "secret".into() },
            NetworkCall::Activate { connection: "/S/2".into(), device: "/D/1".into() },
        ])
    );
    assert_eq!(
        join_calls(&s, t, "/D/1", None),
        Ok(vec![NetworkCall::Activate { connection: "/S/2".into(), device: "/D/1".into() }])
    );
}

#[test]
fn joining_a_new_network_adds_a_profile() {
    let s = state();
    let t = join_target(&s, "/D/1", "/AP/3", None).unwrap();
    assert_eq!(t.saved, None);
    assert_eq!(
        join_calls(&s, t, "/D/1", None),
        Ok(vec![NetworkCall::AddAndActivate {
            name: "cafe".into(),
            ssid: b"cafe".to_vec(),
            password: None,
            device: "/D/1".into()
        }])
    );
    assert_eq!(join_calls(&s, t, "not a path", None), Err(NetworkError::InvalidPath));
}

#[test]
fn join_errors_cover_missing_access_points_ssids_and_passwords() {
    let s = state();
    assert_eq!(join_target(&s, "/D/2", "/AP/1", None), Err(NetworkError::AccessPointGone));
    assert_eq!(join_target(&s, "/D/1", "/AP/9", None), Err(NetworkError::AccessPointGone));
    assert_eq!(join_target(&s, "/D/1", "/AP/2", None), Err(NetworkError::NoSsid));
    assert_eq!(join_target(&s, "/D/1", "/AP/1", Some("a\0b")), Err(NetworkError::NulPassword));
    assert_eq!(
        NetworkError::NulPassword.message(),
        "Wi-Fi password contains a NUL byte"
    );
}

#[test]
fn activation_checks_profiles_devices_and_paths() {
    let s = state();
    assert_eq!(
        activate_plan(&s, "/S/1", Some("/D/1")),
        Ok(NetworkCall::Activate { connection: "/S/1".into(), device: "/D/1".into() })
    );
    assert_eq!(
        activate_plan(&s, "/S/4", Some("/D/1")),
        Ok(NetworkCall::Activate { connection: "/S/4".into(), device: "/".into() })
    );
    assert_eq!(
        activate_plan(&s, "/S/1", None),
        Ok(NetworkCall::Activate { connection: "/S/1".into(), device: "/".into() })
    );
    assert_eq!(activate_plan(&s, "/S/1", Some("/D/9")), Err(NetworkError::DeviceGone));
    assert_eq!(activate_plan(&s, "/S/9", None), Err(NetworkError::SavedGone));
}

#[test]
fn disconnect_and_scan_plans() {
    let mut s = state();
    assert_eq!(disconnect_plan(&s, "/D/1"), Ok(Vec::new()));
    s.devices[0].active_connection = Some("/A/1".into());
    assert_eq!(
        disconnect_plan(&s, "/D/1"),
        Ok(vec![NetworkCall::Deactivate { active: "/A/1".into() }])
    );
    s.devices[0].active_connection = Some("bad".into());
    assert_eq!(disconnect_plan(&s, "/D/1"), Err(NetworkError::InvalidPath));
    assert_eq!(disconnect_plan(&s, "/D/2"), Err(NetworkError::DeviceGone));
    assert_eq!(scan_plan(&s, "/D/1"), Ok(NetworkCall::RequestScan { device: "/D/1".into() }));
    s.devices[0].kind = 1;
    assert_eq!(scan_plan(&s, "/D/1"), Err(NetworkError::WifiGone));
}

fn active(id: &str, connection: &str) -> ActiveConnection {
    ActiveConnection {
        id: id.into(),
        connection: Some(connection.into()),
        name: String::new(),
        kind: "vpn".into(),
        state: 2,
        devices: Vec::new(),
    }
}

#[test]
fn vpn_plans_activate_on_the_primary_device_or_deactivate_every_instance() {
    let mut s = state();
    s.primary = Some("/D/1".into());
    assert_eq!(
        vpn_plan(&s, "/S/3", true),
        Ok(vec![NetworkCall::Activate { connection: "/S/3".into(), device: "/D/1".into() }])
    );
    assert_eq!(
        vpn_plan(&s, "/S/4", true),
        Ok(vec![NetworkCall::Activate { connection: "/S/4".into(), device: "/".into() }])
    );
    assert_eq!(vpn_plan(&s, "/S/1", true), Err(NetworkError::VpnGone));
    s.active_connections = vec![active("/A/1", "/S/3"), active("/A/2", "/S/4"), active("/A/3", "/S/3")];
    assert_eq!(
        vpn_plan(&s, "/S/3", false),
        Ok(vec![
            NetworkCall::Deactivate { active: "/A/1".into() },
            NetworkCall::Deactivate { active: "/A/3".into() },
        ])
    );
    s.active_connections.push(active("bad", "/S/3"));
    assert_eq!(vpn_plan(&s, "/S/3", false), Err(NetworkError::InvalidPath));
    assert!(s.connections[2].is_vpn() && s.connections[3].is_vpn() && !s.connections[0].is_vpn());
}

#[test]
fn wifi_state_summarises_devices() {
    let mut s = state();
    assert!(s.has_wifi());
    assert_eq!(s.wifi_state(), 30);
    s.devices.push(wifi("/D/2", 50, None));
    assert_eq!(s.wifi_state(), 40);
    s.devices.push(wifi("/D/3", 100, None));
    assert_eq!(s.wifi_state(), 100);
    s.wireless_enabled = false;
    assert_eq!(s.wifi_state(), 30);
    assert_eq!(NetworkState::new().wifi_state(), 0);
    assert!(!NetworkState::new().has_wifi());
}

#[test]
fn a_new_networkmanager_owner_cancels_what_is_in_flight() {
    let mut requests = NetworkRequests::new();
    assert!(requests.owner_seen(":1.5") .is_empty());
    assert_eq!(requests.generation, 1);
    assert_eq!(requests.begin(false), None);
    assert_eq!(requests.begin(true), Some((0, 1)));
    assert_eq!(requests.begin(true), Some((1, 1)));
    assert_eq!(requests.step(1, false, false, true), CallStep::Next);
    assert_eq!(requests.step(1, false, true, true), CallStep::Failed);
    assert_eq!(requests.step(1, false, false, false), CallStep::Done);
    requests.finish(0);
    assert_eq!(requests.in_flight, vec![1]);
    assert!(requests.owner_seen(":1.5").is_empty());
    assert_eq!(requests.owner_seen(":1.9"), vec![1]);
    assert_eq!(requests.generation, 2);
    assert_eq!(requests.step(1, false, false, true), CallStep::Cancelled);
    assert_eq!(requests.step(2, true, false, true), CallStep::Cancelled);
}
