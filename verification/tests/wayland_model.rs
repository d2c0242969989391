use way_shell::wayland::model::{
    bind_version, check_temperature, ignored, interface_maximum, version, GammaError, Toplevel,
};

#[test]
fn states_are_counted_as_u32_values_and_unknown_states_are_ignored() {
    let mut top = Toplevel::default();
    top.apply_state(&2_u32.to_ne_bytes()).unwrap();
    assert!(top.active && top.activation_event);
    assert!(!top.maximized);
    let bytes: Vec<u8> = [0_u32, 1, 3, u32::MAX]
        .into_iter()
        .flat_map(u32::to_ne_bytes)
        .collect();
    top.apply_state(&bytes).unwrap();
    assert!(top.maximized && top.minimized && top.fullscreen);
    assert!(!top.active && !top.activation_event);
    top.apply_state(&[]).unwrap();
    assert!(!top.maximized && !top.minimized && !top.fullscreen);
}

#[test]
fn malformed_state_does_not_partially_replace_valid_state() {
    let mut top = Toplevel {
        active: true,
        ..Default::default()
    };
    assert!(top.apply_state(&[2, 0, 0]).is_err());
    assert!(top.active);
}

#[test]
fn advertised_versions_are_capped_and_zero_is_rejected() {
    assert_eq!(version(0, 4), None);
    assert_eq!(version(1, 4), Some(1));
    assert_eq!(version(99, 4), Some(4));
    assert_eq!(version(u32::MAX, 1), Some(1));
}

#[test]
fn incomplete_and_ignored_toplevels_are_filtered_by_exact_name() {
    let apps = ignored("hidden:org.example.Ignore");
    let titles = ignored("Secrets:ignored 日本語");
    let mut top = Toplevel::default();
    assert!(!top.visible(&apps, &titles));
    top.app_id = Some("org.example.Visible".into());
    top.title = Some("Visible 日本語".into());
    assert!(top.visible(&apps, &titles));
    top.title = Some("Secrets".into());
    assert!(!top.visible(&apps, &titles));
    top.title = Some("Other".into());
    top.app_id = Some("hidden".into());
    assert!(!top.visible(&apps, &titles));
    assert!(top.visible(&ignored(""), &ignored("")));
}

#[test]
fn state_values_are_read_in_native_byte_order() {
    let mut top = Toplevel::default();
    let mut bytes = Vec::new();
    bytes.extend_from_slice(&3_u32.to_ne_bytes());
    bytes.extend_from_slice(&7_u32.to_ne_bytes());
    top.apply_state(&bytes).unwrap();
    assert!(top.fullscreen);
    assert!(!top.maximized && !top.minimized && !top.active);
    // The same bytes swapped are a value the window ignores.
    let swapped: Vec<u8> = 3_u32.to_ne_bytes().iter().rev().copied().collect();
    top.apply_state(&swapped).unwrap();
    assert!(!top.fullscreen);
}

#[test]
fn apply_state_keeps_identity_and_entered_flag() {
    let mut top = Toplevel {
        id: 9,
        app_id: Some("app".into()),
        entered_event: true,
        ..Default::default()
    };
    top.apply_state(&1_u32.to_ne_bytes()).unwrap();
    assert!(top.minimized);
    assert_eq!(top.id, 9);
    assert_eq!(top.app_id.as_deref(), Some("app"));
    assert!(top.entered_event);
}

#[test]
fn ignore_settings_name_each_piece_once_in_order() {
    assert_eq!(ignored("a::b:"), vec!["", "a", "b"]);
    assert_eq!(ignored("b:a:b"), vec!["a", "b"]);
    assert_eq!(ignored("Zed:alpha:Ärger:zed"), vec!["Zed", "alpha", "zed", "Ärger"]);
    assert_eq!(ignored("single"), vec!["single"]);
    assert!(ignored("").is_empty());
}

#[test]
fn interfaces_are_bound_at_capped_versions() {
    assert_eq!(interface_maximum("wl_output"), Some(4));
    assert_eq!(interface_maximum("wl_seat"), Some(7));
    assert_eq!(interface_maximum("zwlr_foreign_toplevel_manager_v1"), Some(3));
    assert_eq!(interface_maximum("wl_compositor"), None);
    assert_eq!(bind_version("wl_seat", 9), Some(7));
    assert_eq!(bind_version("wl_seat", 5), Some(5));
    assert_eq!(bind_version("wl_seat", 0), None);
    assert_eq!(bind_version("zwlr_gamma_control_manager_v1", 2), Some(1));
    assert_eq!(bind_version("wl_shm", 1), None);
}

#[test]
fn temperature_requests_are_range_checked_before_support() {
    assert_eq!(check_temperature(999, true), Err(GammaError::OutOfRange));
    assert_eq!(check_temperature(25001, false), Err(GammaError::OutOfRange));
    assert_eq!(check_temperature(1000, false), Err(GammaError::Unsupported));
    assert_eq!(check_temperature(25000, true), Ok(()));
    assert!(GammaError::OutOfRange.message().contains("1000"));
}
