use way_shell::logind::{
    brightness_call, capability_allowed, inhibitor_index, list_candidates, power_call,
    session_properties, session_queries, terminate_call, valid_brightness_target, InhibitError,
    InhibitStep, Inhibitor, LoginState, PowerAction, RequestError, SessionError, SessionPick,
    SessionQuery,
};
use way_shell::power::{
    primary_device, snapshot, AddOutcome, DeviceKind, DeviceProperties, DeviceState, Inventory,
    PowerDevice, PowerState,
};
use way_shell::power_profiles::{
    check_profile, parse_state, profile_icon, ProfileError, ProfilesState,
};
use way_shell::variant::{Ty, Value};

fn s(text: &str) -> Value {
    Value::Str(text.into())
}

fn no_properties() -> DeviceProperties {
    DeviceProperties {
        kind: None,
        native_path: None,
        vendor: None,
        model: None,
        serial: None,
        state: None,
        power_supply: None,
        is_present: None,
        rechargeable: None,
        online: None,
        time_to_empty: None,
        time_to_full: None,
        icon_name: None,
    }
}

fn device(kind: DeviceKind, present: bool, supply: bool) -> PowerDevice {
    let mut p = no_properties();
    p.kind = Some(kind.code());
    p.is_present = Some(present);
    p.power_supply = Some(supply);
    snapshot("/d", &p).unwrap()
}

#[test]
fn device_codes_round_trip() {
    for code in 0..10 {
        assert_eq!(DeviceKind::from_code(code).code(), code);
        assert_eq!(DeviceState::from_code(code).code(), code);
    }
    assert_eq!(DeviceKind::from_code(2), DeviceKind::Battery);
    assert_eq!(DeviceKind::from_code(7), DeviceKind::Other(7));
    assert_eq!(DeviceState::from_code(4), DeviceState::FullyCharged);
    assert!(DeviceState::Charging.is_charging());
    assert!(DeviceState::PendingCharge.is_charging());
    assert!(!DeviceState::Discharging.is_charging());
}

#[test]
fn snapshots_need_a_type_and_default_missing_values() {
    assert!(snapshot("/x", &no_properties()).is_none());
    let mut p = no_properties();
    p.kind = Some(1);
    p.time_to_empty = Some(-5);
    p.time_to_full = Some(60);
    p.vendor = Some("ACME".into());
    let d = snapshot("/org/freedesktop/UPower/devices/line_power_AC", &p).unwrap();
    assert_eq!(d.path, "/org/freedesktop/UPower/devices/line_power_AC");
    assert_eq!(d.kind, DeviceKind::LinePower);
    assert!(d.present);
    assert_eq!(d.state, DeviceState::Unknown);
    assert_eq!((d.time_to_empty, d.time_to_full), (0, 60));
    assert_eq!(d.vendor, "ACME");
    assert_eq!(d.model, "");
    assert!(!d.online && !d.power_supply && !d.rechargeable);
    p.kind = Some(2);
    assert!(!snapshot("/b", &p).unwrap().present);
}

#[test]
fn the_primary_device_is_a_system_battery_then_line_power() {
    let mouse = device(DeviceKind::Battery, true, false);
    let ac = device(DeviceKind::LinePower, true, true);
    let gone = device(DeviceKind::Battery, false, true);
    let battery = device(DeviceKind::Battery, true, true);
    assert_eq!(primary_device(&vec![mouse.clone(), ac.clone(), battery.clone()]), Some(2));
    assert_eq!(primary_device(&vec![mouse.clone(), gone.clone(), ac.clone()]), Some(2));
    assert_eq!(primary_device(&vec![mouse, gone]), None);
    assert_eq!(primary_device(&Vec::new()), None);
    let state = PowerState::default();
    assert!(!state.available && !state.on_battery);
}

#[test]
fn inventory_requests_each_path_once_and_lists_loaded_ones() {
    let mut inv = Inventory::new();
    assert_eq!(inv.add("/a", true), AddOutcome::Request);
    assert_eq!(inv.add("/a", true), AddOutcome::Known);
    assert_eq!(inv.add("/b", false), AddOutcome::NoOwner);
    assert_eq!(inv.add("/b", true), AddOutcome::Request);
    assert_eq!(inv.add("/c", true), AddOutcome::Request);
    inv.finish("/c", true);
    inv.finish("/a", true);
    inv.finish("/b", false);
    assert!(inv.is_loaded("/a") && !inv.is_loaded("/b"));
    assert_eq!(inv.listed(), vec!["/a".to_string(), "/c".to_string()]);
    assert_eq!(inv.order(), &vec!["/a".to_string(), "/b".to_string(), "/c".to_string()]);
    inv.remove("/a");
    assert!(inv.is_removed("/a"));
    assert_eq!(inv.listed(), vec!["/c".to_string()]);
    assert_eq!(inv.add("/a", true), AddOutcome::Request);
    assert!(!inv.is_removed("/a"));
    assert_eq!(inv.order(), &vec!["/b".to_string(), "/c".to_string(), "/a".to_string()]);
    inv.reset();
    assert!(inv.order().is_empty());
    assert!(!inv.is_loaded("/c"));
}

fn profiles(names: &[&str]) -> Value {
    Value::Array(
        Ty::VarDict,
        names
            .iter()
            .map(|n| Value::Dict(vec![("Profile".to_string(), s(n)), ("Driver".to_string(), s("x"))]))
            .collect(),
    )
}

#[test]
fn profile_states_keep_first_occurrences() {
    let state = parse_state(Some(&s("balanced")), Some(&profiles(&["power-saver", "balanced", "power-saver"])))
        .unwrap();
    assert_eq!(state.profiles, vec!["power-saver".to_string(), "balanced".to_string()]);
    assert_eq!(state.active.as_deref(), Some("balanced"));
    assert!(state.available());
    let idle = parse_state(Some(&s("")), Some(&profiles(&[]))).unwrap();
    assert_eq!(idle, ProfilesState::new());
    assert!(!idle.available());
    assert!(parse_state(Some(&Value::Int32(1)), Some(&profiles(&["a"]))).is_none());
    assert!(parse_state(Some(&s("a")), Some(&profiles(&[""]))).is_none());
    assert!(parse_state(None, Some(&profiles(&["a"]))).is_none());
    assert!(parse_state(Some(&s("a")), Some(&s("a"))).is_none());
}

#[test]
fn profile_requests_are_checked_before_sending() {
    let state = parse_state(Some(&s("balanced")), Some(&profiles(&["balanced", "performance"]))).unwrap();
    assert_eq!(check_profile(&state, true, "performance"), Ok(()));
    assert_eq!(check_profile(&state, true, "turbo"), Err(ProfileError::NotOffered));
    assert_eq!(check_profile(&state, false, "performance"), Err(ProfileError::Unavailable));
    assert_eq!(check_profile(&ProfilesState::new(), true, "balanced"), Err(ProfileError::Unavailable));
    assert_eq!(profile_icon(Some("performance")), "power-profile-performance-symbolic");
    assert_eq!(profile_icon(Some("power-saver")), "power-profile-power-saver-symbolic");
    assert_eq!(profile_icon(Some("custom")), "power-profile-balanced-symbolic");
    assert_eq!(profile_icon(None), "power-profile-balanced-symbolic");
}

#[test]
fn power_actions_name_their_methods() {
    let all = PowerAction::all();
    for (i, action) in all.iter().enumerate() {
        assert_eq!(action.index(), i);
    }
    assert_eq!(PowerAction::SuspendThenHibernate.method(), "SuspendThenHibernate");
    assert_eq!(PowerAction::HybridSleep.capability_method(), "CanHybridSleep");
    let mut state = LoginState::new();
    assert!(!state.can(PowerAction::Reboot));
    state.capabilities[PowerAction::Suspend.index()] = true;
    assert!(state.can(PowerAction::Suspend));
    assert!(capability_allowed(Some(&Value::Tuple(vec![s("yes")]))));
    assert!(!capability_allowed(Some(&Value::Tuple(vec![s("challenge")]))));
    assert!(!capability_allowed(Some(&s("yes"))));
    assert!(!capability_allowed(None));
}

#[test]
fn brightness_targets_are_class_devices() {
    assert!(valid_brightness_target("backlight", "intel_backlight"));
    assert!(valid_brightness_target("leds", "input3::capslock"));
    assert!(!valid_brightness_target("power_supply", "BAT0"));
    assert!(!valid_brightness_target("leds", ".."));
    assert!(!valid_brightness_target("leds", "a/b"));
    assert!(!valid_brightness_target("leds", "a\0b"));
    assert!(!valid_brightness_target("leds", ""));
}

fn session(uid: u32, id: &str, state: &str) -> Value {
    Value::Tuple(vec![Value::Dict(vec![
        ("User".to_string(), Value::Tuple(vec![Value::UInt32(uid), Value::ObjectPath("/u".into())])),
        ("Id".to_string(), s(id)),
        ("State".to_string(), s(state)),
    ])])
}

#[test]
fn sessions_belong_to_the_user_and_have_an_id() {
    assert_eq!(session_properties(&session(1000, "3", "active"), 1000), Ok(("3".into(), true)));
    assert_eq!(session_properties(&session(1000, "3", "online"), 1000), Ok(("3".into(), false)));
    assert_eq!(session_properties(&session(0, "3", "active"), 1000), Err(SessionError::OtherUser));
    assert_eq!(session_properties(&session(1000, "", "active"), 1000), Err(SessionError::MissingId));
    assert_eq!(session_properties(&s("x"), 1000), Err(SessionError::InvalidProperties));
    assert_eq!(session_queries(7, None), vec![SessionQuery::ByPid(7)]);
    assert_eq!(
        session_queries(7, Some("c2")),
        vec![SessionQuery::ByPid(7), SessionQuery::ById("c2".into())]
    );
}

fn row(uid: u32, seat: &str, path: &str) -> Value {
    Value::Tuple(vec![s("1"), Value::UInt32(uid), s("user"), s(seat), Value::ObjectPath(path.into())])
}

#[test]
fn listed_sessions_are_filtered_by_user_and_seat() {
    let reply = Value::Tuple(vec![Value::Array(
        Ty::Other("(susso)".into()),
        vec![row(1000, "seat0", "/s/1"), row(1001, "seat0", "/s/2"), row(1000, "", "/s/3"), row(1000, "seat1", "/s/4")],
    )]);
    assert_eq!(list_candidates(&reply, 1000), Ok(vec!["/s/1".to_string(), "/s/4".to_string()]));
    let bad = Value::Tuple(vec![Value::Array(Ty::Other("(susso)".into()), vec![row(1000, "seat0", "/s/1"), s("x")])]);
    assert_eq!(list_candidates(&bad, 1000), Err(SessionError::InvalidInventory));
    assert_eq!(list_candidates(&s("x"), 1000), Err(SessionError::InvalidInventory));
}

#[test]
fn exactly_one_active_session_is_picked() {
    let mut pick = SessionPick::new();
    assert_eq!(pick.take("/s/1", None), Ok(()));
    assert_eq!(pick.take("/s/2", Some(("2".into(), false))), Ok(()));
    assert_eq!(pick.take("/s/3", Some(("3".into(), true))), Ok(()));
    assert_eq!(pick.take("/s/4", Some(("4".into(), true))), Err(SessionError::Ambiguous));
    assert_eq!(pick.finish(), Ok(("/s/3".into(), "3".into())));
    assert_eq!(SessionPick::new().finish(), Err(SessionError::NotFound));
    assert!(SessionError::Ambiguous.message().contains("XDG_SESSION_ID"));
}

#[test]
fn stale_inhibitor_replies_are_ignored() {
    let mut inh = Inhibitor::new();
    assert_eq!(inh.set(true, false), InhibitStep::Idle);
    assert_eq!(inh.set(true, true), InhibitStep::Request(0));
    assert_eq!(inh.set(true, true), InhibitStep::Idle);
    assert_eq!(inh.set(false, true), InhibitStep::Release);
    assert!(!inh.reply(0, true));
    assert!(!inh.held);
    assert_eq!(inh.set(true, true), InhibitStep::Request(1));
    assert!(inh.reply(1, true));
    assert!(inh.held && !inh.requesting);
    inh.reset();
    assert!(!inh.held);
    assert!(!inh.reply(1, true));
    assert!(!inh.held && inh.generation == 2);
    assert_eq!(inh.set(true, true), InhibitStep::Request(2));
    inh.desired = false;
    assert!(!inh.reply(2, true));
    assert!(!inh.held);
}

#[test]
fn inhibitor_handles_index_the_descriptors() {
    let reply = Value::Tuple(vec![Value::Handle(0)]);
    assert_eq!(inhibitor_index(&reply, Some(1)), Ok(0));
    assert_eq!(inhibitor_index(&reply, Some(0)), Err(InhibitError::InvalidIndex));
    assert_eq!(inhibitor_index(&reply, None), Err(InhibitError::MissingDescriptor));
    assert_eq!(
        inhibitor_index(&Value::Tuple(vec![Value::Handle(-1)]), Some(3)),
        Err(InhibitError::InvalidIndex)
    );
    assert_eq!(
        inhibitor_index(&Value::Tuple(vec![Value::Int32(0)]), Some(1)),
        Err(InhibitError::InvalidReply)
    );
}

#[test]
fn login_requests_name_their_object_and_method_or_their_refusal() {
    let mut state = LoginState::new();
    assert_eq!(power_call(&state, PowerAction::Suspend), Err(RequestError::NotPermitted));
    state.capabilities[PowerAction::Suspend.index()] = true;
    let call = power_call(&state, PowerAction::Suspend).unwrap();
    assert_eq!(call.path, "/org/freedesktop/login1");
    assert_eq!(call.interface, "org.freedesktop.login1.Manager");
    assert_eq!(call.method, "Suspend");
    assert_eq!(terminate_call(None), Err(RequestError::NoSession));
    let call = terminate_call(Some("/org/freedesktop/login1/session/_32")).unwrap();
    assert_eq!(call.path, "/org/freedesktop/login1/session/_32");
    assert_eq!(call.method, "Terminate");
    assert_eq!(
        brightness_call(Some("/s"), "backlight", "../x"),
        Err(RequestError::InvalidDevice)
    );
    assert_eq!(brightness_call(None, "leds", "kbd"), Err(RequestError::NoSession));
    let call = brightness_call(Some("/s"), "leds", "kbd").unwrap();
    assert_eq!((call.path.as_str(), call.interface, call.method), ("/s", "org.freedesktop.login1.Session", "SetBrightness"));
    assert_eq!(RequestError::NoSession.message(), "No current login1 session is available");
}
