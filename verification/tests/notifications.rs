use way_shell::notifications::{
    action_invoked, actions_from_pairs, capabilities, closed_signal, desktop_fallback, image_candidates, internal_request,
    name_request, notify_desktop_entry, ownership, unavailable_error, Connect, NameSession,
    NameStep, parse_hints, parse_request, resolve_app_name, Action,
    CloseReason, Origin, Ownership,
};
use way_shell::variant::{Ty, Value};

fn s(text: &str) -> Value {
    Value::Str(text.into())
}

fn entries(list: Vec<(&str, Value)>) -> Vec<(String, Value)> {
    list.into_iter().map(|(k, v)| (k.to_string(), v)).collect()
}

fn image(width: i32, data: Vec<u8>) -> Value {
    Value::Tuple(vec![
        Value::Int32(width),
        Value::Int32(1),
        Value::Int32(4),
        Value::Bool(true),
        Value::Int32(8),
        Value::Int32(4),
        Value::Array(Ty::Byte, data.into_iter().map(Value::Byte).collect()),
    ])
}

#[test]
fn hint_types_aliases_and_ownership() {
    for alias in ["image-data", "image_data", "icon_data"] {
        let values = entries(vec![
            (alias, image(1, vec![1, 2, 3, 4])),
            ("category", s("email.arrived")),
            ("desktop-entry", s("example")),
            ("image_path", s("file:///cover.png")),
            ("action-icons", Value::Bool(true)),
            ("resident", Value::Bool(true)),
            ("transient", Value::Bool(true)),
            ("urgency", Value::Byte(2)),
        ]);
        let hints = parse_hints(&values);
        assert_eq!(image_candidates(&values)[0].data, [1, 2, 3, 4]);
        assert_eq!(hints.category.as_deref(), Some("email.arrived"));
        assert_eq!(hints.desktop_entry.as_deref(), Some("example"));
        assert_eq!(hints.image_path.as_deref(), Some("file:///cover.png"));
        assert!(hints.action_icons && hints.resident && hints.transient);
        assert_eq!(hints.urgency, 2);
    }
    let wrong_values = entries(vec![
        ("image-data", s("bad image")),
        ("category", Value::Bool(true)),
        ("desktop-entry", Value::UInt32(7)),
        ("image-path", Value::Bool(false)),
        ("action-icons", s("true")),
        ("resident", Value::Byte(1)),
        ("transient", Value::Int32(3)),
        ("urgency", s("critical")),
    ]);
    let wrong = parse_hints(&wrong_values);
    assert_eq!(wrong, parse_hints(&Vec::new()));
    assert!(image_candidates(&wrong_values).is_empty());
    assert_eq!(wrong.category, None);
    assert!(!wrong.resident && !wrong.transient && !wrong.action_icons);
    assert_eq!(wrong.urgency, 0);
}

#[test]
fn empty_application_falls_back_to_desktop_entry_and_incomplete_actions_are_ignored() {
    let parameters = Value::Tuple(vec![
        s(""),
        Value::UInt32(0),
        s(""),
        s("Title"),
        s("Body"),
        Value::Array(Ty::Str, vec![s("reply"), s("Reply"), s("dangling")]),
        Value::Dict(entries(vec![(
            "desktop-entry",
            s("way-shell-nonexistent-test-entry-c0874d39"),
        )])),
        Value::Int32(-1),
    ]);
    // No desktop file is installed under that name, so no display name is found.
    assert_eq!(
        notify_desktop_entry(&parameters).as_deref(),
        Some("way-shell-nonexistent-test-entry-c0874d39")
    );
    let request = parse_request(&parameters, None).unwrap();
    assert_eq!(request.app_name, "way-shell-nonexistent-test-entry-c0874d39");
    assert_eq!(
        request.actions,
        [Action {
            key: "reply".into(),
            label: "Reply".into()
        }]
    );
    assert!(parse_request(&s("invalid request"), None).is_none());
}

#[test]
fn named_applications_keep_their_name() {
    let parameters = Value::Tuple(vec![
        s("Mail"),
        Value::UInt32(5),
        s("mail-icon"),
        s("New mail"),
        s(""),
        Value::Array(Ty::Str, vec![]),
        Value::Dict(entries(vec![("desktop-entry", s("mail"))])),
        Value::Int32(3000),
    ]);
    assert_eq!(notify_desktop_entry(&parameters), None);
    let request = parse_request(&parameters, Some("Ignored")).unwrap();
    assert_eq!(request.app_name, "Mail");
    assert_eq!(request.replaces_id, 5);
    assert_eq!(request.app_icon, "mail-icon");
    assert_eq!(request.expire_timeout, 3000);
    assert_eq!(request.origin, Origin::External);
    assert_eq!(desktop_fallback(&request), None);
    let internal = internal_request(request);
    assert_eq!(internal.origin, Origin::Internal);
    assert!(internal.actions.is_empty());
    assert_eq!(internal.summary, "New mail");
}

#[test]
fn mistyped_arguments_are_refused() {
    let mut fields = vec![
        s("app"),
        Value::UInt32(0),
        s(""),
        s("t"),
        s("b"),
        Value::Array(Ty::Str, vec![]),
        Value::Dict(vec![]),
        Value::Int32(0),
    ];
    assert!(parse_request(&Value::Tuple(fields.clone_values()), None).is_some());
    fields[1] = Value::Int32(0);
    assert!(parse_request(&Value::Tuple(fields.clone_values()), None).is_none());
    fields[1] = Value::UInt32(0);
    fields[5] = Value::Array(Ty::Int32, vec![Value::Int32(1)]);
    assert!(parse_request(&Value::Tuple(fields.clone_values()), None).is_none());
    fields.truncate(7);
    assert!(parse_request(&Value::Tuple(fields), None).is_none());
}

trait CloneValues {
    fn clone_values(&self) -> Vec<Value>;
}

impl CloneValues for Vec<Value> {
    fn clone_values(&self) -> Vec<Value> {
        self.iter().map(copy_value).collect()
    }
}

fn copy_value(v: &Value) -> Value {
    match v {
        Value::Str(t) => Value::Str(t.clone()),
        Value::UInt32(u) => Value::UInt32(*u),
        Value::Int32(i) => Value::Int32(*i),
        Value::Dict(e) => Value::Dict(e.iter().map(|(k, v)| (k.clone(), copy_value(v))).collect()),
        Value::Array(Ty::Str, xs) => Value::Array(Ty::Str, xs.iter().map(copy_value).collect()),
        Value::Array(Ty::Int32, xs) => Value::Array(Ty::Int32, xs.iter().map(copy_value).collect()),
        _ => panic!("value not used here"),
    }
}

#[test]
fn image_candidates_keep_hint_order() {
    let values = entries(vec![
        ("icon_data", image(3, vec![3; 4])),
        ("image-data", image(1, vec![1; 4])),
        ("image_data", s("not an image")),
    ]);
    let found = image_candidates(&values);
    assert_eq!(found.len(), 2);
    assert_eq!(found[0].width, 1);
    assert_eq!(found[1].width, 3);
    assert!(found[0].alpha);
    assert_eq!((found[0].bits, found[0].channels, found[0].rowstride), (8, 4, 4));
}

#[test]
fn image_path_prefers_the_current_hint_name() {
    let hints = parse_hints(&entries(vec![
        ("image_path", s("old")),
        ("image-path", s("new")),
    ]));
    assert_eq!(hints.image_path.as_deref(), Some("new"));
}

#[test]
fn actions_pair_keys_with_labels() {
    let values: Vec<String> = vec!["a".into(), "A".into(), "b".into(), "B".into()];
    let actions = actions_from_pairs(&values);
    assert_eq!(actions.len(), 2);
    assert_eq!(actions[1], Action { key: "b".into(), label: "B".into() });
    assert!(actions_from_pairs(&vec!["lonely".into()]).is_empty());
}

#[test]
fn close_reasons_and_ownership_codes() {
    assert_eq!(CloseReason::Expired.code(), 1);
    assert_eq!(CloseReason::Dismissed.code(), 2);
    assert_eq!(CloseReason::Requested.code(), 3);
    assert_eq!(CloseReason::Undefined.code(), 4);
    assert_eq!(ownership(Some(1)), Ownership::Acquired);
    assert_eq!(ownership(Some(4)), Ownership::Acquired);
    assert_eq!(ownership(Some(2)), Ownership::Waiting);
    assert_eq!(ownership(Some(3)), Ownership::Waiting);
    assert_eq!(ownership(Some(5)), Ownership::Invalid);
    assert_eq!(ownership(None), Ownership::Invalid);
}

#[test]
fn capabilities_are_announced_in_order() {
    assert_eq!(
        capabilities(),
        [
            "action-icons",
            "actions",
            "body",
            "body-hyperlinks",
            "body-images",
            "body-markup",
            "icon-multi",
            "icon-static",
            "persistence"
        ]
    );
}

#[test]
fn an_installed_desktop_entry_lends_its_display_name() {
    let parameters = Value::Tuple(vec![
        s(""),
        Value::UInt32(0),
        s(""),
        s("Title"),
        s("Body"),
        Value::Array(Ty::Str, vec![]),
        Value::Dict(entries(vec![("desktop-entry", s("org.example.Mail"))])),
        Value::Int32(-1),
    ]);
    let request = parse_request(&parameters, Some("Example Mail")).unwrap();
    assert_eq!(request.app_name, "Example Mail");
    let raw = parse_request(&parameters, None).unwrap();
    assert_eq!(raw.app_name, "org.example.Mail");
    assert_eq!(resolve_app_name(&raw, Some("Other")), "org.example.Mail");
    let empty_entry = Value::Tuple(vec![
        s(""),
        Value::UInt32(0),
        s(""),
        s("Title"),
        s("Body"),
        Value::Array(Ty::Str, vec![]),
        Value::Dict(entries(vec![("desktop-entry", s(""))])),
        Value::Int32(-1),
    ]);
    assert_eq!(notify_desktop_entry(&empty_entry), None);
    assert_eq!(parse_request(&empty_entry, Some("X")).unwrap().app_name, "");
}

#[test]
fn the_name_is_owned_only_through_the_current_connection() {
    assert_eq!(name_request(), ("org.freedesktop.Notifications", 0));
    assert_eq!(
        unavailable_error(),
        ("org.freedesktop.DBus.Error.Disconnected", "Notification service is unavailable")
    );
    let mut session = NameSession::new();
    assert_eq!(session.start(false), Connect::OpenBus(0));
    assert_eq!(session.start(false), Connect::Nothing);
    assert!(!session.bus_opened(7, true));
    assert!(session.bus_opened(0, true));
    let tag = session.attached();
    assert_eq!(tag, 1);
    assert!(!session.accepts_calls());
    assert_eq!(session.name_reply(tag, Some(3)), NameStep::Waiting);
    assert!(!session.accepts_calls());
    assert!(session.owner_changed(true));
    assert!(session.accepts_calls());
    assert_eq!(session.name_reply(tag, Some(1)), NameStep::Owned(false));
    assert_eq!(session.name_reply(0, Some(1)), NameStep::Ignore);
    assert_eq!(session.closed(false), (true, true));
    assert!(!session.accepts_calls() && session.retrying);
    assert_eq!(session.retry_fired(false), Connect::OpenBus(2));
    assert!(session.bus_opened(2, true));
    let tag = session.attached();
    assert_eq!(session.name_reply(tag, Some(9)), NameStep::Failed);
    assert!(session.retrying && !session.connected && !session.owned);
    assert!(!session.stop());
    assert_eq!(session.retry_fired(false), Connect::Nothing);
}

fn action(key: &str, label: &str) -> Action {
    Action { key: key.to_string(), label: label.to_string() }
}

#[test]
fn only_external_notifications_report_their_closing() {
    assert_eq!(closed_signal(Origin::External, 7, CloseReason::Dismissed), Some((7, 2)));
    assert_eq!(closed_signal(Origin::External, 9, CloseReason::Expired), Some((9, 1)));
    assert_eq!(closed_signal(Origin::Internal, 7, CloseReason::Dismissed), None);
    assert_eq!(closed_signal(Origin::Internal, 7, CloseReason::Requested), None);
}

#[test]
fn only_declared_actions_of_existing_notifications_are_invoked() {
    let actions = vec![action("default", "Open"), action("reply", "Reply")];
    assert!(action_invoked(Some(&actions), "reply", true));
    assert!(action_invoked(Some(&actions), "default", true));
    assert!(!action_invoked(Some(&actions), "delete", true));
    assert!(!action_invoked(Some(&actions), "reply", false));
    assert!(!action_invoked(None, "reply", true));
}

#[test]
fn internal_notifications_stay_off_the_bus() {
    let parameters = Value::Tuple(vec![
        s("Mail"),
        Value::UInt32(0),
        s(""),
        s("New mail"),
        s(""),
        Value::Array(Ty::Str, vec![s("default"), s("Open")]),
        Value::Dict(vec![]),
        Value::Int32(-1),
    ]);
    let request = parse_request(&parameters, None).unwrap();
    assert_eq!(request.actions.len(), 1);
    assert!(action_invoked(Some(&request.actions), "default", true));
    let internal = internal_request(request);
    assert_eq!(closed_signal(internal.origin, 3, CloseReason::Dismissed), None);
    assert!(!action_invoked(Some(&internal.actions), "default", true));
}
