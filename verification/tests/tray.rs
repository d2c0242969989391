use way_shell::tray::item::{
    object_path_valid, parse_item, parse_pixmap_values, parse_pixmaps, ItemKey,
};
use way_shell::tray::menu::{
    about_to_show_check, activate_check, can_activate, has_action, parse_layout, MenuError,
    MenuRequestError, MenuSession, MenuState, MAX_DEPTH, MAX_LABEL_BYTES, MAX_NODES,
};
use way_shell::tray::watcher::{
    bus_name_valid, command_call, item_signal_refreshes, watcher_request, ItemCommand,
    Orientation, WatcherError, WatcherRequest,
};
use way_shell::variant::{Ty, Value};

fn s(text: &str) -> Value {
    Value::Str(text.into())
}

fn bytes(data: Vec<u8>) -> Value {
    Value::Array(Ty::Byte, data.into_iter().map(Value::Byte).collect())
}

fn pixmap_ty() -> Ty {
    Ty::Tuple(vec![Ty::Int32, Ty::Int32, Ty::Array(Box::new(Ty::Byte))])
}

fn pixmaps(values: Vec<(i32, i32, Vec<u8>)>) -> Value {
    Value::Array(
        pixmap_ty(),
        values
            .into_iter()
            .map(|(w, h, d)| Value::Tuple(vec![Value::Int32(w), Value::Int32(h), bytes(d)]))
            .collect(),
    )
}

#[test]
fn images_validate_dimensions_storage_and_keep_largest_argb_variant() {
    let values: Vec<(i32, i32, Vec<u8>)> = vec![
        (-1, 2, vec![0; 8]),
        (i32::MAX, i32::MAX, vec![0; 4]),
        (0, 1, vec![]),
        (1, 0, vec![]),
        (2, 2, vec![0; 15]),
        (1, 1, vec![255, 1, 2, 3]),
        (2, 1, vec![0x80, 0x11, 0x22, 0x33, 0x40, 0x44, 0x55, 0x66]),
    ];
    let image = parse_pixmaps(&pixmaps(values)).unwrap();
    assert_eq!((image.width, image.height), (2, 1));
    assert_eq!(image.pixels, [0x11, 0x22, 0x33, 0x80, 0x44, 0x55, 0x66, 0x40]);
    assert!(parse_pixmaps(&s("malformed")).is_none());
    assert!(parse_pixmaps(&pixmaps(vec![(1, 1, vec![0_u8; 5])])).is_none());
}

#[test]
fn equal_sized_pixmaps_keep_the_first() {
    let image = parse_pixmap_values(vec![
        (1, 1, vec![1, 2, 3, 4]),
        (1, 1, vec![5, 6, 7, 8]),
    ])
    .unwrap();
    assert_eq!(image.pixels, [2, 3, 4, 1]);
    assert!(parse_pixmap_values(Vec::new()).is_none());
}

fn props(list: Vec<(&str, Value)>) -> Vec<(String, Value)> {
    list.into_iter().map(|(k, v)| (k.to_string(), v)).collect()
}

fn tooltip(title: &str) -> Value {
    Value::Tuple(vec![s("tooltip"), pixmaps(vec![]), s(title), s("Description")])
}

#[test]
fn metadata_keeps_independent_icons_and_clears_invalid_optional_properties() {
    let base = vec![
        ("Id", s("")),
        ("Status", s("Active")),
        ("IconName", s("primary")),
        ("OverlayIconName", s("overlay")),
        ("AttentionIconName", s("attention")),
        ("IconThemePath", s("/icons")),
        ("WindowId", Value::Int32(-1)),
    ];
    let key = ItemKey {
        owner: ":1.42".into(),
        path: "/Item".into(),
    };
    let mut first = props(base.clone_entries());
    first.push(("ItemIsMenu".into(), Value::Bool(true)));
    first.push(("ToolTip".into(), tooltip("Title")));
    let item = parse_item(key.clone(), &first).unwrap();
    assert_eq!(
        (
            item.icon.name.as_str(),
            item.overlay.name.as_str(),
            item.attention.name.as_str()
        ),
        ("primary", "overlay", "attention")
    );
    assert_eq!(item.window_id, u32::MAX);
    assert_eq!(item.tooltip.title, "Title");
    assert!(item.item_is_menu);
    let mut second = props(base.clone_entries());
    second.push(("ToolTip".into(), Value::Int32(42)));
    second.push(("ItemIsMenu".into(), s("invalid")));
    let item = parse_item(key, &second).unwrap();
    assert_eq!(item.tooltip.title, "");
    assert_eq!(item.tooltip.description, "");
    assert_eq!(item.tooltip.icon.name, "");
    assert!(item.tooltip.icon.pixmap.is_none());
    assert!(!item.item_is_menu);
}

trait CloneEntries {
    fn clone_entries(&self) -> Vec<(&'static str, Value)>;
}

impl CloneEntries for Vec<(&'static str, Value)> {
    fn clone_entries(&self) -> Vec<(&'static str, Value)> {
        self.iter()
            .map(|(k, v)| {
                let copy = match v {
                    Value::Str(t) => Value::Str(t.clone()),
                    Value::Int32(i) => Value::Int32(*i),
                    _ => panic!("value not used here"),
                };
                (*k, copy)
            })
            .collect()
    }
}

#[test]
fn items_need_text_id_and_status_and_a_real_menu_path() {
    let key = ItemKey { owner: ":1.7".into(), path: "/StatusNotifierItem".into() };
    assert!(parse_item(key.clone(), &props(vec![("Id", s("x"))])).is_none());
    assert!(parse_item(key.clone(), &props(vec![("Id", Value::Int32(1)), ("Status", s("Active"))])).is_none());
    let item = parse_item(
        key.clone(),
        &props(vec![
            ("Id", s("app")),
            ("Status", s("Passive")),
            ("Menu", Value::ObjectPath("/MenuBar".into())),
            ("WindowId", Value::UInt32(77)),
            ("IconPixmap", pixmaps(vec![(1, 1, vec![9, 1, 2, 3])])),
        ]),
    )
    .unwrap();
    assert_eq!(item.menu_path.as_deref(), Some("/MenuBar"));
    assert_eq!(item.window_id, 77);
    assert_eq!(item.icon.pixmap.unwrap().pixels, [1, 2, 3, 9]);
    assert_eq!(item.key.registration(), ":1.7/StatusNotifierItem");
    let item = parse_item(
        key,
        &props(vec![("Id", s("app")), ("Status", s("Active")), ("Menu", s("/"))]),
    )
    .unwrap();
    assert!(item.menu_path.is_none());
    assert_eq!(item.window_id, 0);
}

#[test]
fn object_paths_are_checked() {
    assert!(object_path_valid("/"));
    assert!(object_path_valid("/org/a_b/C1"));
    assert!(!object_path_valid(""));
    assert!(!object_path_valid("/a//b"));
    assert!(!object_path_valid("/a/"));
    assert!(!object_path_valid("/a-b"));
    assert!(!object_path_valid("a/b"));
}

fn node(id: i32, properties: Vec<(&str, Value)>, children: Vec<Value>) -> Value {
    Value::Tuple(vec![
        Value::Int32(id),
        Value::Dict(props(properties)),
        Value::Array(
            Ty::Variant,
            children.into_iter().map(|c| Value::Variant(Box::new(c))).collect(),
        ),
    ])
}

fn leaf(id: i32) -> Value {
    node(id, vec![], vec![])
}

fn nested(depth: usize) -> Value {
    let mut root = leaf(depth as i32);
    for id in (0..depth).rev() {
        root = node(id as i32, vec![], vec![root]);
    }
    root
}

#[test]
fn defaults_and_ignored_negative_nodes_preserve_existing_layout_semantics() {
    let layout = node(
        0,
        vec![],
        vec![
            node(
                -1,
                vec![("label", Value::Int32(42))],
                vec![s("ignored invalid child")],
            ),
            node(
                1,
                vec![("label", s("_Open")), ("enabled", Value::Bool(false))],
                vec![],
            ),
            node(2, vec![("type", s("separator"))], vec![]),
            node(
                3,
                vec![("label", s("Submenu"))],
                vec![node(4, vec![("visible", Value::Bool(false))], vec![])],
            ),
        ],
    );
    let root = parse_layout(&layout).unwrap();
    assert_eq!(root.children.len(), 3);
    assert_eq!(root.children[0].label, "_Open");
    assert!(root.children[0].visible);
    assert!(root.children[1].separator);
    assert_eq!(
        root.children[2].children.len(),
        1,
        "Invisible-only submenus retain their children for the adapter"
    );
    assert!(!root.children[2].children[0].visible);
    assert!(has_action(&root.children[0], 1));
    assert!(!has_action(&root.children[1], 2));
    assert!(!has_action(&root.children[2], 4));
}

#[test]
fn malformed_shapes_known_properties_and_duplicate_ids_are_rejected() {
    assert!(parse_layout(&Value::Int32(42)).is_err());
    assert!(parse_layout(&leaf(-1)).is_err());
    assert!(parse_layout(&leaf(1)).is_err());
    assert!(parse_layout(&node(0, vec![], vec![leaf(0)])).is_err());
    assert!(parse_layout(&node(0, vec![], vec![leaf(1), leaf(1)])).is_err());
    for (name, value) in [
        ("label", Value::Bool(true)),
        ("visible", s("false")),
        ("type", Value::Int32(42)),
    ] {
        assert!(parse_layout(&node(0, vec![(name, value)], vec![])).is_err());
    }
    assert!(parse_layout(&node(0, vec![], vec![Value::Int32(42)])).is_err());
}

#[test]
fn layout_errors_name_their_cause() {
    assert_eq!(parse_layout(&Value::Int32(42)).unwrap_err(), MenuError::Shape);
    assert_eq!(parse_layout(&leaf(-1)).unwrap_err(), MenuError::RootNegative);
    assert_eq!(parse_layout(&leaf(1)).unwrap_err(), MenuError::RootNotZero);
    assert_eq!(
        parse_layout(&node(0, vec![], vec![leaf(0)])).unwrap_err(),
        MenuError::DuplicateId
    );
    assert_eq!(
        parse_layout(&node(0, vec![("label", Value::Bool(true))], vec![])).unwrap_err(),
        MenuError::LabelNotString
    );
    assert_eq!(
        parse_layout(&node(0, vec![("visible", s("no"))], vec![])).unwrap_err(),
        MenuError::VisibleNotBoolean
    );
    assert_eq!(
        parse_layout(&node(0, vec![("type", Value::Int32(1))], vec![])).unwrap_err(),
        MenuError::TypeNotString
    );
    let bare_children = Value::Tuple(vec![
        Value::Int32(0),
        Value::Dict(vec![]),
        Value::Array(Ty::Int32, vec![]),
    ]);
    assert_eq!(parse_layout(&bare_children).unwrap_err(), MenuError::Shape);
    let not_variant = Value::Tuple(vec![
        Value::Int32(0),
        Value::Dict(vec![]),
        Value::Array(Ty::Variant, vec![leaf(1)]),
    ]);
    assert_eq!(parse_layout(&not_variant).unwrap_err(), MenuError::ChildNotVariant);
}

#[test]
fn depth_node_count_and_total_label_limits_accept_exact_boundaries() {
    assert!(parse_layout(&nested(MAX_DEPTH)).is_ok());
    assert!(parse_layout(&nested(MAX_DEPTH + 1))
        .unwrap_err()
        .message()
        .contains("64-level"));
    let children = (1..MAX_NODES as i32).map(leaf).collect();
    assert!(parse_layout(&node(0, vec![], children)).is_ok());
    let children = (1..=MAX_NODES as i32).map(leaf).collect();
    assert!(parse_layout(&node(0, vec![], children))
        .unwrap_err()
        .message()
        .contains("4096-node"));
    let label = "x".repeat(MAX_LABEL_BYTES);
    assert!(parse_layout(&node(0, vec![("label", s(&label))], vec![])).is_ok());
    assert!(parse_layout(&node(
        0,
        vec![("label", s(&label))],
        vec![node(1, vec![("label", s("x"))], vec![])]
    ))
    .unwrap_err()
    .message()
    .contains("1 MiB"));
}

#[test]
fn labels_are_counted_in_utf8_bytes() {
    let label = "é".repeat(MAX_LABEL_BYTES / 2);
    assert!(parse_layout(&node(0, vec![("label", s(&label))], vec![])).is_ok());
    let over = format!("{label}x");
    assert_eq!(
        parse_layout(&node(0, vec![("label", s(&over))], vec![])).unwrap_err(),
        MenuError::LabelsTooLarge
    );
}

#[test]
fn activation_needs_an_available_visible_action() {
    let layout = node(
        0,
        vec![],
        vec![
            node(1, vec![("label", s("Open"))], vec![]),
            node(2, vec![("visible", Value::Bool(false))], vec![leaf(3)]),
            node(5, vec![], vec![leaf(6)]),
        ],
    );
    let mut state = MenuState::new();
    assert!(!can_activate(&state, 1));
    state.root = Some(parse_layout(&layout).unwrap());
    assert!(!can_activate(&state, 1));
    state.available = true;
    assert!(can_activate(&state, 1));
    assert!(can_activate(&state, 6));
    assert!(!can_activate(&state, 3));
    assert!(!can_activate(&state, 0));
    assert!(!can_activate(&state, 9));
}

#[test]
fn bus_names_follow_the_dbus_rules() {
    assert!(bus_name_valid("org.kde.StatusNotifierItem-1-2"));
    assert!(bus_name_valid(":1.42"));
    assert!(bus_name_valid(":1.2.3"));
    assert!(!bus_name_valid("org"));
    assert!(!bus_name_valid("org..kde"));
    assert!(!bus_name_valid(".org.kde"));
    assert!(!bus_name_valid("org.kde."));
    assert!(!bus_name_valid("org.1kde"));
    assert!(!bus_name_valid("org.k$de"));
    assert!(!bus_name_valid(":"));
    assert!(!bus_name_valid(""));
    let long = format!("a.{}", "b".repeat(254));
    assert!(!bus_name_valid(&long));
    let max = format!("a.{}", "b".repeat(253));
    assert!(bus_name_valid(&max));
}

#[test]
fn watcher_calls_register_hosts_and_items() {
    let arg = |t: &str| Value::Tuple(vec![s(t)]);
    assert_eq!(
        watcher_request("RegisterStatusNotifierHost", &arg("org.kde.host"), None),
        Ok(WatcherRequest::Host("org.kde.host".into()))
    );
    assert_eq!(
        watcher_request("RegisterStatusNotifierHost", &arg("bad"), None),
        Err(WatcherError::InvalidHostName)
    );
    assert_eq!(
        watcher_request("RegisterStatusNotifierItem", &arg("/org/ayatana/Item"), Some(":1.9")),
        Ok(WatcherRequest::Item { name: ":1.9".into(), path: "/org/ayatana/Item".into() })
    );
    assert_eq!(
        watcher_request("RegisterStatusNotifierItem", &arg("/Item"), None),
        Err(WatcherError::MissingSender)
    );
    assert_eq!(
        watcher_request("RegisterStatusNotifierItem", &arg(":1.5"), Some(":1.9")),
        Ok(WatcherRequest::Item { name: ":1.5".into(), path: "/StatusNotifierItem".into() })
    );
    assert_eq!(
        watcher_request("RegisterStatusNotifierItem", &arg("/bad//path"), Some(":1.9")),
        Err(WatcherError::InvalidItem)
    );
    assert_eq!(
        watcher_request("Other", &arg("org.kde.host"), None),
        Err(WatcherError::UnknownMethod)
    );
    assert_eq!(
        watcher_request("RegisterStatusNotifierHost", &Value::Int32(1), None),
        Err(WatcherError::InvalidArguments)
    );
    assert_eq!(
        WatcherError::UnknownMethod.error_name(),
        "org.freedesktop.DBus.Error.UnknownMethod"
    );
    assert_eq!(
        WatcherError::MissingSender.error_name(),
        "org.freedesktop.DBus.Error.InvalidArgs"
    );
}

#[test]
fn item_commands_carry_their_arguments() {
    let (method, args) = command_call(ItemCommand::ContextMenu { x: 3, y: -4 });
    assert_eq!(method, "ContextMenu");
    match args {
        Value::Tuple(xs) => {
            assert!(matches!(xs[0], Value::Int32(3)));
            assert!(matches!(xs[1], Value::Int32(-4)));
        }
        _ => panic!("expected a tuple"),
    }
    let (method, args) = command_call(ItemCommand::Scroll {
        delta: 2,
        orientation: Orientation::Horizontal,
    });
    assert_eq!(method, "Scroll");
    match args {
        Value::Tuple(xs) => match &xs[1] {
            Value::Str(o) => assert_eq!(o, "horizontal"),
            _ => panic!("expected a string"),
        },
        _ => panic!("expected a tuple"),
    }
}



use way_shell::tray::item::ItemKey as Key;
use way_shell::tray::registry::{is_unique_name, Alias, Begin, Registry, Resolved};

fn alias(name: &str, path: &str) -> Alias {
    Alias { name: name.into(), path: path.into() }
}

fn key(owner: &str, path: &str) -> Key {
    Key { owner: owner.into(), path: path.into() }
}

#[test]
fn registrations_resolve_once_and_share_pending_serials() {
    let mut reg = Registry::new();
    let a = alias("org.kde.App", "/StatusNotifierItem");
    assert_eq!(reg.begin(&a), Begin::Resolve(1));
    assert_eq!(reg.begin(&a), Begin::Resolve(1));
    match reg.resolved(&a, 1, Some(":1.5".into())) {
        Resolved::Accepted(removed) => assert!(removed.is_empty()),
        other => panic!("unexpected {other:?}"),
    }
    assert!(reg.add_entry(key(":1.5", "/StatusNotifierItem")));
    assert!(!reg.add_entry(key(":1.5", "/StatusNotifierItem")));
    assert!(!reg.add_entry(key(":1.6", "/StatusNotifierItem")));
    assert_eq!(reg.registered(), vec![":1.5/StatusNotifierItem".to_string()]);
    assert_eq!(reg.begin(&a), Begin::Owned);
    // A late answer to the first lookup is stale: the alias is resolved.
    assert!(matches!(reg.resolved(&a, 1, Some(":1.9".into())), Resolved::Stale(true)));
}

#[test]
fn failed_and_vanished_lookups() {
    let mut reg = Registry::new();
    let a = alias("org.kde.Gone", "/StatusNotifierItem");
    assert!(matches!(reg.resolved(&a, 1, None), Resolved::Vanished));
    let Begin::Resolve(serial) = reg.begin(&a) else { panic!("expected a lookup") };
    assert!(matches!(reg.resolved(&a, serial + 1, None), Resolved::Stale(false)));
    match reg.resolved(&a, serial, None) {
        Resolved::Failed(removed) => assert!(removed.is_empty()),
        other => panic!("unexpected {other:?}"),
    }
    assert!(matches!(reg.resolved(&a, serial, None), Resolved::Vanished));
}

#[test]
fn a_new_owner_drops_the_items_of_the_old_one() {
    let mut reg = Registry::new();
    let a = alias("org.kde.App", "/Item");
    assert!(reg.assign(&a, Some(":1.5".into())).is_empty());
    assert!(reg.add_entry(key(":1.5", "/Item")));
    let removed = reg.assign(&a, Some(":1.7".into()));
    assert_eq!(removed, vec![key(":1.5", "/Item")]);
    assert!(reg.registered().is_empty());
    assert!(reg.add_entry(key(":1.7", "/Item")));
    // The same owner and path backed twice survives losing one backing.
    let b = alias(":1.7", "/Item");
    assert!(reg.assign(&b, Some(":1.7".into())).is_empty());
    assert!(reg.assign(&a, None).is_empty());
    assert_eq!(reg.registered(), vec![":1.7/Item".to_string()]);
    assert_eq!(reg.forget(&b), vec![key(":1.7", "/Item")]);
}

#[test]
fn owner_changes_touch_aliases_and_released_unique_names_are_forgotten() {
    let mut reg = Registry::new();
    let well_known = alias("org.kde.App", "/Item");
    let unique = alias(":1.5", "/Other");
    reg.assign(&well_known, Some(":1.5".into()));
    reg.assign(&unique, Some(":1.5".into()));
    let moved = reg.affected("org.kde.App", ":1.8");
    assert_eq!(moved.len(), 1);
    assert_eq!(moved[0].0, well_known);
    assert_eq!(moved[0].1.as_deref(), Some(":1.8"));
    assert!(!moved[0].2);
    let released = reg.affected(":1.5", "");
    assert_eq!(released.len(), 2);
    assert_eq!((released[0].1.clone(), released[0].2), (None, false));
    assert_eq!(released[1].0, unique);
    assert_eq!((released[1].1.clone(), released[1].2), (None, true));
    assert!(reg.affected("org.other", "").is_empty());
    assert!(is_unique_name(":1.5"));
    assert!(!is_unique_name("org.kde.App"));
    assert!(!is_unique_name(":"));
}

#[test]
fn hosts_are_listed_once_and_clearing_hands_back_items() {
    let mut reg = Registry::new();
    assert!(reg.add_host(":1.3".into()));
    assert!(!reg.add_host(":1.3".into()));
    reg.remove_host(":1.3");
    assert!(reg.add_host(":1.3".into()));
    let a = alias("org.kde.App", "/Item");
    reg.assign(&a, Some(":1.5".into()));
    reg.add_entry(key(":1.5", "/Item"));
    assert_eq!(reg.clear(), vec![key(":1.5", "/Item")]);
    assert!(reg.registered().is_empty());
    assert!(reg.add_host(":1.3".into()));
    assert_eq!(reg.begin(&a), Begin::Resolve(2));
}

#[test]
fn only_the_latest_layout_request_of_the_run_is_answered() {
    let mut session = MenuSession::new();
    assert_eq!(session.refresh(), None);
    assert_eq!(session.start(), Some(0));
    assert_eq!(session.start(), None);
    assert_eq!(session.owner_appeared(7), None);
    assert_eq!(session.owner_appeared(0), Some((0, 1)));
    assert!(session.reply_current(0, 1));
    assert_eq!(session.refresh(), Some((0, 2)));
    assert!(!session.reply_current(0, 1));
    assert!(session.reply_current(0, 2));
    session.owner_lost();
    assert!(!session.reply_current(0, 2));
    assert_eq!(session.refresh(), None);
    assert_eq!(session.owner_appeared(0), Some((0, 4)));
    session.stop();
    assert!(!session.current(0));
    assert!(!session.reply_current(0, 4));
    assert_eq!(session.start(), Some(1));
    assert!(session.current(1));
    assert!(!session.actions_allowed());
}

#[test]
fn menu_requests_are_checked_before_they_are_sent() {
    let layout = node(0, vec![], vec![node(1, vec![("label", s("Open"))], vec![])]);
    let mut state = MenuState::new();
    state.root = Some(parse_layout(&layout).unwrap());
    state.available = true;
    let mut session = MenuSession::new();
    assert_eq!(about_to_show_check(&session, -1), Err(MenuRequestError::NegativeId));
    assert_eq!(about_to_show_check(&session, 0), Err(MenuRequestError::Unavailable));
    assert_eq!(activate_check(&session, &state, 2), Err(MenuRequestError::NotAction));
    assert_eq!(activate_check(&session, &state, 1), Err(MenuRequestError::Unavailable));
    session.start();
    session.owner_appeared(0);
    assert_eq!(about_to_show_check(&session, 0), Ok(()));
    assert_eq!(activate_check(&session, &state, 1), Ok(()));
    assert_eq!(
        MenuRequestError::NotAction.message(),
        "Menu item is not a current visible action"
    );
    assert_eq!(MenuRequestError::Unavailable.message(), "Menu endpoint is unavailable");
}

#[test]
fn item_changes_and_item_property_changes_refresh_the_item() {
    let item = "org.kde.StatusNotifierItem";
    let props = "org.freedesktop.DBus.Properties";
    assert!(item_signal_refreshes(item, "NewIcon", None));
    assert!(item_signal_refreshes(item, "XAyatanaNewLabel", None));
    assert!(!item_signal_refreshes(item, "NewMenu", None));
    assert!(item_signal_refreshes(props, "PropertiesChanged", Some(item)));
    assert!(!item_signal_refreshes(props, "PropertiesChanged", Some("org.example.Other")));
    assert!(!item_signal_refreshes(props, "PropertiesChanged", None));
    assert!(!item_signal_refreshes(props, "Other", Some(item)));
}
