use way_shell::audio::{
    finish_snapshot, parse_u64, port_is_monitor, snapshot_node, prepare_route, route_still_valid, sort_by_id, volume_control, AudioError, AudioLink,
    AudioNode, AudioPort, AudioState, Direction, Endpoint, NodeKind, NodeState, RouteError,
    SerialLookup,
};

fn node(id: u32, serial: u64, kind: NodeKind, name: &str) -> AudioNode {
    AudioNode {
        id,
        serial,
        kind,
        name: name.into(),
        description: String::new(),
        nickname: String::new(),
        application: String::new(),
        media: String::new(),
        state: NodeState::Idle,
        volume_muted: Some(false),
    }
}

fn available(nodes: Vec<AudioNode>) -> AudioState {
    let mut state = AudioState::new();
    state.available = true;
    state.nodes = nodes;
    state
}

#[test]
fn discovered_node_without_mixer_values_disables_controls() {
    let mut pending = node(12, 34, NodeKind::Sink, "pending-output");
    pending.state = NodeState::Creating;
    pending.volume_muted = None;
    let state = available(vec![pending]);
    // Volume, mute and adjustment requests all pass through the same control check.
    assert_eq!(volume_control(&state, 12), Err(AudioError::VolumeUnavailable(12)));
    assert_eq!(volume_control(&state, 12), Err(AudioError::VolumeUnavailable(12)));
    assert_eq!(volume_control(&state, 12), Err(AudioError::VolumeUnavailable(12)));
}

#[test]
fn volume_control_errors_follow_availability_then_node() {
    let state = available(vec![node(3, 1, NodeKind::Sink, "out")]);
    assert_eq!(volume_control(&state, 3), Ok(()));
    assert_eq!(volume_control(&state, 4), Err(AudioError::NodeNotFound(4)));
    let mut gone = state.clone();
    gone.available = false;
    assert_eq!(volume_control(&gone, 3), Err(AudioError::Unavailable));
}

#[test]
fn audio_error_messages_name_the_node() {
    assert_eq!(AudioError::Unavailable.message(), "audio service is unavailable");
    assert_eq!(
        AudioError::NodeNotFound(17).message(),
        "audio node 17 is no longer available"
    );
    assert_eq!(
        AudioError::VolumeUnavailable(0).message(),
        "audio node 0 has no volume control"
    );
    assert_eq!(
        AudioError::Rejected(4294967295).message(),
        "audio node 4294967295 rejected the volume operation"
    );
    assert_eq!(
        AudioError::InvalidVolume.message(),
        "volume must be finite and between 0.0 and 1.0"
    );
    assert_eq!(AudioError::InvalidDelta.message(), "volume adjustment must be finite");
}

#[test]
fn serial_matching_rejects_malformed_and_reused_identifiers() {
    let mut data = SerialLookup::new(u64::MAX);
    for value in ["18446744073709551615x", "-1", "", "42"] {
        data.list_item(0, Some((17, Some(value))), RouteError::Unavailable);
    }
    data.list_item(0, None, RouteError::Unavailable);
    data.list_item(0, Some((17, None)), RouteError::Unavailable);
    data.list_item(1, None, RouteError::Unavailable);
    assert_eq!(data.result, Some(Err(RouteError::StreamNotFound)));
    data.list_item(0, Some((23, Some("18446744073709551615"))), RouteError::Unavailable);
    data.list_item(1, None, RouteError::Unavailable);
    assert_eq!(data.result, Some(Ok(23)));

    let state = available(vec![AudioNode {
        volume_muted: None,
        ..node(4, 12, NodeKind::Sink, "same-name")
    }]);
    let endpoint = Endpoint::from_state(&state, 4).unwrap();
    let mut reused = state.clone();
    reused.nodes[0].serial += 1;
    assert!(!endpoint.present(&reused));
    assert!(endpoint.present(&state));
}

#[test]
fn failed_listing_reports_its_own_error() {
    let mut data = SerialLookup::new(5);
    data.list_item(0, Some((2, Some("5"))), RouteError::Unavailable);
    data.list_item(-1, None, RouteError::Failed("boom".into()));
    assert_eq!(data.result, Some(Err(RouteError::Failed("boom".into()))));
    assert_eq!(data.found, Some(2));
}

#[test]
fn serials_parse_like_str_parse() {
    assert_eq!(parse_u64("0"), Some(0));
    assert_eq!(parse_u64("+7"), Some(7));
    assert_eq!(parse_u64("+"), None);
    assert_eq!(parse_u64("18446744073709551615"), Some(u64::MAX));
    assert_eq!(parse_u64("18446744073709551616"), None);
    assert_eq!(parse_u64(" 1"), None);
    assert_eq!(parse_u64("0012"), Some(12));
}

#[test]
fn media_classes_round_trip() {
    for kind in [
        NodeKind::Sink,
        NodeKind::Source,
        NodeKind::InputStream,
        NodeKind::OutputStream,
    ] {
        assert_eq!(NodeKind::from_class(kind.media_class()), Some(kind));
    }
    assert_eq!(NodeKind::Sink.media_class(), "Audio/Sink");
    assert_eq!(NodeKind::from_class("Video/Source"), None);
}

#[test]
fn routes_need_compatible_present_endpoints() {
    let state = available(vec![
        node(1, 10, NodeKind::OutputStream, "player"),
        node(2, 20, NodeKind::Sink, "speakers"),
        node(3, 30, NodeKind::Source, "mic"),
        node(4, 0, NodeKind::Sink, "unbound"),
    ]);
    let (s, t) = prepare_route(&state, true, 1, 2).unwrap();
    assert_eq!((s.id, s.serial, t.id, t.serial), (1, 10, 2, 20));
    assert_eq!(t.name, "speakers");
    assert_eq!(prepare_route(&state, true, 1, 3).unwrap_err(), RouteError::InvalidEndpoints);
    assert_eq!(prepare_route(&state, true, 1, 4).unwrap_err(), RouteError::EndpointRemoved);
    assert_eq!(prepare_route(&state, true, 9, 2).unwrap_err(), RouteError::EndpointRemoved);
    assert_eq!(prepare_route(&state, false, 1, 2).unwrap_err(), RouteError::Unavailable);
    assert_eq!(
        RouteError::Failed("x".into()).message(),
        "Stream routing failed: x"
    );
    assert_eq!(
        RouteError::Timeout.message(),
        "Stream routing exceeded its two-second deadline"
    );
}

#[test]
fn microphone_is_active_while_a_source_runs() {
    let mut state = available(vec![node(3, 30, NodeKind::Source, "mic")]);
    assert!(!state.microphone_active());
    state.nodes[0].state = NodeState::Running;
    assert!(state.microphone_active());
    state.nodes[0].kind = NodeKind::Sink;
    assert!(!state.microphone_active());
}

#[test]
fn snapshots_are_sorted_and_defaults_resolved() {
    let nodes = vec![
        node(9, 90, NodeKind::Source, "mic"),
        node(2, 20, NodeKind::Sink, "speakers"),
        node(5, 50, NodeKind::Sink, "hdmi"),
    ];
    let ports = vec![
        AudioPort { id: 8, node: 2, index: 0, direction: Direction::Output, channel: None, monitor: false },
        AudioPort { id: 1, node: 9, index: 0, direction: Direction::Input, channel: Some("FL".into()), monitor: false },
    ];
    let links = vec![
        AudioLink { id: 7, output_node: 2, output_port: 8, input_node: 9, input_port: 1 },
        AudioLink { id: 6, output_node: 2, output_port: 8, input_node: 9, input_port: 1 },
    ];
    let state = finish_snapshot(nodes, ports, links, Some(5), Some(2));
    assert!(state.available);
    let ids: Vec<u32> = state.nodes.iter().map(|n| n.id).collect();
    assert_eq!(ids, [2, 5, 9]);
    assert_eq!(state.ports[0].id, 1);
    assert_eq!(state.links[0].id, 6);
    assert_eq!(state.default_sink, Some(5));
    // Node 2 is a sink, not a source.
    assert_eq!(state.default_source, None);
}

#[test]
fn sorting_keeps_equal_ids_in_order() {
    let sorted = sort_by_id(vec![
        node(3, 1, NodeKind::Sink, "a"),
        node(1, 2, NodeKind::Sink, "b"),
        node(3, 3, NodeKind::Sink, "c"),
    ]);
    let names: Vec<&str> = sorted.iter().map(|n| n.name.as_str()).collect();
    assert_eq!(names, ["b", "a", "c"]);
}

#[test]
fn snapshot_nodes_fall_back_for_missing_properties() {
    let n = snapshot_node(
        4,
        NodeKind::Sink,
        NodeState::Idle,
        Some(false),
        Some("alsa_output.pci".to_string()),
        None,
        Some("not-a-number".to_string()),
        None,
        None,
        Some("Music".to_string()),
    );
    assert_eq!(n.id, 4);
    assert_eq!(n.name, "alsa_output.pci");
    assert_eq!(n.description, "alsa_output.pci");
    assert_eq!(n.serial, 0);
    assert_eq!(n.nickname, "");
    assert_eq!(n.application, "");
    assert_eq!(n.media, "Music");
    assert_eq!(n.volume_muted, Some(false));
    let m = snapshot_node(
        5,
        NodeKind::Source,
        NodeState::Running,
        None,
        None,
        Some("Microphone".to_string()),
        Some("1234".to_string()),
        Some("mic".to_string()),
        Some("Recorder".to_string()),
        None,
    );
    assert_eq!(m.name, "");
    assert_eq!(m.description, "Microphone");
    assert_eq!(m.serial, 1234);
    assert_eq!(m.nickname, "mic");
    assert_eq!(m.application, "Recorder");
    assert_eq!(m.state, NodeState::Running);
    let absent = snapshot_node(6, NodeKind::Sink, NodeState::Unknown, None, None, None, None, None, None, None);
    assert_eq!(absent.serial, 0);
    assert_eq!(absent.description, "");
}

#[test]
fn only_a_true_monitor_property_marks_a_monitor_port() {
    assert!(port_is_monitor(Some("true")));
    assert!(!port_is_monitor(Some("1")));
    assert!(!port_is_monitor(Some("True")));
    assert!(!port_is_monitor(None));
}

#[test]
fn a_prepared_move_stops_when_cancelled_or_an_endpoint_changes() {
    let state = available(vec![node(1, 10, NodeKind::OutputStream, "player"), node(2, 20, NodeKind::Sink, "speakers")]);
    let (s, t) = prepare_route(&state, true, 1, 2).unwrap();
    assert_eq!(route_still_valid(true, 3, 3, &state, &s, &t), Ok(()));
    assert_eq!(route_still_valid(false, 3, 3, &state, &s, &t), Err(RouteError::Cancelled));
    assert_eq!(route_still_valid(true, 3, 4, &state, &s, &t), Err(RouteError::Cancelled));
    let reused = available(vec![node(1, 11, NodeKind::OutputStream, "player"), node(2, 20, NodeKind::Sink, "speakers")]);
    assert_eq!(route_still_valid(true, 3, 3, &reused, &s, &t), Err(RouteError::EndpointRemoved));
    let renamed = available(vec![node(1, 10, NodeKind::OutputStream, "player"), node(2, 20, NodeKind::Sink, "hdmi")]);
    assert_eq!(route_still_valid(true, 3, 3, &renamed, &s, &t), Err(RouteError::EndpointRemoved));
    let mut gone = state.clone();
    gone.available = false;
    assert_eq!(route_still_valid(true, 3, 3, &gone, &s, &t), Err(RouteError::EndpointRemoved));
}
