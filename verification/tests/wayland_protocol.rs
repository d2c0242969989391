use way_shell::wayland::model::GammaError;
use way_shell::wayland::protocol::{
    Bind, Change, GammaControl, OutputEvent, SeatEvent, State, ToplevelEvent,
};
use way_shell::wayland::ToplevelAction;

fn announced_state() -> State {
    let mut state = State::new();
    assert_eq!(state.global(3, "wl_output", 9), Some(Bind::Output { version: 4, gamma: false }));
    assert_eq!(state.global(1, "wl_output", 2), Some(Bind::Output { version: 2, gamma: false }));
    assert_eq!(state.global(5, "wl_seat", 8), Some(Bind::Seat(7)));
    assert_eq!(
        state.global(7, "zwlr_foreign_toplevel_manager_v1", 3),
        Some(Bind::ForeignManager(3))
    );
    assert_eq!(
        state.global(8, "zwlr_gamma_control_manager_v1", 1),
        Some(Bind::GammaManager(1))
    );
    assert!(state.sync_done(false));
    assert!(!state.sync_done(true));
    state.take_changes();
    state
}

fn kinds(changes: &[Change]) -> Vec<String> {
    changes
        .iter()
        .map(|c| match c {
            Change::Ready => "ready".to_string(),
            Change::Output(o) => format!("output {}", o.id),
            Change::OutputRemoved(o) => format!("output-removed {}", o.id),
            Change::Toplevel(t) => format!("toplevel {}", t.id),
            Change::ToplevelRemoved(t) => format!("toplevel-removed {}", t.id),
            Change::Capabilities => "capabilities".to_string(),
            Change::Gamma(b) => format!("gamma {b}"),
            Change::Diagnostic(d) => format!("diagnostic {d}"),
        })
        .collect()
}

#[test]
fn globals_bind_capped_versions_and_ignore_unknown_or_zero() {
    let mut state = State::new();
    assert_eq!(state.global(1, "wl_compositor", 6), None);
    assert_eq!(state.global(2, "wl_output", 0), None);
    assert!(state.take_changes().is_empty());
    assert_eq!(state.global(4, "zwp_keyboard_shortcuts_inhibit_manager_v1", 1), None);
    assert!(state.has_shortcut_inhibition());
    assert_eq!(state.global(5, "zwlr_foreign_toplevel_manager_v1", 3), Some(Bind::ForeignManager(3)));
    assert_eq!(state.global(6, "zwlr_foreign_toplevel_manager_v1", 3), None);
    assert!(state.has_foreign_toplevel());
    assert_eq!(kinds(&state.take_changes()), vec!["capabilities"; 3]);
}

#[test]
fn outputs_are_announced_after_the_second_round_trip_in_id_order() {
    let mut state = State::new();
    state.global(9, "wl_output", 4);
    state.global(2, "wl_output", 4);
    state.take_changes();
    assert!(state.outputs().is_empty());
    state.output_event(2, OutputEvent::Name("DP-1".to_string()), false);
    state.output_event(2, OutputEvent::Mode { current: false, width: 640, height: 480 }, false);
    state.output_event(2, OutputEvent::Mode { current: true, width: 1920, height: 1080 }, false);
    state.output_event(2, OutputEvent::Done, false);
    assert_eq!(kinds(&state.take_changes()), vec!["output 2"]);
    assert!(state.sync_done(false));
    assert!(!state.sync_done(true));
    assert_eq!(kinds(&state.take_changes()), vec!["output 9", "ready"]);
    let outputs = state.outputs();
    assert_eq!(outputs.iter().map(|o| o.id).collect::<Vec<_>>(), vec![2, 9]);
    assert_eq!(outputs[0].name.as_deref(), Some("DP-1"));
    assert_eq!((outputs[0].width, outputs[0].height, outputs[0].scale), (1920, 1080, 1));
    assert!(state.is_ready());
    state.output_event(9, OutputEvent::Scale(2), true);
    assert_eq!(kinds(&state.take_changes()), vec!["output 9"]);
    state.output_event(42, OutputEvent::Done, true);
    assert!(state.take_changes().is_empty());
}

#[test]
fn windows_publish_on_done_only_when_named_and_not_ignored() {
    let mut state = announced_state();
    state.ignored("org.example.Hidden", "Secret");
    let id = state.new_toplevel();
    assert_eq!(id, 1);
    state.toplevel_event(id, ToplevelEvent::Title("Mail".to_string()));
    state.toplevel_event(id, ToplevelEvent::Done);
    assert!(state.take_changes().is_empty());
    assert!(state.toplevels().is_empty());
    state.toplevel_event(id, ToplevelEvent::AppId("org.example.Mail".to_string()));
    state.toplevel_event(id, ToplevelEvent::OutputEnter(Some(3)));
    state.toplevel_event(id, ToplevelEvent::State(2_u32.to_ne_bytes().to_vec()));
    state.toplevel_event(id, ToplevelEvent::Done);
    assert_eq!(kinds(&state.take_changes()), vec!["toplevel 1"]);
    let published = state.toplevels();
    assert_eq!(published.len(), 1);
    assert!(published[0].active && published[0].activation_event && published[0].entered_event);
    assert!(published[0].outputs.contains(&3));
    state.ignored("", "Mail");
    assert_eq!(kinds(&state.take_changes()), vec!["toplevel-removed 1"]);
    assert!(state.toplevels().is_empty());
    state.ignored("", "");
    assert_eq!(kinds(&state.take_changes()), vec!["toplevel 1"]);
    assert!(!state.toplevels()[0].activation_event);
    assert!(state.toplevel_event(id, ToplevelEvent::Closed));
    assert_eq!(kinds(&state.take_changes()), vec!["toplevel-removed 1"]);
    assert!(!state.toplevel_event(id, ToplevelEvent::Closed));
}

#[test]
fn malformed_window_state_is_reported_and_changes_nothing() {
    let mut state = announced_state();
    let id = state.new_toplevel();
    state.toplevel_event(id, ToplevelEvent::State(vec![2, 0, 0]));
    assert_eq!(
        kinds(&state.take_changes()),
        vec!["diagnostic Foreign toplevel state is not an array of 32-bit values"]
    );
}

#[test]
fn actions_need_a_live_window_and_a_seat_to_activate() {
    let mut state = State::new();
    let id = state.new_toplevel();
    assert_eq!(state.action(id + 1, ToplevelAction::Close), Err("This window has closed"));
    assert_eq!(
        state.action(id, ToplevelAction::Activate),
        Err("No Wayland seat is available to activate a window")
    );
    assert_eq!(state.action(id, ToplevelAction::Maximize), Ok(None));
    state.global(12, "wl_seat", 7);
    state.global(4, "wl_seat", 7);
    state.seat_event(4, SeatEvent::Name("seat0".to_string()));
    assert_eq!(state.action(id, ToplevelAction::Activate), Ok(Some(4)));
    assert_eq!(state.seats()[0].name.as_deref(), Some("seat0"));
}

#[test]
fn temperature_is_checked_then_controls_are_created_for_every_output() {
    let mut state = State::new();
    assert!(matches!(state.set_temperature(999), Err(GammaError::OutOfRange)));
    assert!(matches!(state.set_temperature(6500), Err(GammaError::Unsupported)));
    let mut state = announced_state();
    assert!(!state.gamma_enabled());
    assert!(state.gamma_available());
    let plan = state.set_temperature(4000).unwrap();
    assert!(!plan.was_enabled);
    assert_eq!(plan.created, vec![1, 3]);
    assert!(plan.apply.is_empty());
    assert!(state.gamma_enabled());
    state.temperature_applied(plan.was_enabled, Vec::new());
    assert_eq!(kinds(&state.take_changes()), vec!["gamma true", "capabilities"]);
    assert_eq!(state.gamma_size(3, 256), Some(4000));
    assert_eq!(state.gamma_size(77, 256), None);
    let plan = state.set_temperature(5000).unwrap();
    assert!(plan.was_enabled);
    assert!(plan.created.is_empty());
    assert_eq!(plan.apply, vec![GammaControl { output: 3, size: 256 }]);
    state.temperature_applied(plan.was_enabled, vec!["Could not write gamma table".to_string()]);
    assert_eq!(
        kinds(&state.take_changes()),
        vec!["diagnostic Could not write gamma table", "capabilities"]
    );
    assert_eq!(state.global(11, "wl_output", 4), Some(Bind::Output { version: 4, gamma: true }));
}

#[test]
fn failed_controls_are_given_up_and_reported() {
    let mut state = announced_state();
    state.set_temperature(4000).unwrap();
    state.take_changes();
    assert!(state.gamma_failed(1));
    assert_eq!(
        kinds(&state.take_changes()),
        vec!["capabilities", "diagnostic Gamma control unavailable for output 1; another program may own it"]
    );
    assert!(state.gamma_available());
    assert!(state.gamma_rejected(3, "Invalid compositor gamma ramp size".to_string()));
    assert_eq!(
        kinds(&state.take_changes()),
        vec!["diagnostic Invalid compositor gamma ramp size", "capabilities", "gamma false"]
    );
    assert!(!state.gamma_available());
    assert!(!state.gamma_enabled());
    assert!(!state.gamma_failed(3));
}

#[test]
fn removing_globals_forgets_what_they_carried() {
    let mut state = announced_state();
    let id = state.new_toplevel();
    state.toplevel_event(id, ToplevelEvent::AppId("a".to_string()));
    state.toplevel_event(id, ToplevelEvent::Title("t".to_string()));
    state.toplevel_event(id, ToplevelEvent::OutputEnter(Some(3)));
    state.toplevel_event(id, ToplevelEvent::Done);
    state.set_temperature(4000).unwrap();
    state.take_changes();
    let removal = state.global_remove(3);
    assert!(removal.output && removal.output_gamma && !removal.seat);
    assert_eq!(kinds(&state.take_changes()), vec!["output-removed 3", "capabilities"]);
    assert!(state.toplevels()[0].outputs.is_empty());
    let removal = state.global_remove(7);
    assert!(removal.foreign);
    assert_eq!(removal.toplevels, vec![id]);
    assert_eq!(kinds(&state.take_changes()), vec!["toplevel-removed 1", "capabilities"]);
    let removal = state.global_remove(8);
    assert!(removal.gamma_manager);
    assert_eq!(removal.controls, vec![1]);
    assert_eq!(kinds(&state.take_changes()), vec!["gamma false", "capabilities"]);
    assert!(!state.has_gamma() && !state.has_foreign_toplevel());
}

#[test]
fn closing_gives_up_everything_bound() {
    let mut state = announced_state();
    let id = state.new_toplevel();
    state.set_temperature(4000).unwrap();
    state.take_changes();
    let closed = state.close();
    assert_eq!(closed.controls, vec![1, 3]);
    assert_eq!(closed.toplevels, vec![id]);
    assert!(closed.foreign && closed.gamma_manager);
    assert_eq!(closed.outputs, vec![1, 3]);
    assert_eq!(closed.seats, vec![5]);
    assert_eq!(kinds(&state.take_changes()), vec!["gamma false"]);
    assert!(state.outputs().is_empty() && state.seats().is_empty());
}
