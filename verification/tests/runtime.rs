use way_shell::audio::{AudioNode, AudioState, NodeKind, NodeState};
use way_shell::brightness::ControlKind;
use way_shell::ipc::CommandKind;
use way_shell::runtime::{
    audio_target, mute_toggle, route, select_backend, unsupported_backend, AudioCommandError,
    Backend, OutputSync, Reconcile, Route, BLUE_LIGHT_TEMPERATURE,
};
use way_shell::theme::{current_theme, hook_path, Theme, ThemeSource};

#[test]
fn explicitly_saved_backends_override_session_detection() {
    assert_eq!(select_backend(Some("sway"), "sway", true, true), Ok(Backend::Sway));
    assert_eq!(select_backend(Some("niri"), "sway", false, true), Ok(Backend::Niri));
    assert!(select_backend(Some("unknown"), "sway", true, true)
        .unwrap_err()
        .contains("Unsupported"));
}

#[test]
fn unsaved_backend_uses_inner_session_then_existing_default() {
    assert_eq!(select_backend(None, "sway", true, true), Ok(Backend::Niri));
    assert_eq!(select_backend(None, "niri", false, true), Ok(Backend::Sway));
    assert_eq!(select_backend(None, "sway", false, false), Ok(Backend::Sway));
    assert_eq!(select_backend(None, "niri", false, false), Ok(Backend::Niri));
}

#[test]
fn unsupported_backends_are_quoted_in_the_refusal() {
    assert_eq!(
        select_backend(Some("we\"ird"), "sway", false, false),
        Err("Unsupported window-manager backend \"we\\\"ird\"; choose sway or niri".to_string())
    );
    assert_eq!(
        select_backend(None, "", false, false),
        Err("Unsupported window-manager backend \"\"; choose sway or niri".to_string())
    );
    assert_eq!(
        unsupported_backend("'x'"),
        "Unsupported window-manager backend 'x'; choose sway or niri"
    );
}

#[test]
fn commands_are_routed_to_their_service() {
    assert_eq!(route(CommandKind::BrightnessUp), Route::Brightness(ControlKind::Backlight, true));
    assert_eq!(
        route(CommandKind::KeyboardBrightnessDown),
        Route::Brightness(ControlKind::Keyboard, false)
    );
    assert_eq!(route(CommandKind::DumpLightTheme), Route::DumpTheme(Theme::Light));
    assert_eq!(route(CommandKind::ThemeDark), Route::SetTheme(Theme::Dark));
    assert_eq!(route(CommandKind::VolumeSet), Route::Audio);
    assert_eq!(route(CommandKind::VolumeMute), Route::Audio);
    assert_eq!(route(CommandKind::BlueLightFilterEnable), Route::BlueLight(true));
    assert_eq!(route(CommandKind::BlueLightFilterDisable), Route::BlueLight(false));
    assert_eq!(route(CommandKind::ActivitiesToggle), Route::Desktop);
    assert_eq!(route(CommandKind::MessageTrayOpen), Route::Desktop);
    assert_eq!(BLUE_LIGHT_TEMPERATURE, 3100);
}

fn sink(id: u32, muted: Option<bool>) -> AudioNode {
    AudioNode {
        id,
        serial: 1,
        kind: NodeKind::Sink,
        name: "out".into(),
        description: String::new(),
        nickname: String::new(),
        application: String::new(),
        media: String::new(),
        state: NodeState::Running,
        volume_muted: muted,
    }
}

#[test]
fn audio_commands_act_on_the_default_sink() {
    let mut state = AudioState::new();
    assert_eq!(audio_target(&state), Err(AudioCommandError::NoDefaultOutput));
    assert_eq!(mute_toggle(&state), Err(AudioCommandError::NoDefaultOutput));
    state.nodes = vec![sink(4, Some(true)), sink(5, None)];
    state.default_sink = Some(4);
    assert_eq!(audio_target(&state), Ok(4));
    assert_eq!(mute_toggle(&state), Ok((4, false)));
    state.nodes[0].volume_muted = Some(false);
    assert_eq!(mute_toggle(&state), Ok((4, true)));
    state.default_sink = Some(5);
    assert_eq!(mute_toggle(&state), Err(AudioCommandError::NoVolumeControl));
    state.default_sink = Some(6);
    assert_eq!(mute_toggle(&state), Err(AudioCommandError::NoVolumeControl));
    assert_eq!(
        AudioCommandError::NoDefaultOutput.message(),
        "No default audio output is available"
    );
}

#[test]
fn output_changes_are_batched_and_stale_builds_redone() {
    let mut sync = OutputSync::new();
    assert!(sync.outputs_changed(false));
    assert!(!sync.outputs_changed(false));
    let r = sync.update(1);
    assert_eq!(r, Reconcile { close: false, build: Some(2) });
    // The outputs changed while the surfaces were built: they are redone.
    assert!(sync.outputs_changed(false));
    assert_eq!(sync.built(2, 1), (false, false));
    assert!(sync.rebuild);
    let r = sync.update(1);
    assert_eq!(r, Reconcile { close: false, build: Some(4) });
    assert_eq!(sync.built(4, 1), (true, false));
    assert!(sync.built);
    // Losing every output closes the surfaces.
    assert!(sync.outputs_changed(true));
    let r = sync.update(0);
    assert_eq!(r, Reconcile { close: true, build: None });
    assert!(!sync.built);
    sync.stop();
    assert!(!sync.outputs_changed(true));
    assert_eq!(sync.update(1), Reconcile { close: false, build: None });
}

#[test]
fn themes_name_their_files_and_hooks() {
    assert_eq!(Theme::from_light(true), Theme::Light);
    assert_eq!(Theme::from_light(false), Theme::Dark);
    assert_eq!(Theme::Light.code(), 0);
    assert_eq!(Theme::Dark.code(), 1);
    assert_eq!(Theme::Dark.argument(), "dark");
    assert_eq!(Theme::Light.file_name(), "way-shell-light.css");
    assert_eq!(
        Theme::Dark.override_path("/home/u/.config/way-shell"),
        "/home/u/.config/way-shell/way-shell-dark.css"
    );
    assert_eq!(
        Theme::Light.source("/c", true),
        ThemeSource::File("/c/way-shell-light.css".into())
    );
    assert_eq!(
        Theme::Dark.source("/c", false),
        ThemeSource::Resource("/org/ldelossa/way-shell/data/theme/way-shell-dark.css")
    );
    assert_eq!(hook_path("/c/"), "/c/on_theme_changed.sh");
    assert_eq!(current_theme(None), Theme::Dark);
    assert_eq!(current_theme(Some(Theme::Light)), Theme::Light);
}
