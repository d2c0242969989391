//! Shell-wide decisions: the window-manager backend, where a command goes, and when the
//! desktop surfaces are rebuilt for the current outputs.
use crate::audio::{first_node, AudioState};
use crate::brightness::ControlKind;
use crate::ipc::CommandKind;
use crate::text::{append, str_eq};
use crate::theme::Theme;
use vstd::prelude::*;

verus! {

/// The compositor IPC the window manager speaks.
#[derive(Clone, Copy, Debug, PartialEq, Eq, Structural)]
pub enum Backend {
    Sway,
    Niri,
}

/// The backend name in effect: the saved one, else the inner session's (niri before
/// sway), else the default.
pub open spec fn backend_name(stored: Option<Seq<char>>, default: Seq<char>, niri: bool, sway: bool) -> Seq<char> {
    match stored {
        Some(s) => s,
        None => if niri {
            "niri"@
        } else if sway {
            "sway"@
        } else {
            default
        },
    }
}

/// The text `{:?}` gives for a string: the string quoted, with its quotes,
/// backslashes and unprintable characters escaped.
pub uninterp spec fn debug_text(s: Seq<char>) -> Seq<char>;

/// Formats `s` as `format!("{:?}", s)` does, through `<str as Debug>::fmt`.
/// Claims only that the result depends on `s` alone; its form is left unsaid.
#[verifier::external_body]
fn debug_quoted(s: &str) -> (r: String)
    ensures
        r@ == debug_text(s@),
{
    format!("{:?}", s)
}

/// The message refusing a backend name, given the name as `{:?}` shows it.
pub open spec fn unsupported_text(quoted: Seq<char>) -> Seq<char> {
    "Unsupported window-manager backend "@ + quoted + "; choose sway or niri"@
}

/// The message refusing a backend, from the backend name already quoted.
pub fn unsupported_backend(quoted: &str) -> (r: String)
    ensures
        r@ == unsupported_text(quoted@),
{
    let mut s = String::new();
    append(&mut s, "Unsupported window-manager backend ");
    append(&mut s, quoted);
    append(&mut s, "; choose sway or niri");
    s
}

/// Chooses the window-manager backend. An unsupported name is refused with a message
/// that quotes it.
pub fn select_backend(stored: Option<&str>, default: &str, niri: bool, sway: bool) -> (r: Result<Backend, String>)
    ensures
        ({
            let name = backend_name(match stored { Some(s) => Some(s@), None => None }, default@, niri, sway);
            if name == "sway"@ {
                r == Ok::<Backend, String>(Backend::Sway)
            } else if name == "niri"@ {
                r == Ok::<Backend, String>(Backend::Niri)
            } else {
                r matches Err(e) && e@ == unsupported_text(debug_text(name))
            }
        }),
{
    let name: &str = match stored {
        Some(s) => s,
        None => if niri {
            "niri"
        } else if sway {
            "sway"
        } else {
            default
        },
    };
    if str_eq(name, "sway") {
        Ok(Backend::Sway)
    } else if str_eq(name, "niri") {
        Ok(Backend::Niri)
    } else {
        let quoted = debug_quoted(name);
        Err(unsupported_backend(quoted.as_str()))
    }
}

/// Which part of the shell carries out a command.
#[derive(Clone, Copy, Debug, PartialEq, Eq, Structural)]
pub enum Route {
    /// Step a brightness control up or down.
    Brightness(ControlKind, bool),
    /// Write a theme's built-in style sheet to the configuration directory.
    DumpTheme(Theme),
    /// Switch the shell theme.
    SetTheme(Theme),
    /// Change the default output's volume or mute.
    Audio,
    /// Turn the blue-light filter on (at 3100 K) or off.
    BlueLight(bool),
    /// Show, hide or toggle a desktop surface.
    Desktop,
}

/// The route of each command.
pub open spec fn route_of(c: CommandKind) -> Route {
    match c {
        CommandKind::BrightnessUp => Route::Brightness(ControlKind::Backlight, true),
        CommandKind::BrightnessDown => Route::Brightness(ControlKind::Backlight, false),
        CommandKind::KeyboardBrightnessUp => Route::Brightness(ControlKind::Keyboard, true),
        CommandKind::KeyboardBrightnessDown => Route::Brightness(ControlKind::Keyboard, false),
        CommandKind::DumpDarkTheme => Route::DumpTheme(Theme::Dark),
        CommandKind::DumpLightTheme => Route::DumpTheme(Theme::Light),
        CommandKind::ThemeDark => Route::SetTheme(Theme::Dark),
        CommandKind::ThemeLight => Route::SetTheme(Theme::Light),
        CommandKind::VolumeUp | CommandKind::VolumeDown | CommandKind::VolumeSet | CommandKind::VolumeMute => Route::Audio,
        CommandKind::BlueLightFilterEnable => Route::BlueLight(true),
        CommandKind::BlueLightFilterDisable => Route::BlueLight(false),
        _ => Route::Desktop,
    }
}

/// Where a command goes.
pub fn route(command: CommandKind) -> (r: Route)
    ensures
        r == route_of(command),
{
    match command {
        CommandKind::BrightnessUp => Route::Brightness(ControlKind::Backlight, true),
        CommandKind::BrightnessDown => Route::Brightness(ControlKind::Backlight, false),
        CommandKind::KeyboardBrightnessUp => Route::Brightness(ControlKind::Keyboard, true),
        CommandKind::KeyboardBrightnessDown => Route::Brightness(ControlKind::Keyboard, false),
        CommandKind::DumpDarkTheme => Route::DumpTheme(Theme::Dark),
        CommandKind::DumpLightTheme => Route::DumpTheme(Theme::Light),
        CommandKind::ThemeDark => Route::SetTheme(Theme::Dark),
        CommandKind::ThemeLight => Route::SetTheme(Theme::Light),
        CommandKind::VolumeUp | CommandKind::VolumeDown | CommandKind::VolumeSet | CommandKind::VolumeMute => Route::Audio,
        CommandKind::BlueLightFilterEnable => Route::BlueLight(true),
        CommandKind::BlueLightFilterDisable => Route::BlueLight(false),
        _ => Route::Desktop,
    }
}

/// The temperature of the blue-light filter, in kelvin.
pub const BLUE_LIGHT_TEMPERATURE: u32 = 3100;

/// Why an audio command cannot act.
#[derive(Clone, Copy, Debug, PartialEq, Eq, Structural)]
pub enum AudioCommandError {
    NoDefaultOutput,
    NoVolumeControl,
}

/// The text of each error.
pub open spec fn audio_command_error_message(e: AudioCommandError) -> Seq<char> {
    match e {
        AudioCommandError::NoDefaultOutput => "No default audio output is available"@,
        AudioCommandError::NoVolumeControl => "The default audio output has no volume control"@,
    }
}

impl AudioCommandError {
    /// The message reported for this error.
    pub fn message(&self) -> (r: &'static str)
        ensures
            r@ == audio_command_error_message(*self),
    {
        match self {
            AudioCommandError::NoDefaultOutput => "No default audio output is available",
            AudioCommandError::NoVolumeControl => "The default audio output has no volume control",
        }
    }
}

/// The node an audio command acts on: the default sink.
pub fn audio_target(state: &AudioState) -> (r: Result<u32, AudioCommandError>)
    ensures
        match state.default_sink {
            Some(id) => r == Ok::<u32, AudioCommandError>(id),
            None => r == Err::<u32, AudioCommandError>(AudioCommandError::NoDefaultOutput),
        },
{
    match state.default_sink {
        Some(id) => Ok(id),
        None => Err(AudioCommandError::NoDefaultOutput),
    }
}

/// The mute state a mute command sets on the default sink: the opposite of what the
/// mixer reports for it.
pub fn mute_toggle(state: &AudioState) -> (r: Result<(u32, bool), AudioCommandError>)
    ensures
        match state.default_sink {
            None => r == Err::<(u32, bool), AudioCommandError>(AudioCommandError::NoDefaultOutput),
            Some(id) => match first_node(state.nodes@, id) {
                Some(n) => match n.volume_muted {
                    Some(m) => r == Ok::<(u32, bool), AudioCommandError>((id, !m)),
                    None => r == Err::<(u32, bool), AudioCommandError>(AudioCommandError::NoVolumeControl),
                },
                None => r == Err::<(u32, bool), AudioCommandError>(AudioCommandError::NoVolumeControl),
            },
        },
{
    let id = match state.default_sink {
        Some(id) => id,
        None => return Err(AudioCommandError::NoDefaultOutput),
    };
    match state.node(id) {
        Some(n) => match n.volume_muted {
            Some(m) => Ok((id, !m)),
            None => Err(AudioCommandError::NoVolumeControl),
        },
        None => Err(AudioCommandError::NoVolumeControl),
    }
}

/// Keeps the desktop surfaces in step with the outputs. Output changes are batched into
/// one idle update; a removal forces the surfaces to be rebuilt; surfaces built while
/// the outputs changed again are thrown away and built anew.
#[derive(Clone, Copy, Debug, PartialEq, Eq, Structural)]
pub struct OutputSync {
    pub running: bool,
    pub revision: u64,
    pub rebuild: bool,
    pub scheduled: bool,
    pub built: bool,
}

/// What an idle update does.
#[derive(Clone, Copy, Debug, PartialEq, Eq, Structural)]
pub struct Reconcile {
    /// Close the surfaces that stand.
    pub close: bool,
    /// Build surfaces, tagged with this revision.
    pub build: Option<u64>,
}

impl OutputSync {
    /// A running shell with no surfaces yet.
    pub fn new() -> (r: OutputSync)
        ensures
            r == (OutputSync { running: true, revision: 0, rebuild: false, scheduled: false, built: false }),
    {
        OutputSync { running: true, revision: 0, rebuild: false, scheduled: false, built: false }
    }

    /// The outputs changed; returns whether an idle update must be scheduled.
    pub fn outputs_changed(&mut self, removed: bool) -> (r: bool)
        ensures
            !old(self).running ==> !r && *final(self) == *old(self),
            old(self).running ==> *final(self) == (OutputSync {
                revision: old(self).revision.wrapping_add(1),
                rebuild: old(self).rebuild || removed,
                scheduled: true,
                ..*old(self)
            }) && r == !old(self).scheduled,
    {
        if !self.running {
            return false;
        }
        self.revision = self.revision.wrapping_add(1);
        self.rebuild = self.rebuild || removed;
        if self.scheduled {
            return false;
        }
        self.scheduled = true;
        true
    }

    /// The idle update runs with `outputs` monitors present.
    pub fn update(&mut self, outputs: u32) -> (r: Reconcile)
        ensures
            !final(self).scheduled,
            !old(self).running ==> r == (Reconcile { close: false, build: None }),
            old(self).running ==> {
                let close = old(self).built && (old(self).rebuild || outputs == 0);
                &&& r.close == close
                &&& !final(self).rebuild
                &&& final(self).built == (old(self).built && !close)
                &&& r.build == (if outputs > 0 && !(old(self).built && !close) { Some(old(self).revision) } else { None })
            },
    {
        self.scheduled = false;
        if !self.running {
            return Reconcile { close: false, build: None };
        }
        let close = self.built && (self.rebuild || outputs == 0);
        self.rebuild = false;
        if close {
            self.built = false;
        }
        let build = if outputs > 0 && !self.built {
            Some(self.revision)
        } else {
            None
        };
        Reconcile { close, build }
    }

    /// Surfaces tagged `revision` were built. They are kept if nothing changed meanwhile;
    /// otherwise they are closed and a rebuild is scheduled (the result says whether a new
    /// idle update must be scheduled).
    pub fn built(&mut self, revision: u64, outputs: u32) -> (r: (bool, bool))
        ensures
            (old(self).running && old(self).revision == revision && outputs != 0) ==> r == (true, false)
                && *final(self) == (OutputSync { built: true, ..*old(self) }),
            !(old(self).running && old(self).revision == revision && outputs != 0) ==> r == (
                false,
                old(self).running && !old(self).scheduled,
            ) && *final(self) == if old(self).running {
                OutputSync {
                    revision: old(self).revision.wrapping_add(1),
                    rebuild: true,
                    scheduled: true,
                    ..*old(self)
                }
            } else {
                *old(self)
            },
    {
        if self.running && self.revision == revision && outputs != 0 {
            self.built = true;
            return (true, false);
        }
        let schedule = self.outputs_changed(true);
        (false, schedule)
    }

    /// The shell stops.
    pub fn stop(&mut self)
        ensures
            *final(self) == (OutputSync { running: false, built: false, ..*old(self) }),
    {
        self.running = false;
        self.built = false;
    }
}

} // verus!
