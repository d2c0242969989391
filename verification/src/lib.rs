//! Verified core of the Way-Shell desktop shell: parsers, state rules and decisions.
pub mod audio;
pub mod bluetooth;
pub mod brightness;
pub mod ipc;
pub mod keyed;
pub mod logind;
pub mod media;
pub mod network;
pub mod notifications;
pub mod power;
pub mod power_profiles;
pub mod runtime;
pub mod shortcuts;
pub mod stable;
pub mod text;
pub mod theme;
pub mod tray;
pub mod wayland;
pub mod wm;
pub mod variant;
