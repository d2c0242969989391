//! The light and dark shell themes and where their style sheets come from.
use crate::shortcuts::discovery::{join_path, path_join};
use vstd::prelude::*;

verus! {

/// A shell theme, with the code it is reported by.
#[derive(Clone, Copy, Debug, PartialEq, Eq, Structural)]
pub enum Theme {
    Light,
    Dark,
}

/// Where a theme's style sheet is loaded from.
#[derive(Debug, PartialEq, Eq)]
pub enum ThemeSource {
    /// The user's override in the configuration directory.
    File(String),
    /// The style sheet compiled into the shell.
    Resource(&'static str),
}

/// The argument the theme hook receives for a theme.
pub open spec fn argument_of(t: Theme) -> Seq<char> {
    match t {
        Theme::Light => "light"@,
        Theme::Dark => "dark"@,
    }
}

/// The file name of a theme's style sheet.
pub open spec fn file_of(t: Theme) -> Seq<char> {
    match t {
        Theme::Light => "way-shell-light.css"@,
        Theme::Dark => "way-shell-dark.css"@,
    }
}

/// The resource path of a theme's built-in style sheet.
pub open spec fn resource_of(t: Theme) -> Seq<char> {
    match t {
        Theme::Light => "/org/ldelossa/way-shell/data/theme/way-shell-light.css"@,
        Theme::Dark => "/org/ldelossa/way-shell/data/theme/way-shell-dark.css"@,
    }
}

impl Theme {
    /// The theme a `light-theme` setting selects.
    pub fn from_light(light: bool) -> (r: Theme)
        ensures
            r == (if light { Theme::Light } else { Theme::Dark }),
    {
        if light {
            Theme::Light
        } else {
            Theme::Dark
        }
    }

    /// The code the `theme-changed` signal carries: 0 for light, 1 for dark.
    pub fn code(self) -> (r: i32)
        ensures
            r == (match self {
                Theme::Light => 0i32,
                Theme::Dark => 1i32,
            }),
    {
        match self {
            Theme::Light => 0,
            Theme::Dark => 1,
        }
    }

    /// The argument the theme hook receives.
    pub fn argument(self) -> (r: &'static str)
        ensures
            r@ == argument_of(self),
    {
        match self {
            Theme::Light => "light",
            Theme::Dark => "dark",
        }
    }

    /// The file name of this theme's style sheet.
    pub fn file_name(self) -> (r: &'static str)
        ensures
            r@ == file_of(self),
    {
        match self {
            Theme::Light => "way-shell-light.css",
            Theme::Dark => "way-shell-dark.css",
        }
    }

    /// The resource path of this theme's built-in style sheet.
    pub fn resource_path(self) -> (r: &'static str)
        ensures
            r@ == resource_of(self),
    {
        match self {
            Theme::Light => "/org/ldelossa/way-shell/data/theme/way-shell-light.css",
            Theme::Dark => "/org/ldelossa/way-shell/data/theme/way-shell-dark.css",
        }
    }

    /// The path of this theme's style sheet under `directory`.
    pub fn override_path(self, directory: &str) -> (r: String)
        ensures
            r@ == path_join(directory@, file_of(self)),
    {
        join_path(directory, self.file_name())
    }

    /// Where to load this theme from: the user's file when `override_exists` says
    /// the file at `override_path` exists, else the built-in resource.
    pub fn source(self, directory: &str, override_exists: bool) -> (r: ThemeSource)
        ensures
            override_exists ==> (r matches ThemeSource::File(p) && p@ == path_join(directory@, file_of(self))),
            !override_exists ==> (r matches ThemeSource::Resource(p) && p@ == resource_of(self)),
    {
        if override_exists {
            ThemeSource::File(self.override_path(directory))
        } else {
            ThemeSource::Resource(self.resource_path())
        }
    }
}

/// The path of the theme hook script under the configuration directory.
pub fn hook_path(directory: &str) -> (r: String)
    ensures
        r@ == path_join(directory@, "on_theme_changed.sh"@),
{
    join_path(directory, "on_theme_changed.sh")
}

/// The theme shown while none was read yet.
pub fn current_theme(theme: Option<Theme>) -> (r: Theme)
    ensures
        r == (match theme {
            Some(t) => t,
            None => Theme::Dark,
        }),
{
    match theme {
        Some(t) => t,
        None => Theme::Dark,
    }
}

} // verus!
