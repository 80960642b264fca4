//! The colour theme: light, dark, or following the operating system.

use vstd::prelude::*;
use crate::icons::IconName;
use crate::text::str_eq;

verus! {

#[derive(Debug, Clone, Copy, PartialEq, Eq, Structural)]
pub enum Theme {
    Light,
    Dark,
    System,
}

pub open spec fn theme_code(t: Theme) -> Seq<char> {
    match t {
        Theme::Light => "light"@,
        Theme::Dark => "dark"@,
        Theme::System => "system"@,
    }
}

/// `light` and `dark` select those themes; every other code follows the
/// system.
pub open spec fn theme_from_code(code: Seq<char>) -> Theme {
    if code == "light"@ {
        Theme::Light
    } else if code == "dark"@ {
        Theme::Dark
    } else {
        Theme::System
    }
}

/// The toggle cycles System, then Light, then Dark, then back to System.
pub open spec fn theme_next(t: Theme) -> Theme {
    match t {
        Theme::System => Theme::Light,
        Theme::Light => Theme::Dark,
        Theme::Dark => Theme::System,
    }
}

impl Theme {
    /// The persisted theme code.
    pub fn code(self) -> (r: &'static str)
        ensures
            r@ == theme_code(self),
    {
        match self {
            Theme::Light => "light",
            Theme::Dark => "dark",
            Theme::System => "system",
        }
    }

    /// The theme a stored code selects.
    pub fn from_code(code: &str) -> (r: Theme)
        ensures
            r == theme_from_code(code@),
    {
        if str_eq(code, "light") {
            Theme::Light
        } else if str_eq(code, "dark") {
            Theme::Dark
        } else {
            Theme::System
        }
    }

    /// The theme the toggle switches to.
    pub fn next(self) -> (r: Theme)
        ensures
            r == theme_next(self),
    {
        match self {
            Theme::System => Theme::Light,
            Theme::Light => Theme::Dark,
            Theme::Dark => Theme::System,
        }
    }

    /// The icon the toggle shows for this theme.
    pub fn icon(self) -> (r: IconName)
        ensures
            self == Theme::Light ==> r == IconName::Sun,
            self == Theme::Dark ==> r == IconName::Moon,
            self == Theme::System ==> r == IconName::Monitor,
    {
        match self {
            Theme::Light => IconName::Sun,
            Theme::Dark => IconName::Moon,
            Theme::System => IconName::Monitor,
        }
    }
}

/// Whether the page is drawn dark: fixed for Light and Dark; for System, what
/// the operating system prefers, or light when that cannot be queried.
pub fn resolve_dark(theme: Theme, system_prefers_dark: Option<bool>) -> (r: bool)
    ensures
        theme == Theme::Light ==> !r,
        theme == Theme::Dark ==> r,
        theme == Theme::System ==> r == (system_prefers_dark == Some(true)),
{
    match theme {
        Theme::Light => false,
        Theme::Dark => true,
        Theme::System => match system_prefers_dark {
            Some(dark) => dark,
            None => false,
        },
    }
}

/// A stored theme code restores the theme it was saved from.
pub proof fn law_theme_code_round_trip(t: Theme)
    ensures
        theme_from_code(theme_code(t)) == t,
{
    reveal_strlit("light");
    reveal_strlit("dark");
    reveal_strlit("system");
    assert("dark"@.len() != "light"@.len());
    assert("system"@.len() != "light"@.len());
    assert("system"@.len() != "dark"@.len());
}

/// Three presses of the toggle bring back the theme it started from, passing
/// through every theme once.
pub proof fn law_theme_cycle(t: Theme)
    ensures
        theme_next(theme_next(theme_next(t))) == t,
        theme_next(t) != t,
        theme_next(theme_next(t)) != t,
{
}

} // verus!
