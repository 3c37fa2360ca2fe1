//! The two looks of the panels around the viewport. A colour is a number of three
//! bytes: red, green, blue.

use vstd::prelude::*;

verus! {

/// Eggshell, the primary background.
pub const EGGSHELL: u32 = 0xf3ecdc;

/// Cloud, for cards and surfaces.
pub const CLOUD: u32 = 0xfcf8ef;

/// Deep Space, for ink and dark fields.
pub const DEEP_SPACE: u32 = 0x182241;

/// Atomic Tangerine, the primary accent.
pub const ATOMIC_TANGERINE: u32 = 0xe8633c;

/// Aqua Signal, for what is positive.
pub const AQUA_SIGNAL: u32 = 0x2ba39c;

/// Beacon Gold, for highlights.
pub const BEACON_GOLD: u32 = 0xe6a92e;

/// Eggshell, nudged darker for stripes.
pub const EGGSHELL_DIM: u32 = 0xeae1cc;

/// Signal Red, for problems on a light background.
pub const SIGNAL_RED: u32 = 0xc0392b;

/// Which look is in use.
#[derive(Clone, Copy, PartialEq, Eq, Debug, Structural)]
pub enum Theme {
    Dark,
    Light,
}

/// Accent colours that read against a theme's background.
#[derive(Clone, Copy, PartialEq, Eq, Debug, Structural)]
pub struct Palette {
    /// Success.
    pub positive: u32,
    /// Warnings and highlights.
    pub warn: u32,
    /// Problems.
    pub error: u32,
}

impl Default for Theme {
    fn default() -> (r: Theme)
        ensures
            r == Theme::Light,
    {
        Theme::Light
    }
}

impl Theme {
    /// The other theme.
    pub open spec fn other(self) -> Theme {
        match self {
            Theme::Dark => Theme::Light,
            Theme::Light => Theme::Dark,
        }
    }

    /// The other theme.
    pub fn toggled(self) -> (r: Theme)
        ensures
            r == self.other(),
    {
        match self {
            Theme::Dark => Theme::Light,
            Theme::Light => Theme::Dark,
        }
    }

    /// Whether this is the dark theme.
    pub fn is_dark(self) -> (r: bool)
        ensures
            r == (self == Theme::Dark),
    {
        match self {
            Theme::Dark => true,
            Theme::Light => false,
        }
    }

    /// The theme's accent colours.
    pub fn palette(self) -> (r: Palette)
        ensures
            r == (match self {
                Theme::Dark => Palette {
                    positive: 0x78c878,
                    warn: 0xe6b43c,
                    error: 0xe85c5c,
                },
                Theme::Light => Palette {
                    positive: AQUA_SIGNAL,
                    warn: BEACON_GOLD,
                    error: SIGNAL_RED,
                },
            }),
    {
        match self {
            Theme::Dark => Palette {
                positive: 0x78c878,
                warn: 0xe6b43c,
                error: 0xe85c5c,
            },
            Theme::Light => Palette {
                positive: AQUA_SIGNAL,
                warn: BEACON_GOLD,
                error: SIGNAL_RED,
            },
        }
    }
}

/// Toggling twice changes nothing.
pub proof fn law_toggling_twice_is_nothing(theme: Theme)
    ensures
        theme.other().other() == theme,
        theme.other() != theme,
{
}

} // verus!
