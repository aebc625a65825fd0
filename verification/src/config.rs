//! Read-only snapshot of the user's configuration, as far as the tree needs it.

use vstd::prelude::*;

verus! {

/// Defaults given to a window that becomes floating.
#[derive(Clone, Copy, Debug, PartialEq, Eq, Structural)]
pub struct FloatingStateConfig {
    /// Whether a floating window is placed on the center of its workspace.
    pub centered: bool,
    /// Whether a floating window is kept above the others.
    pub shown_on_top: bool,
}

/// Defaults given to a window that becomes fullscreen.
#[derive(Clone, Copy, Debug, PartialEq, Eq, Structural)]
pub struct FullscreenStateConfig {
    /// Whether the window is maximized where it can be.
    pub maximized: bool,
    /// Whether a fullscreen window is kept above the others.
    pub shown_on_top: bool,
}

/// Defaults for each placement state that carries some.
#[derive(Clone, Copy, Debug, PartialEq, Eq, Structural)]
pub struct WindowStateDefaults {
    pub floating: FloatingStateConfig,
    pub fullscreen: FullscreenStateConfig,
}

/// Gap sizes, in pixels.
#[derive(Clone, Copy, Debug, PartialEq, Eq, Structural)]
pub struct GapsConfig {
    /// Gap between two neighbouring tiling windows.
    pub inner_gap: u32,
}

/// The configuration that the window lifecycle reads.
#[derive(Clone, Copy, Debug, PartialEq, Eq, Structural)]
pub struct UserConfig {
    pub gaps: GapsConfig,
    pub window_state_defaults: WindowStateDefaults,
}

} // verus!
