//! Windows: what the platform reports of one, and the two forms a managed
//! window takes in the tree.

use vstd::prelude::*;
use vstd::std_specs::cmp::PartialEqSpecImpl;
use crate::config::FloatingStateConfig;
use crate::config::FullscreenStateConfig;
use crate::rect::Rect;

verus! {

/// Placement state of a managed window.
#[derive(Clone, Copy, Debug)]
pub enum WindowState {
    Tiling,
    Floating(FloatingStateConfig),
    Minimized,
    Fullscreen(FullscreenStateConfig),
}

impl WindowState {
    /// Whether two states carry the same tag, whatever their parameters.
    pub open spec fn same_tag(self, other: WindowState) -> bool {
        match (self, other) {
            (WindowState::Tiling, WindowState::Tiling) => true,
            (WindowState::Floating(_), WindowState::Floating(_)) => true,
            (WindowState::Minimized, WindowState::Minimized) => true,
            (WindowState::Fullscreen(_), WindowState::Fullscreen(_)) => true,
            _ => false,
        }
    }

    pub fn is_tiling(&self) -> (r: bool)
        ensures
            r == (*self is Tiling),
    {
        match self {
            WindowState::Tiling => true,
            _ => false,
        }
    }

    pub fn is_minimized(&self) -> (r: bool)
        ensures
            r == (*self is Minimized),
    {
        match self {
            WindowState::Minimized => true,
            _ => false,
        }
    }
}

/// Two states are equal when their tags are: the parameters do not count.
impl PartialEq for WindowState {
    fn eq(&self, other: &WindowState) -> (r: bool) {
        match (self, other) {
            (WindowState::Tiling, WindowState::Tiling) => true,
            (WindowState::Floating(_), WindowState::Floating(_)) => true,
            (WindowState::Minimized, WindowState::Minimized) => true,
            (WindowState::Fullscreen(_), WindowState::Fullscreen(_)) => true,
            _ => false,
        }
    }
}

impl PartialEqSpecImpl for WindowState {
    open spec fn obeys_eq_spec() -> bool {
        true
    }

    open spec fn eq_spec(&self, other: &WindowState) -> bool {
        self.same_tag(*other)
    }
}

impl Eq for WindowState {

}

/// What the platform reports of a native window, taken once per dispatch.
#[derive(Clone, Copy, Debug, PartialEq, Eq)]
pub struct NativeWindow {
    /// The platform's handle of the window.
    pub handle: isize,
    /// Where the window stands on screen.
    pub placement: Rect,
    pub is_minimized: bool,
    pub is_fullscreen: bool,
    pub is_resizable: bool,
    /// Handle of the display that the platform reports as nearest to the window.
    pub nearest_monitor: Option<isize>,
}

/// Where a window that left the tiling layout would rejoin it.
#[derive(Clone, Copy, Debug, PartialEq, Eq)]
pub struct InsertionTarget {
    /// Identifier of the container to rejoin under.
    pub parent: usize,
    /// Position among that container's children.
    pub index: usize,
}

/// A window laid out automatically among its siblings.
#[derive(Clone, Copy, Debug, PartialEq, Eq)]
pub struct TilingWindow {
    pub native: NativeWindow,
    /// Where the window would stand if it were floating.
    pub floating_placement: Rect,
    /// Gap kept towards neighbouring windows, in pixels.
    pub inner_gap: u32,
    /// Whether the geometry still has to be corrected for a change of DPI.
    pub has_pending_dpi_adjustment: bool,
}

/// A window kept out of the automatic layout.
#[derive(Clone, Copy, Debug, PartialEq, Eq)]
pub struct NonTilingWindow {
    pub native: NativeWindow,
    /// Floating, minimized or fullscreen; never tiling.
    pub state: WindowState,
    /// Where the window would return to if it were tiled again.
    pub insertion_target: Option<InsertionTarget>,
    /// Where the window stands when it is floating.
    pub floating_placement: Rect,
    /// Whether the geometry still has to be corrected for a change of DPI.
    pub has_pending_dpi_adjustment: bool,
}

impl TilingWindow {
    pub fn new(native: NativeWindow, floating_placement: Rect, inner_gap: u32) -> (w: TilingWindow)
        ensures
            w == (TilingWindow {
                native,
                floating_placement,
                inner_gap,
                has_pending_dpi_adjustment: false,
            }),
    {
        TilingWindow { native, floating_placement, inner_gap, has_pending_dpi_adjustment: false }
    }

    /// The same window in its non-tiling form.
    pub open spec fn spec_to_non_tiling(
        self,
        state: WindowState,
        insertion_target: Option<InsertionTarget>,
    ) -> NonTilingWindow {
        NonTilingWindow {
            native: self.native,
            state,
            insertion_target,
            floating_placement: self.floating_placement,
            has_pending_dpi_adjustment: self.has_pending_dpi_adjustment,
        }
    }

    /// The same window in its non-tiling form, in the given state and
    /// remembering where it stood.
    pub fn to_non_tiling(
        &self,
        state: WindowState,
        insertion_target: Option<InsertionTarget>,
    ) -> (w: NonTilingWindow)
        ensures
            w == self.spec_to_non_tiling(state, insertion_target),
    {
        NonTilingWindow {
            native: self.native,
            state,
            insertion_target,
            floating_placement: self.floating_placement,
            has_pending_dpi_adjustment: self.has_pending_dpi_adjustment,
        }
    }
}

impl NonTilingWindow {
    pub fn new(
        native: NativeWindow,
        state: WindowState,
        insertion_target: Option<InsertionTarget>,
        floating_placement: Rect,
    ) -> (w: NonTilingWindow)
        ensures
            w == (NonTilingWindow {
                native,
                state,
                insertion_target,
                floating_placement,
                has_pending_dpi_adjustment: false,
            }),
    {
        NonTilingWindow {
            native,
            state,
            insertion_target,
            floating_placement,
            has_pending_dpi_adjustment: false,
        }
    }

    /// The same window in its tiling form.
    pub open spec fn spec_to_tiling(self, inner_gap: u32) -> TilingWindow {
        TilingWindow {
            native: self.native,
            floating_placement: self.floating_placement,
            inner_gap,
            has_pending_dpi_adjustment: self.has_pending_dpi_adjustment,
        }
    }

    /// The same window in its tiling form, with the given gap.
    pub fn to_tiling(&self, inner_gap: u32) -> (w: TilingWindow)
        ensures
            w == self.spec_to_tiling(inner_gap),
    {
        TilingWindow {
            native: self.native,
            floating_placement: self.floating_placement,
            inner_gap,
            has_pending_dpi_adjustment: self.has_pending_dpi_adjustment,
        }
    }
}

} // verus!
