//! The kinds of node that the container tree holds.

use vstd::prelude::*;
use crate::rect::Rect;
use crate::window::NonTilingWindow;
use crate::window::TilingWindow;
use crate::window::WindowState;

verus! {

/// Identifier of a container: stable for as long as the tree lives.
pub type ContainerId = usize;

/// A display.
#[derive(Clone, Copy, Debug, PartialEq, Eq)]
pub struct Monitor {
    /// The platform's handle of the display.
    pub handle: isize,
    /// Dots per inch, as the platform measured them.
    pub dpi: u32,
}

/// The root of the windows shown together on one monitor.
#[derive(Clone, Copy, Debug, PartialEq, Eq)]
pub struct Workspace {
    /// The area that the workspace may use.
    pub rect: Rect,
}

/// Direction in which a split container lays out its children.
#[derive(Clone, Copy, Debug, PartialEq, Eq, Structural)]
pub enum TilingDirection {
    Horizontal,
    Vertical,
}

/// A group of tiling containers laid out in one direction.
#[derive(Clone, Copy, Debug, PartialEq, Eq)]
pub struct SplitContainer {
    pub direction: TilingDirection,
}

/// The kind of a container, without what it carries.
#[derive(Clone, Copy, Debug, PartialEq, Eq, Structural)]
pub enum ContainerKind {
    Root,
    Monitor,
    Workspace,
    Split,
    TilingWindow,
    NonTilingWindow,
}

/// A node of the tree.
#[derive(Clone, Copy, Debug, PartialEq, Eq)]
pub enum Container {
    Root,
    Monitor(Monitor),
    Workspace(Workspace),
    Split(SplitContainer),
    TilingWindow(TilingWindow),
    NonTilingWindow(NonTilingWindow),
}

impl Container {
    /// Whether the value may stand in the tree below the root: it is not
    /// the root, and a non-tiling window does not claim to be tiling.
    pub open spec fn attachable(self) -> bool {
        &&& !(self is Root)
        &&& self matches Container::NonTilingWindow(w) ==> !(w.state is Tiling)
    }

    pub open spec fn spec_is_window(self) -> bool {
        self is TilingWindow || self is NonTilingWindow
    }

    /// Placement state of a window; nothing for any other container.
    pub open spec fn spec_window_state(self) -> Option<WindowState> {
        match self {
            Container::TilingWindow(_) => Some(WindowState::Tiling),
            Container::NonTilingWindow(w) => Some(w.state),
            _ => None,
        }
    }

    pub open spec fn spec_kind(self) -> ContainerKind {
        match self {
            Container::Root => ContainerKind::Root,
            Container::Monitor(_) => ContainerKind::Monitor,
            Container::Workspace(_) => ContainerKind::Workspace,
            Container::Split(_) => ContainerKind::Split,
            Container::TilingWindow(_) => ContainerKind::TilingWindow,
            Container::NonTilingWindow(_) => ContainerKind::NonTilingWindow,
        }
    }

    pub fn kind(&self) -> (k: ContainerKind)
        ensures
            k == self.spec_kind(),
    {
        match self {
            Container::Root => ContainerKind::Root,
            Container::Monitor(_) => ContainerKind::Monitor,
            Container::Workspace(_) => ContainerKind::Workspace,
            Container::Split(_) => ContainerKind::Split,
            Container::TilingWindow(_) => ContainerKind::TilingWindow,
            Container::NonTilingWindow(_) => ContainerKind::NonTilingWindow,
        }
    }

    pub fn is_workspace(&self) -> (r: bool)
        ensures
            r == (*self is Workspace),
    {
        match self {
            Container::Workspace(_) => true,
            _ => false,
        }
    }

    pub fn is_monitor(&self) -> (r: bool)
        ensures
            r == (*self is Monitor),
    {
        match self {
            Container::Monitor(_) => true,
            _ => false,
        }
    }

    pub fn is_tiling_window(&self) -> (r: bool)
        ensures
            r == (*self is TilingWindow),
    {
        match self {
            Container::TilingWindow(_) => true,
            _ => false,
        }
    }

    pub fn is_window(&self) -> (r: bool)
        ensures
            r == self.spec_is_window(),
    {
        match self {
            Container::TilingWindow(_) => true,
            Container::NonTilingWindow(_) => true,
            _ => false,
        }
    }

    /// Placement state of a window; nothing for any other container.
    pub fn window_state(&self) -> (r: Option<WindowState>)
        ensures
            r == self.spec_window_state(),
    {
        match self {
            Container::TilingWindow(_) => Some(WindowState::Tiling),
            Container::NonTilingWindow(w) => Some(w.state),
            _ => None,
        }
    }
}

} // verus!
