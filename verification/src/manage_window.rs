//! Taking a native window into the tree for the first time.

use vstd::prelude::*;
use crate::config::UserConfig;
use crate::container::Container;
use crate::container::ContainerId;
use crate::error::WmError;
use crate::rect::Rect;
use crate::tree::TreeView;
use crate::window::NativeWindow;
use crate::window::NonTilingWindow;
use crate::window::TilingWindow;
use crate::window::WindowState;
use crate::wm_state::WmEvent;
use crate::wm_state::WmState;
use crate::wm_state::WmStateView;

verus! {

/// What managing a window attaches, and where.
pub struct NewWindow {
    pub container: Container,
    pub parent: ContainerId,
    pub index: usize,
}

/// The state in which a window enters the tree. The first that applies
/// decides: minimized, fullscreen, floating for a window that cannot be
/// resized, else tiling. A maximized window that can be resized is tiling.
pub open spec fn initial_window_state(native_window: NativeWindow, config: UserConfig)
    -> WindowState {
    if native_window.is_minimized {
        WindowState::Minimized
    } else if native_window.is_fullscreen {
        WindowState::Fullscreen(config.window_state_defaults.fullscreen)
    } else if !native_window.is_resizable {
        WindowState::Floating(config.window_state_defaults.floating)
    } else {
        WindowState::Tiling
    }
}

/// Where a window goes that was given no parent: to the front of the
/// focused workspace, else behind the focused container under its parent.
pub open spec fn spec_insertion_target(tree: TreeView) -> Result<(ContainerId, usize), WmError> {
    match tree.focused_container() {
        None => Err(WmError::NoFocusedContainer),
        Some(focused) => if tree.container_of(focused) is Workspace {
            Ok((focused, 0))
        } else {
            match tree.parent_of(focused) {
                None => Err(WmError::NoInsertionTarget),
                Some(parent) => Ok((parent, (tree.index_of(focused) + 1) as usize)),
            }
        },
    }
}

/// Where a window stands when it floats: where the platform reports it, if
/// its workspace is the one that the nearest monitor shows and floating
/// windows are not centered by default; else on the center of its
/// workspace, which yields nothing where that placement cannot be held.
pub open spec fn spec_floating_placement(
    placement: Rect,
    workspace_rect: Rect,
    on_displayed_workspace: bool,
    centered: bool,
) -> Option<Rect> {
    if on_displayed_workspace && !centered {
        Some(placement)
    } else if placement.center_fits(workspace_rect) {
        Some(placement.centered_in(workspace_rect))
    } else {
        None
    }
}

/// The container that stands for a new window in the given state.
pub open spec fn new_window_container(
    native_window: NativeWindow,
    state: WindowState,
    floating_placement: Rect,
    inner_gap: u32,
    has_pending_dpi_adjustment: bool,
) -> Container {
    match state {
        WindowState::Tiling => Container::TilingWindow(
            TilingWindow {
                native: native_window,
                floating_placement,
                inner_gap,
                has_pending_dpi_adjustment,
            },
        ),
        _ => Container::NonTilingWindow(
            NonTilingWindow {
                native: native_window,
                state,
                insertion_target: None,
                floating_placement,
                has_pending_dpi_adjustment,
            },
        ),
    }
}

/// The rectangle of a workspace.
pub open spec fn workspace_rect(tree: TreeView, workspace: ContainerId) -> Rect {
    match tree.container_of(workspace) {
        Container::Workspace(w) => w.rect,
        _ => Rect { left: 0, top: 0, right: 0, bottom: 0 },
    }
}

/// What managing a native window attaches and where, or why it cannot be
/// managed.
pub open spec fn window_to_create(
    tree: TreeView,
    native_window: NativeWindow,
    target_parent: Option<ContainerId>,
    config: UserConfig,
) -> Result<NewWindow, WmError> {
    let target = match target_parent {
        Some(parent) => Ok((parent, 0usize)),
        None => spec_insertion_target(tree),
    };
    match target {
        Err(e) => Err(e),
        Ok((parent, index)) => match tree.workspace_of(parent) {
            None => Err(WmError::NoWorkspace),
            Some(workspace) => match tree.nearest_monitor(native_window) {
                None => Err(WmError::NoMonitor),
                Some(monitor) => match tree.displayed_workspace(monitor) {
                    None => Err(WmError::NoWorkspace),
                    Some(displayed) => match spec_floating_placement(
                        native_window.placement,
                        workspace_rect(tree, workspace),
                        displayed == workspace,
                        config.window_state_defaults.floating.centered,
                    ) {
                        None => Err(WmError::PlacementOutOfRange),
                        Some(placement) => match tree.has_dpi_difference(monitor, parent) {
                            None => Err(WmError::NoMonitor),
                            Some(differs) => if tree.container_of(parent).spec_is_window() {
                                Err(WmError::WindowHoldsNoChildren)
                            } else {
                                Ok(
                                    NewWindow {
                                        container: new_window_container(
                                            native_window,
                                            initial_window_state(native_window, config),
                                            placement,
                                            config.gaps.inner_gap,
                                            differs,
                                        ),
                                        parent,
                                        index,
                                    },
                                )
                            },
                        },
                    },
                },
            },
        },
    }
}

/// The state after a window has been managed: the window is attached and
/// carries the focus, the event is out, the platform's focus is to be
/// brought in line, and the parent of a tiling window, or a non-tiling
/// window itself, is to be redrawn.
pub open spec fn managed(s: WmStateView, new: NewWindow) -> WmStateView {
    let id = s.tree.nodes.len() as ContainerId;
    WmStateView {
        tree: s.tree.attach(new.container, new.parent, new.index as int).with_focus(id, None),
        containers_to_redraw: s.with_redraw(
            if new.container is TilingWindow {
                new.parent
            } else {
                id
            },
        ).containers_to_redraw,
        has_pending_focus_sync: true,
        unmanaged_or_minimized_timestamp: s.unmanaged_or_minimized_timestamp,
        events: s.events.push(WmEvent::WindowManaged { managed_window: id }),
    }
}

/// Takes a native window into the tree: under `target_parent` as its first
/// child where one is given, else beside the focused container.
pub fn manage_window(
    native_window: NativeWindow,
    target_parent: Option<ContainerId>,
    state: &mut WmState,
    config: &UserConfig,
) -> (r: Result<(), WmError>)
    requires
        old(state)@.wf(),
    ensures
        final(state)@.wf(),
        match window_to_create(old(state)@.tree, native_window, target_parent, *config) {
            Ok(new) => r == Ok::<(), WmError>(()) && final(state)@ == managed(old(state)@, new),
            Err(e) => r == Err::<(), WmError>(e) && final(state)@ == old(state)@,
        },
        old(state)@.containers_to_redraw.no_duplicates()
            ==> final(state)@.containers_to_redraw.no_duplicates(),
{
    let window = match create_window(native_window, target_parent, state, config) {
        Ok(window) => window,
        Err(e) => {
            return Err(e);
        },
    };
    let ghost new = window_to_create(old(state)@.tree, native_window, target_parent, *config)->Ok_0;
    let ghost attached = state.tree@;
    proof {
        assert(attached.node(window).parent == Some(new.parent));
        assert(attached.node(window).container == new.container);
    }
    state.tree.set_focused_descendant(window, None);
    state.emit_event(WmEvent::WindowManaged { managed_window: window });
    state.has_pending_focus_sync = true;
    proof {
        assert(state.tree@.node(window) == attached.focused_node(window, window, None));
    }
    let to_redraw = if state.tree.container(window).is_tiling_window() {
        match state.tree.parent(window) {
            Some(parent) => parent,
            None => {
                return Err(WmError::NoParent);
            },
        }
    } else {
        window
    };
    state.add_container_to_redraw(to_redraw);
    Ok(())
}

/// Builds the container for a native window and attaches it.
pub fn create_window(
    native_window: NativeWindow,
    target_parent: Option<ContainerId>,
    state: &mut WmState,
    config: &UserConfig,
) -> (r: Result<ContainerId, WmError>)
    requires
        old(state)@.wf(),
    ensures
        final(state)@.wf(),
        match window_to_create(old(state)@.tree, native_window, target_parent, *config) {
            Ok(new) => r == Ok::<ContainerId, WmError>(old(state)@.tree.nodes.len() as ContainerId)
                && final(state)@ == old(state)@.with_tree(
                old(state)@.tree.attach(new.container, new.parent, new.index as int),
            ),
            Err(e) => r == Err::<ContainerId, WmError>(e) && final(state)@ == old(state)@,
        },
{
    let (target_parent, target_index) = match target_parent {
        Some(parent) => (parent, 0),
        None => match insertion_target(state) {
            Ok(target) => target,
            Err(e) => {
                return Err(e);
            },
        },
    };
    let target_workspace = match state.tree.workspace_of(target_parent) {
        Some(workspace) => workspace,
        None => {
            return Err(WmError::NoWorkspace);
        },
    };
    let nearest_monitor = match state.nearest_monitor(&native_window) {
        Some(monitor) => monitor,
        None => {
            return Err(WmError::NoMonitor);
        },
    };
    let nearest_workspace = match state.tree.displayed_workspace(nearest_monitor) {
        Some(workspace) => workspace,
        None => {
            return Err(WmError::NoWorkspace);
        },
    };
    let target_rect = match state.tree.container(target_workspace) {
        Container::Workspace(w) => w.rect,
        _ => Rect::from_ltrb(0, 0, 0, 0),
    };
    let placement = match floating_placement(
        &native_window.placement,
        &target_rect,
        nearest_workspace == target_workspace,
        config.window_state_defaults.floating.centered,
    ) {
        Some(placement) => placement,
        None => {
            return Err(WmError::PlacementOutOfRange);
        },
    };
    let has_dpi_difference = match state.tree.has_dpi_difference(nearest_monitor, target_parent) {
        Ok(differs) => differs,
        Err(e) => {
            return Err(e);
        },
    };
    let window_state = window_state_to_create(&native_window, config);
    let window_container = match window_state {
        WindowState::Tiling => {
            let mut window = TilingWindow::new(native_window, placement, config.gaps.inner_gap);
            window.has_pending_dpi_adjustment = has_dpi_difference;
            Container::TilingWindow(window)
        },
        _ => {
            let mut window = NonTilingWindow::new(native_window, window_state, None, placement);
            window.has_pending_dpi_adjustment = has_dpi_difference;
            Container::NonTilingWindow(window)
        },
    };
    state.tree.attach_container(window_container, target_parent, Some(target_index))
}

/// The state in which a window enters the tree.
pub fn window_state_to_create(native_window: &NativeWindow, config: &UserConfig) -> (s:
    WindowState)
    ensures
        s == initial_window_state(*native_window, *config),
{
    if native_window.is_minimized {
        return WindowState::Minimized;
    }
    if native_window.is_fullscreen {
        return WindowState::Fullscreen(config.window_state_defaults.fullscreen);
    }
    if !native_window.is_resizable {
        return WindowState::Floating(config.window_state_defaults.floating);
    }
    WindowState::Tiling
}

/// Where a window stands when it floats.
pub fn floating_placement(
    placement: &Rect,
    workspace_rect: &Rect,
    on_displayed_workspace: bool,
    centered: bool,
) -> (r: Option<Rect>)
    ensures
        r == spec_floating_placement(
            *placement,
            *workspace_rect,
            on_displayed_workspace,
            centered,
        ),
{
    if on_displayed_workspace && !centered {
        Some(*placement)
    } else {
        placement.translate_to_center(workspace_rect)
    }
}

/// Where a window goes that was given no parent.
pub fn insertion_target(state: &WmState) -> (r: Result<(ContainerId, usize), WmError>)
    requires
        state@.wf(),
    ensures
        r == spec_insertion_target(state@.tree),
        r matches Ok((parent, index)) ==> state@.tree.contains(parent)
            && !state@.tree.container_of(parent).spec_is_window() && index
            <= state@.tree.children_of(parent).len(),
{
    let focused_container = match state.focused_container() {
        Some(focused) => focused,
        None => {
            return Err(WmError::NoFocusedContainer);
        },
    };
    if state.tree.container(focused_container).is_workspace() {
        Ok((focused_container, 0))
    } else {
        match state.tree.parent(focused_container) {
            Some(parent) => {
                proof {
                    assert(state@.tree.node_wf(focused_container));
                    assert(state@.tree.node_wf(parent));
                }
                let index = state.tree.index(focused_container);
                let count = state.tree.child_count(parent);
                assert(index < count);
                Ok((parent, index + 1))
            },
            None => Err(WmError::NoInsertionTarget),
        }
    }
}

} // verus!
