//! Moving a managed window from one placement state to another.

use vstd::prelude::*;
use std::time::Instant;
use crate::clock::current_instant;
use crate::config::UserConfig;
use crate::container::Container;
use crate::container::ContainerId;
use crate::error::WmError;
use crate::select::Criterion;
use crate::seq_util::lemma_without;
use crate::seq_util::lemma_without_index;
use crate::seq_util::without;
use crate::tree::Tree;
use crate::tree::TreeView;
use crate::window::InsertionTarget;
use crate::window::NonTilingWindow;
use crate::window::WindowState;
use crate::wm_state::WmState;
use crate::wm_state::WmStateView;

verus! {

/// Whether `window` can be put at a remembered place: the parent is still
/// a container of the tree that may hold children, and the position lies
/// within its children.
pub open spec fn usable_target(tree: TreeView, window: ContainerId, target: InsertionTarget)
    -> bool {
    &&& tree.contains(target.parent)
    &&& !tree.container_of(target.parent).spec_is_window()
    &&& target.index <= without(tree.children_of(target.parent), window).len()
}

/// The place that a non-tiling window remembers, where it can be used.
pub open spec fn remembered_target(tree: TreeView, window: ContainerId) -> Option<InsertionTarget> {
    match tree.container_of(window) {
        Container::NonTilingWindow(w) => match w.insertion_target {
            Some(target) => if usable_target(tree, window, target) {
                Some(target)
            } else {
                None
            },
            None => None,
        },
        _ => None,
    }
}

/// The place right behind the tiling window of `workspace` that was
/// focused most recently, if there is one.
pub open spec fn target_beside_tiling(tree: TreeView, window: ContainerId, workspace: ContainerId)
    -> Option<InsertionTarget> {
    match tree.first_meeting(tree.descendant_focus_order(workspace), Criterion::TilingWindow) {
        Some(beside) => match tree.parent_of(beside) {
            Some(parent) => Some(
                InsertionTarget {
                    parent,
                    index: (without(tree.children_of(parent), window).index_of(beside)
                        + 1) as usize,
                },
            ),
            None => None,
        },
        None => None,
    }
}

/// Where a window that becomes tiling is put: at the place it remembers;
/// else right behind the most recently focused tiling window of its
/// workspace; else at the front of the workspace.
pub open spec fn tiling_target(tree: TreeView, window: ContainerId, workspace: ContainerId)
    -> InsertionTarget {
    match remembered_target(tree, window) {
        Some(target) => target,
        None => match target_beside_tiling(tree, window, workspace) {
            Some(target) => target,
            None => InsertionTarget { parent: workspace, index: 0 },
        },
    }
}

/// What making a window tiling does. A non-tiling window becomes a tiling
/// window with the configured gap, in its place, is then moved to its
/// tiling target, and is listed for redraw. Any other container is left
/// alone.
pub open spec fn spec_set_tiling(s: WmStateView, window: ContainerId, config: UserConfig) -> (
    Result<(), WmError>,
    WmStateView,
) {
    if !s.tree.contains(window) {
        (Ok(()), s)
    } else {
        match s.tree.container_of(window) {
            Container::NonTilingWindow(w) => match s.tree.workspace_of(window) {
                None => (Err(WmError::NoWorkspace), s),
                Some(workspace) => {
                    let target = tiling_target(s.tree, window, workspace);
                    let tree = s.tree.replace(
                        window,
                        Container::TilingWindow(w.spec_to_tiling(config.gaps.inner_gap)),
                    ).moved(window, target.parent, target.index as int);
                    (Ok(()), s.with_tree(tree).with_redraw(window))
                },
            },
            _ => (Ok(()), s),
        }
    }
}

/// The tree after a tiling window has left the layout: it has moved to
/// the end of its workspace and is a non-tiling window in the requested
/// state, which remembers where it stood.
pub open spec fn untiled(
    tree: TreeView,
    window: ContainerId,
    workspace: ContainerId,
    requested: WindowState,
) -> TreeView {
    let stood = InsertionTarget {
        parent: tree.parent_of(window).unwrap(),
        index: tree.index_of(window) as usize,
    };
    tree.moved(
        window,
        workspace,
        without(tree.children_of(workspace), window).len() as int,
    ).replace(
        window,
        Container::NonTilingWindow(
            tree.container_of(window)->TilingWindow_0.spec_to_non_tiling(requested, Some(stood)),
        ),
    )
}

/// The tree in which the focus has passed on from a window that was
/// minimized.
pub open spec fn refocused_after_removal(tree: TreeView, window: ContainerId) -> TreeView {
    match tree.focus_target_after_removal(window) {
        Some(target) => tree.with_focus(target, None),
        None => tree,
    }
}

/// What taking a window to a non-tiling state does. A non-tiling window
/// changes its state where it stands and is listed for redraw. A tiling
/// window leaves the layout, and its former parent is listed for redraw;
/// where it is minimized, the instant is recorded, the platform's focus is
/// to be brought in line, and the focus passes on.
pub open spec fn spec_set_non_tiling(
    s: WmStateView,
    window: ContainerId,
    requested: WindowState,
    now: Instant,
) -> (Result<(), WmError>, WmStateView) {
    if !s.tree.contains(window) {
        (Err(WmError::UnknownContainer), s)
    } else {
        match s.tree.container_of(window) {
            Container::NonTilingWindow(w) => (
                Ok(()),
                s.with_tree(
                    s.tree.replace(
                        window,
                        Container::NonTilingWindow(NonTilingWindow { state: requested, ..w }),
                    ),
                ).with_redraw(window),
            ),
            Container::TilingWindow(_) => match s.tree.workspace_of(window) {
                None => (Err(WmError::NoWorkspace), s),
                Some(workspace) => {
                    let tree = untiled(s.tree, window, workspace, requested);
                    let after = if requested is Minimized {
                        WmStateView {
                            tree: refocused_after_removal(tree, window),
                            has_pending_focus_sync: true,
                            unmanaged_or_minimized_timestamp: Some(now),
                            ..s
                        }
                    } else {
                        s.with_tree(tree)
                    };
                    (Ok(()), after.with_redraw(s.tree.parent_of(window).unwrap()))
                },
            },
            _ => (Err(WmError::NotAWindow), s),
        }
    }
}

/// What a request for a placement state does: nothing where the window
/// already has a state of that tag; else what the requested state asks.
pub open spec fn spec_update_window_state(
    s: WmStateView,
    window: ContainerId,
    requested: WindowState,
    config: UserConfig,
    now: Instant,
) -> (Result<(), WmError>, WmStateView) {
    if !s.tree.contains(window) {
        (Err(WmError::UnknownContainer), s)
    } else {
        match s.tree.container_of(window).spec_window_state() {
            None => (Err(WmError::NotAWindow), s),
            Some(current) => if current.same_tag(requested) {
                (Ok(()), s)
            } else if requested is Tiling {
                spec_set_tiling(s, window, config)
            } else {
                spec_set_non_tiling(s, window, requested, now)
            },
        }
    }
}

/// The instant that a state has recorded.
pub open spec fn recorded_instant(s: WmStateView) -> Instant {
    s.unmanaged_or_minimized_timestamp.unwrap()
}

/// Takes a window to the requested placement state, reading the clock for
/// the instant to record.
pub fn update_window_state(
    window: ContainerId,
    window_state: WindowState,
    state: &mut WmState,
    config: &UserConfig,
) -> (r: Result<(), WmError>)
    requires
        old(state)@.wf(),
    ensures
        final(state)@.wf(),
        (r, final(state)@) == spec_update_window_state(
            old(state)@,
            window,
            window_state,
            *config,
            recorded_instant(final(state)@),
        ),
        old(state)@.containers_to_redraw.no_duplicates()
            ==> final(state)@.containers_to_redraw.no_duplicates(),
{
    let now = current_instant();
    update_window_state_at(window, window_state, now, state, config)
}

/// Takes a window to the requested placement state at the instant `now`.
pub fn update_window_state_at(
    window: ContainerId,
    window_state: WindowState,
    now: Instant,
    state: &mut WmState,
    config: &UserConfig,
) -> (r: Result<(), WmError>)
    requires
        old(state)@.wf(),
    ensures
        final(state)@.wf(),
        (r, final(state)@) == spec_update_window_state(
            old(state)@,
            window,
            window_state,
            *config,
            now,
        ),
        final(state)@.unmanaged_or_minimized_timestamp == Some(now)
            || final(state)@.unmanaged_or_minimized_timestamp
            == old(state)@.unmanaged_or_minimized_timestamp,
        old(state)@.containers_to_redraw.no_duplicates()
            ==> final(state)@.containers_to_redraw.no_duplicates(),
{
    if !state.tree.contains(window) {
        return Err(WmError::UnknownContainer);
    }
    let current = match state.tree.container(window).window_state() {
        Some(current) => current,
        None => {
            return Err(WmError::NotAWindow);
        },
    };
    if current == window_state {
        return Ok(());
    }
    match window_state {
        WindowState::Tiling => set_tiling(window, state, config),
        _ => set_non_tiling(window, window_state, now, state),
    }
}

/// Where a window that becomes tiling is put.
fn find_tiling_target(tree: &Tree, window: ContainerId, workspace: ContainerId) -> (r:
    InsertionTarget)
    requires
        tree@.wf(),
        tree@.contains(window),
        tree@.container_of(window) is NonTilingWindow,
        tree@.workspace_of(window) == Some(workspace),
    ensures
        r == tiling_target(tree@, window, workspace),
        usable_target(tree@, window, r),
        r.parent != window,
{
    proof {
        assert(tree@.node_wf(window));
        tree@.lemma_nearest_of_kind(window, crate::container::ContainerKind::Workspace);
    }
    let own_parent = tree.parent(window).unwrap();
    let own_index = tree.index(window);
    if let Container::NonTilingWindow(w) = tree.container(window) {
        if let Some(target) = w.insertion_target {
            if tree.contains(target.parent) && !tree.container(target.parent).is_window() {
                proof {
                    assert(tree@.node_wf(target.parent));
                    lemma_without(tree@.children_of(target.parent), window);
                    tree@.lemma_child_iff_parent(target.parent, window);
                }
                let count = tree.child_count(target.parent);
                let limit = if own_parent == target.parent {
                    count - 1
                } else {
                    count
                };
                if target.index <= limit {
                    return target;
                }
            }
        }
    }
    let order = tree.descendant_focus_order(workspace);
    if let Some(beside) = tree.first_meeting(&order, Criterion::TilingWindow) {
        if let Some(parent) = tree.parent(beside) {
            proof {
                assert(tree@.node_wf(beside));
                assert(tree@.node_wf(parent));
                tree@.lemma_child_iff_parent(parent, window);
                lemma_without(tree@.children_of(parent), window);
            }
            let at = tree.index(beside);
            let count = tree.child_count(parent);
            assert(at < count);
            proof {
                lemma_without_index(tree@.children_of(parent), window, at as int);
            }
            let index = if own_parent == parent && own_index < at {
                at
            } else {
                at + 1
            };
            return InsertionTarget { parent, index };
        }
    }
    proof {
        assert(tree@.node_wf(workspace));
        lemma_without(tree@.children_of(workspace), window);
    }
    InsertionTarget { parent: workspace, index: 0 }
}

/// Makes a window tiling.
pub fn set_tiling(window: ContainerId, state: &mut WmState, config: &UserConfig) -> (r: Result<
    (),
    WmError,
>)
    requires
        old(state)@.wf(),
    ensures
        final(state)@.wf(),
        (r, final(state)@) == spec_set_tiling(old(state)@, window, *config),
        old(state)@.containers_to_redraw.no_duplicates()
            ==> final(state)@.containers_to_redraw.no_duplicates(),
{
    if !state.tree.contains(window) {
        return Ok(());
    }
    if let Container::NonTilingWindow(non_tiling) = state.tree.container(window) {
        let workspace = match state.tree.workspace_of(window) {
            Some(workspace) => workspace,
            None => {
                return Err(WmError::NoWorkspace);
            },
        };
        let target = find_tiling_target(&state.tree, window, workspace);
        let tiling_window = non_tiling.to_tiling(config.gaps.inner_gap);
        proof {
            assert(state@.tree.node_wf(window));
            state@.tree.lemma_nearest_of_kind(window, crate::container::ContainerKind::Workspace);
        }
        let parent = match state.tree.parent(window) {
            Some(parent) => parent,
            None => {
                return Err(WmError::NoParent);
            },
        };
        let index = state.tree.index(window);
        let ghost before = state.tree@;
        match state.tree.replace_container(Container::TilingWindow(tiling_window), parent, index) {
            Ok(_) => {},
            Err(e) => {
                return Err(e);
            },
        }
        proof {
            let replaced = state.tree@;
            assert(replaced.node(window).children == before.node(window).children);
            assert(replaced.node(target.parent) == before.node(target.parent));
            if replaced.in_subtree(target.parent, window) {
                replaced.lemma_leaf_subtree(window, target.parent);
            }
        }
        match state.tree.move_container_within_tree(window, target.parent, target.index) {
            Ok(_) => {},
            Err(e) => {
                return Err(e);
            },
        }
        state.add_container_to_redraw(window);
    }
    Ok(())
}

/// Takes a window to a non-tiling state at the instant `now`.
pub fn set_non_tiling(
    window: ContainerId,
    window_state: WindowState,
    now: Instant,
    state: &mut WmState,
) -> (r: Result<(), WmError>)
    requires
        old(state)@.wf(),
        !(window_state is Tiling),
    ensures
        final(state)@.wf(),
        (r, final(state)@) == spec_set_non_tiling(old(state)@, window, window_state, now),
        old(state)@.containers_to_redraw.no_duplicates()
            ==> final(state)@.containers_to_redraw.no_duplicates(),
{
    if !state.tree.contains(window) {
        return Err(WmError::UnknownContainer);
    }
    match state.tree.container(window) {
        Container::NonTilingWindow(non_tiling) => {
            let mut changed = non_tiling;
            changed.state = window_state;
            match state.tree.set_container(window, Container::NonTilingWindow(changed)) {
                Ok(_) => {},
                Err(e) => {
                    proof {
                        assert(state@.tree.node_wf(window));
                    }
                    return Err(e);
                },
            }
            state.add_container_to_redraw(window);
            Ok(())
        },
        Container::TilingWindow(tiling) => {
            let workspace = match state.tree.workspace_of(window) {
                Some(workspace) => workspace,
                None => {
                    return Err(WmError::NoWorkspace);
                },
            };
            proof {
                assert(state@.tree.node_wf(window));
                assert(state@.tree.node_wf(workspace));
                state@.tree.lemma_nearest_of_kind(
                    window,
                    crate::container::ContainerKind::Workspace,
                );
                state@.tree.lemma_child_iff_parent(workspace, window);
                lemma_without(state@.tree.children_of(workspace), window);
                if state@.tree.in_subtree(workspace, window) {
                    state@.tree.lemma_leaf_subtree(window, workspace);
                }
            }
            let parent = match state.tree.parent(window) {
                Some(parent) => parent,
                None => {
                    return Err(WmError::NoParent);
                },
            };
            let index = state.tree.index(window);
            let count = state.tree.child_count(workspace);
            let end = if parent == workspace {
                count - 1
            } else {
                count
            };
            let ghost before = state.tree@;
            match state.tree.move_container_within_tree(window, workspace, end) {
                Ok(_) => {},
                Err(e) => {
                    return Err(e);
                },
            }
            let non_tiling = tiling.to_non_tiling(
                window_state,
                Some(InsertionTarget { parent, index }),
            );
            proof {
                before.lemma_moved_members(workspace, window, workspace, end as int);
                assert(state.tree@.node(workspace) == before.moved_node(
                    workspace,
                    window,
                    workspace,
                    end as int,
                ));
                assert(state.tree@.node(window) == before.moved_node(
                    window,
                    window,
                    workspace,
                    end as int,
                ));
                lemma_without(before.children_of(window), window);
            }
            match state.tree.replace_container(Container::NonTilingWindow(non_tiling), workspace, end) {
                Ok(_) => {},
                Err(e) => {
                    return Err(e);
                },
            }
            if window_state.is_minimized() {
                state.unmanaged_or_minimized_timestamp = Some(now);
                state.has_pending_focus_sync = true;
                if let Some(focus_target) = state.focus_target_after_removal(window) {
                    state.tree.set_focused_descendant(focus_target, None);
                }
            }
            state.add_container_to_redraw(parent);
            Ok(())
        },
        _ => Err(WmError::NotAWindow),
    }
}

} // verus!
