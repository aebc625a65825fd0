//! What holds of the window lifecycle as a whole, stated over the same
//! functions that the contracts use.

use vstd::prelude::*;
use std::time::Instant;
use crate::config::UserConfig;
use crate::container::Container;
use crate::container::ContainerId;
use crate::manage_window::initial_window_state;
use crate::manage_window::managed;
use crate::manage_window::spec_floating_placement;
use crate::manage_window::window_to_create;
use crate::manage_window::workspace_rect;
use crate::rect::Rect;
use crate::seq_util::lemma_index_of_unique;
use crate::seq_util::lemma_insert;
use crate::seq_util::lemma_without;
use crate::seq_util::lemma_without_insert_back;
use crate::seq_util::without;
use crate::update_window_state::spec_set_non_tiling;
use crate::update_window_state::spec_update_window_state;
use crate::update_window_state::untiled;
use crate::update_window_state::usable_target;
use crate::window::InsertionTarget;
use crate::window::NativeWindow;
use crate::window::WindowState;
use crate::wm_state::WmStateView;

verus! {

/// Where a floating window of the container stands.
pub open spec fn floating_placement_of(container: Container) -> Rect {
    match container {
        Container::TilingWindow(w) => w.floating_placement,
        Container::NonTilingWindow(w) => w.floating_placement,
        _ => Rect { left: 0, top: 0, right: 0, bottom: 0 },
    }
}

/// A managed window stands where it was sent. Given a parent, it is that
/// parent's first child. Given none, it is the first child of the focused
/// workspace, or else the next sibling of the focused container.
pub proof fn law_insertion_placement(
    s: WmStateView,
    native_window: NativeWindow,
    target_parent: Option<ContainerId>,
    config: UserConfig,
)
    requires
        s.wf(),
        window_to_create(s.tree, native_window, target_parent, config) is Ok,
    ensures
        ({
            let new = window_to_create(s.tree, native_window, target_parent, config)->Ok_0;
            let after = managed(s, new).tree;
            let id = s.tree.nodes.len() as ContainerId;
            &&& after.parent_of(id) == Some(new.parent)
            &&& after.children_of(new.parent) == s.tree.children_of(new.parent).insert(
                new.index as int,
                id,
            )
            &&& after.children_of(new.parent)[new.index as int] == id
            &&& target_parent matches Some(p) ==> new.parent == p && new.index == 0
            &&& target_parent is None ==> {
                let focused = s.tree.focused_container().unwrap();
                if s.tree.container_of(focused) is Workspace {
                    new.parent == focused && new.index == 0
                } else {
                    &&& s.tree.parent_of(focused) == Some(new.parent)
                    &&& new.index == s.tree.index_of(focused) + 1
                    &&& after.children_of(new.parent)[new.index - 1] == focused
                }
            }
        }),
{
    let new = window_to_create(s.tree, native_window, target_parent, config)->Ok_0;
    let id = s.tree.nodes.len() as ContainerId;
    let attached = s.tree.attach(new.container, new.parent, new.index as int);
    let after = managed(s, new).tree;
    s.tree.lemma_nearest_of_kind(new.parent, crate::container::ContainerKind::Workspace);
    assert(s.tree.node_wf(new.parent));
    assert(after.node(id) == attached.focused_node(id, id, None));
    assert(after.node(new.parent) == attached.focused_node(new.parent, id, None));
    if target_parent is None {
        let focused = s.tree.focused_container().unwrap();
        if !(s.tree.container_of(focused) is Workspace) {
            assert(s.tree.contains(focused) && focused != crate::tree::ROOT) by {
                lemma_focused_is_contained(s);
            }
            assert(s.tree.node_wf(focused));
            s.tree.lemma_children_bounded(new.parent);
            let siblings = s.tree.children_of(new.parent);
            let at = siblings.index_of(focused);
            assert(0 <= at < siblings.len() && siblings[at] == focused);
        }
    }
}

/// A window that has just been managed carries the focus, as long as the
/// tree had an identifier left for it.
pub proof fn law_managed_window_is_focused(
    s: WmStateView,
    native_window: NativeWindow,
    target_parent: Option<ContainerId>,
    config: UserConfig,
)
    requires
        s.wf(),
        s.tree.nodes.len() < usize::MAX,
        window_to_create(s.tree, native_window, target_parent, config) is Ok,
    ensures
        ({
            let new = window_to_create(s.tree, native_window, target_parent, config)->Ok_0;
            &&& managed(s, new).tree.wf()
            &&& managed(s, new).tree.focused_container() == Some(
                s.tree.nodes.len() as ContainerId,
            )
        }),
{
    let new = window_to_create(s.tree, native_window, target_parent, config)->Ok_0;
    let id = s.tree.nodes.len() as ContainerId;
    s.tree.lemma_nearest_of_kind(new.parent, crate::container::ContainerKind::Workspace);
    assert(s.tree.node_wf(new.parent));
    s.tree.lemma_children_bounded(new.parent);
    if target_parent is None {
        let focused = s.tree.focused_container().unwrap();
        if !(s.tree.container_of(focused) is Workspace) {
            lemma_focused_is_contained(s);
            assert(s.tree.node_wf(focused));
            let siblings = s.tree.children_of(new.parent);
            let at = siblings.index_of(focused);
            assert(0 <= at < siblings.len() && siblings[at] == focused);
        }
    }
    lemma_window_is_attachable(native_window, config, floating_placement_of(new.container));
    s.tree.lemma_attach_wf(new.container, new.parent, new.index as int);
    let attached = s.tree.attach(new.container, new.parent, new.index as int);
    attached.lemma_focused_after_focus(id);
}

/// The container of a new window may stand in the tree.
pub proof fn lemma_window_is_attachable(
    native_window: NativeWindow,
    config: UserConfig,
    placement: Rect,
)
    ensures
        forall|gap: u32, flag: bool|
            (#[trigger] crate::manage_window::new_window_container(
                native_window,
                initial_window_state(native_window, config),
                placement,
                gap,
                flag,
            )).attachable(),
{
}

/// Wherever a container carries the focus there is a place for a new
/// window: the focused container is never without a parent.
pub proof fn law_insertion_target_exists(s: WmStateView)
    requires
        s.wf(),
    ensures
        crate::manage_window::spec_insertion_target(s.tree) is Err
            <==> s.tree.focused_container() is None,
        crate::manage_window::spec_insertion_target(s.tree) is Err
            ==> crate::manage_window::spec_insertion_target(s.tree) == Err::<
            (ContainerId, usize),
            crate::error::WmError,
        >(crate::error::WmError::NoFocusedContainer),
{
    if s.tree.focused_container() is Some {
        lemma_focused_is_contained(s);
        assert(s.tree.node_wf(s.tree.focused_container().unwrap()));
    }
}

/// The focused container, where there is one, is a container of the tree
/// other than the root.
pub proof fn lemma_focused_is_contained(s: WmStateView)
    requires
        s.wf(),
        s.tree.focused_container() is Some,
    ensures
        s.tree.contains(s.tree.focused_container().unwrap()),
        s.tree.focused_container().unwrap() != crate::tree::ROOT,
{
    s.tree.lemma_focus_child(crate::tree::ROOT, 0);
    lemma_focus_leaf_below(s, s.tree.focus_order_of(crate::tree::ROOT)[0]);
}

/// The container that the focus order leads to from a container other
/// than the root is again a container other than the root.
pub proof fn lemma_focus_leaf_below(s: WmStateView, x: ContainerId)
    requires
        s.wf(),
        s.tree.contains(x),
        x != crate::tree::ROOT,
    ensures
        s.tree.contains(s.tree.focus_leaf(x)),
        s.tree.focus_leaf(x) != crate::tree::ROOT,
    decreases s.tree.max_rank - s.tree.rank_of(x),
{
    if s.tree.focus_order_of(x).len() > 0 {
        s.tree.lemma_focus_child(x, 0);
        lemma_focus_leaf_below(s, s.tree.focus_order_of(x)[0]);
    }
}

/// The state of a new window goes by strict precedence: minimized before
/// fullscreen, fullscreen before floating for a window that cannot be
/// resized, and tiling for what is left.
pub proof fn law_state_classification(native_window: NativeWindow, config: UserConfig)
    ensures
        native_window.is_minimized ==> initial_window_state(native_window, config) is Minimized,
        !native_window.is_minimized && native_window.is_fullscreen ==> initial_window_state(
            native_window,
            config,
        ) == WindowState::Fullscreen(config.window_state_defaults.fullscreen),
        !native_window.is_minimized && !native_window.is_fullscreen && !native_window.is_resizable
            ==> initial_window_state(native_window, config) == WindowState::Floating(
            config.window_state_defaults.floating,
        ),
        !native_window.is_minimized && !native_window.is_fullscreen && native_window.is_resizable
            ==> initial_window_state(native_window, config) is Tiling,
{
}

/// A managed window floats where the platform reported it exactly when
/// its workspace is the one that the nearest monitor shows and centering
/// is off, unless it already stood on the center; in every other case it
/// floats on the center of its workspace. Its state does not matter.
pub proof fn law_centering_rule(
    s: WmStateView,
    native_window: NativeWindow,
    target_parent: Option<ContainerId>,
    config: UserConfig,
)
    requires
        s.wf(),
        window_to_create(s.tree, native_window, target_parent, config) is Ok,
    ensures
        ({
            let new = window_to_create(s.tree, native_window, target_parent, config)->Ok_0;
            let workspace = s.tree.workspace_of(new.parent).unwrap();
            let displayed = s.tree.displayed_workspace(
                s.tree.nearest_monitor(native_window).unwrap(),
            ).unwrap();
            let in_place = displayed == workspace
                && !config.window_state_defaults.floating.centered;
            let centered = native_window.placement.centered_in(workspace_rect(s.tree, workspace));
            &&& in_place ==> floating_placement_of(new.container) == native_window.placement
            &&& !in_place ==> floating_placement_of(new.container) == centered
            &&& centered != native_window.placement ==> (floating_placement_of(new.container)
                == native_window.placement <==> in_place)
        }),
{
}

/// Asking for the state that a window already has changes nothing: not
/// the tree, not what is to be redrawn, nothing else.
pub proof fn law_same_state_is_no_op(
    s: WmStateView,
    window: ContainerId,
    requested: WindowState,
    config: UserConfig,
    now: Instant,
)
    requires
        s.tree.contains(window),
        s.tree.container_of(window).spec_window_state() matches Some(current)
            && current.same_tag(requested),
    ensures
        spec_update_window_state(s, window, requested, config, now) == (Ok::<(), crate::error::WmError>(()), s),
{
}

/// Managing a tiling window lists its parent for redraw, managing any
/// other window lists the window itself, and taking a tiling window out
/// of the layout lists the parent it had, and does not list the window.
pub proof fn law_redraw_targets(
    s: WmStateView,
    native_window: NativeWindow,
    target_parent: Option<ContainerId>,
    config: UserConfig,
    window: ContainerId,
    requested: WindowState,
    now: Instant,
)
    requires
        s.wf(),
    ensures
        window_to_create(s.tree, native_window, target_parent, config) matches Ok(new) ==> {
            let id = s.tree.nodes.len() as ContainerId;
            managed(s, new).containers_to_redraw == s.with_redraw(
                if initial_window_state(native_window, config) is Tiling {
                    new.parent
                } else {
                    id
                },
            ).containers_to_redraw
        },
        s.tree.contains(window) && s.tree.container_of(window) is TilingWindow && !(requested
            is Tiling) && s.tree.workspace_of(window) is Some ==> {
            let after = spec_update_window_state(s, window, requested, config, now).1;
            let parent = s.tree.parent_of(window).unwrap();
            &&& after.containers_to_redraw == s.with_redraw(parent).containers_to_redraw
            &&& after.containers_to_redraw.contains(parent)
            &&& after.containers_to_redraw.contains(window)
                ==> s.containers_to_redraw.contains(window)
        },
{
    if s.tree.contains(window) && s.tree.container_of(window) is TilingWindow && !(requested
        is Tiling) && s.tree.workspace_of(window) is Some {
        let parent = s.tree.parent_of(window).unwrap();
        let list = s.containers_to_redraw;
        assert(s.tree.node_wf(window));
        s.tree.lemma_nearest_of_kind(window, crate::container::ContainerKind::Workspace);
        assert(parent != window);
        if !list.contains(parent) {
            assert(list.push(parent)[list.len() as int] == parent);
            if list.push(parent).contains(window) {
                let i = choose|i: int|
                    0 <= i < list.push(parent).len() && list.push(parent)[i] == window;
                assert(list[i] == window);
            }
        }
    }
}

/// Minimizing a tiling window records the instant and asks for the
/// platform's focus to be brought in line.
pub proof fn law_minimizing_a_tiling_window(
    s: WmStateView,
    window: ContainerId,
    config: UserConfig,
    now: Instant,
)
    requires
        s.wf(),
        s.tree.contains(window),
        s.tree.container_of(window) is TilingWindow,
        s.tree.workspace_of(window) is Some,
    ensures
        ({
            let after = spec_update_window_state(s, window, WindowState::Minimized, config, now);
            &&& after.0 is Ok
            &&& after.1.has_pending_focus_sync
            &&& after.1.unmanaged_or_minimized_timestamp == Some(now)
        }),
{
}

/// Taking a tiling window out of the layout leaves a well-formed tree in
/// which the window is the last child of its workspace and remembers,
/// usably, where it stood.
pub proof fn lemma_untiled(
    s: WmStateView,
    window: ContainerId,
    workspace: ContainerId,
    requested: WindowState,
)
    requires
        s.wf(),
        s.tree.contains(window),
        s.tree.container_of(window) is TilingWindow,
        s.tree.workspace_of(window) == Some(workspace),
        !(requested is Tiling),
    ensures
        ({
            let t = untiled(s.tree, window, workspace, requested);
            let stood = InsertionTarget {
                parent: s.tree.parent_of(window).unwrap(),
                index: s.tree.index_of(window) as usize,
            };
            &&& t.wf()
            &&& t.nodes.len() == s.tree.nodes.len()
            &&& t.parent_of(window) == Some(workspace)
            &&& t.children_of(workspace).last() == window
            &&& t.container_of(window) matches Container::NonTilingWindow(w) && w.state
                == requested && w.insertion_target == Some(stood)
            &&& t.workspace_of(window) == Some(workspace)
            &&& usable_target(t, window, stood)
            &&& forall|x: ContainerId|
                s.tree.contains(x) ==> without(#[trigger] t.children_of(x), window) == without(
                    s.tree.children_of(x),
                    window,
                )
            &&& forall|x: ContainerId|
                s.tree.contains(x) && x != window ==> #[trigger] t.container_of(x)
                    == s.tree.container_of(x) && t.parent_of(x) == s.tree.parent_of(x)
        }),
{
    let t0 = s.tree;
    let end = without(t0.children_of(workspace), window).len() as int;
    let m = t0.moved(window, workspace, end);
    let t = untiled(t0, window, workspace, requested);
    let parent = t0.parent_of(window).unwrap();
    t0.lemma_nearest_of_kind(window, crate::container::ContainerKind::Workspace);
    assert(t0.node_wf(window));
    assert(t0.node_wf(workspace));
    assert(t0.node_wf(parent));
    t0.lemma_children_bounded(parent);
    t0.lemma_child_iff_parent(workspace, window);
    lemma_without(t0.children_of(workspace), window);
    if t0.in_subtree(workspace, window) {
        t0.lemma_leaf_subtree(window, workspace);
    }
    t0.lemma_moved_wf(window, workspace, end);
    t0.lemma_moved_members(workspace, window, workspace, end);
    assert(m.node(window) == t0.moved_node(window, window, workspace, end));
    assert(m.node(workspace) == t0.moved_node(workspace, window, workspace, end));
    lemma_without(t0.children_of(window), window);
    let replacement = Container::NonTilingWindow(
        t0.container_of(window)->TilingWindow_0.spec_to_non_tiling(
            requested,
            Some(InsertionTarget { parent, index: t0.index_of(window) as usize }),
        ),
    );
    m.lemma_replace_wf(window, replacement);
    assert(t.node(window).parent == Some(workspace));
    assert(t.node(workspace) == m.node(workspace));
    assert(t.workspace_of(window) == Some(workspace)) by {
        assert(t.container_of(workspace) is Workspace);
        assert(t.nearest_of_kind(workspace, crate::container::ContainerKind::Workspace) == Some(
            workspace,
        ));
    }
    let at = t0.children_of(parent).index_of(window);
    assert(0 <= at < t0.children_of(parent).len() && t0.children_of(parent)[at] == window);
    assert forall|x: ContainerId| t0.contains(x) implies without(
        #[trigger] t.children_of(x),
        window,
    ) == without(t0.children_of(x), window) by {
        assert(t0.node_wf(x));
        assert(m.node(x) == t0.moved_node(x, window, workspace, end));
        lemma_without(t0.children_of(x), window);
        lemma_without(without(t0.children_of(x), window), window);
        if x == workspace {
            lemma_insert(without(t0.children_of(x), window), end, window);
        }
    }
    assert(t.children_of(parent) == t.children_of(parent));
    lemma_without(t0.children_of(parent), window);
    assert(m.node(parent) == t0.moved_node(parent, window, workspace, end));
}

/// A tiling window that floats and is then tiled again stands where it
/// stood: under the same parent, at the same position, with every child
/// sequence of the tree as it was.
pub proof fn law_round_trip(
    s: WmStateView,
    window: ContainerId,
    floating: WindowState,
    config: UserConfig,
    now: Instant,
    later: Instant,
)
    requires
        s.wf(),
        s.tree.contains(window),
        s.tree.container_of(window) is TilingWindow,
        s.tree.workspace_of(window) is Some,
        floating is Floating,
    ensures
        ({
            let floated = spec_update_window_state(s, window, floating, config, now);
            let back = spec_update_window_state(floated.1, window, WindowState::Tiling, config, later);
            &&& floated.0 is Ok
            &&& floated.1.tree.container_of(window) is NonTilingWindow
            &&& back.0 is Ok
            &&& back.1.tree.container_of(window) is TilingWindow
            &&& back.1.tree.parent_of(window) == s.tree.parent_of(window)
            &&& back.1.tree.children_of(s.tree.parent_of(window).unwrap())[s.tree.index_of(
                window,
            )] == window
            &&& forall|x: ContainerId|
                s.tree.contains(x) ==> #[trigger] back.1.tree.children_of(x)
                    == s.tree.children_of(x)
        }),
{
    let t0 = s.tree;
    let workspace = t0.workspace_of(window).unwrap();
    let parent = t0.parent_of(window).unwrap();
    let floated = spec_update_window_state(s, window, floating, config, now);
    let t1 = floated.1.tree;
    lemma_untiled(s, window, workspace, floating);
    assert(t1 == untiled(t0, window, workspace, floating));
    assert(t0.node_wf(window));
    assert(t0.node_wf(parent));
    t0.lemma_children_bounded(parent);
    let at = t0.children_of(parent).index_of(window);
    assert(0 <= at < t0.children_of(parent).len() && t0.children_of(parent)[at] == window);
    let back = spec_update_window_state(floated.1, window, WindowState::Tiling, config, later);
    let w1 = t1.container_of(window)->NonTilingWindow_0;
    let replaced = t1.replace(
        window,
        Container::TilingWindow(w1.spec_to_tiling(config.gaps.inner_gap)),
    );
    assert(back.1.tree == replaced.moved(window, parent, at));
    assert forall|x: ContainerId| t0.contains(x) implies #[trigger] back.1.tree.children_of(x)
        == t0.children_of(x) by {
        assert(t0.node_wf(x));
        assert(back.1.tree.node(x) == replaced.moved_node(x, window, parent, at));
        assert(replaced.children_of(x) == t1.children_of(x));
        assert(without(t1.children_of(x), window) == without(t0.children_of(x), window));
        t0.lemma_child_iff_parent(x, window);
        lemma_without(t0.children_of(x), window);
        if x == parent {
            lemma_without_insert_back(t0.children_of(x), at);
        }
    }
    assert(back.1.tree.node(window) == replaced.moved_node(window, window, parent, at));
    assert(back.1.tree.children_of(parent) == t0.children_of(parent));
}

} // verus!
