use std::time::Instant;
use wm::config::FloatingStateConfig;
use wm::config::FullscreenStateConfig;
use wm::config::GapsConfig;
use wm::config::UserConfig;
use wm::config::WindowStateDefaults;
use wm::container::Container;
use wm::container::Monitor;
use wm::container::SplitContainer;
use wm::container::TilingDirection;
use wm::container::Workspace;
use wm::error::WmError;
use wm::manage_window::manage_window;
use wm::rect::Rect;
use wm::tree::ROOT;
use wm::update_window_state::set_non_tiling;
use wm::update_window_state::set_tiling;
use wm::update_window_state::update_window_state;
use wm::update_window_state::update_window_state_at;
use wm::window::InsertionTarget;
use wm::window::NativeWindow;
use wm::window::NonTilingWindow;
use wm::window::TilingWindow;
use wm::window::WindowState;
use wm::wm_state::WmEvent;
use wm::wm_state::WmState;

fn cfg() -> UserConfig {
    UserConfig {
        gaps: GapsConfig { inner_gap: 12 },
        window_state_defaults: WindowStateDefaults {
            floating: FloatingStateConfig { centered: false, shown_on_top: true },
            fullscreen: FullscreenStateConfig { maximized: false, shown_on_top: false },
        },
    }
}

fn floating() -> WindowState {
    WindowState::Floating(FloatingStateConfig { centered: false, shown_on_top: true })
}

fn fullscreen() -> WindowState {
    WindowState::Fullscreen(FullscreenStateConfig { maximized: false, shown_on_top: false })
}

fn window(handle: isize, is_resizable: bool) -> NativeWindow {
    NativeWindow {
        handle,
        placement: Rect::from_ltrb(0, 0, 300, 200),
        is_minimized: false,
        is_fullscreen: false,
        is_resizable,
        nearest_monitor: Some(1),
    }
}

fn workspace_state() -> (WmState, usize) {
    let mut state = WmState::new();
    let monitor = state
        .tree
        .attach_container(Container::Monitor(Monitor { handle: 1, dpi: 96 }), ROOT, None)
        .unwrap();
    let workspace = state
        .tree
        .attach_container(
            Container::Workspace(Workspace { rect: Rect::from_ltrb(0, 0, 1920, 1080) }),
            monitor,
            None,
        )
        .unwrap();
    (state, workspace)
}

fn manage(state: &mut WmState, native: NativeWindow, parent: Option<usize>) -> usize {
    manage_window(native, parent, state, &cfg()).unwrap();
    match state.events.last() {
        Some(WmEvent::WindowManaged { managed_window }) => *managed_window,
        None => panic!("no window was managed"),
    }
}

/// Forgets what earlier dispatches left for the executors.
fn drain(state: &mut WmState) {
    state.containers_to_redraw.clear();
    state.events.clear();
    state.has_pending_focus_sync = false;
    state.unmanaged_or_minimized_timestamp = None;
}

fn non_tiling(state: &WmState, id: usize) -> NonTilingWindow {
    match state.tree.container(id) {
        Container::NonTilingWindow(w) => w,
        _ => panic!("expected a non-tiling window"),
    }
}

fn tiling(state: &WmState, id: usize) -> TilingWindow {
    match state.tree.container(id) {
        Container::TilingWindow(w) => w,
        _ => panic!("expected a tiling window"),
    }
}

#[test]
fn asking_for_the_current_state_changes_nothing() {
    let (mut state, workspace) = workspace_state();
    let a = manage(&mut state, window(1, true), None);
    let b = manage(&mut state, window(2, false), None);
    drain(&mut state);
    let focus_before = state.tree.focus_order(workspace).clone();

    assert_eq!(update_window_state(a, WindowState::Tiling, &mut state, &cfg()), Ok(()));
    // The parameters of a state do not count: only its tag does.
    let other = WindowState::Floating(FloatingStateConfig { centered: true, shown_on_top: false });
    assert_eq!(update_window_state(b, other, &mut state, &cfg()), Ok(()));

    assert_eq!(state.tree.children(workspace).clone(), vec![a, b]);
    assert_eq!(state.tree.focus_order(workspace).clone(), focus_before);
    assert!(state.containers_to_redraw.is_empty());
    assert!(!state.has_pending_focus_sync);
    assert!(state.unmanaged_or_minimized_timestamp.is_none());
    match non_tiling(&state, b).state {
        WindowState::Floating(f) => assert_eq!(f, cfg().window_state_defaults.floating),
        _ => panic!("expected a floating window"),
    }
}

#[test]
fn tiling_window_that_floats_moves_to_the_end_of_its_workspace() {
    let (mut state, workspace) = workspace_state();
    let a = manage(&mut state, window(1, true), None);
    let b = manage(&mut state, window(2, true), None);
    let c = manage(&mut state, window(3, true), None);
    drain(&mut state);

    assert_eq!(update_window_state(a, floating(), &mut state, &cfg()), Ok(()));

    assert_eq!(state.tree.children(workspace).clone(), vec![b, c, a]);
    assert_eq!(state.tree.index(a), state.tree.child_count(workspace) - 1);
    let w = non_tiling(&state, a);
    assert!(matches!(w.state, WindowState::Floating(_)));
    assert_eq!(w.insertion_target, Some(InsertionTarget { parent: workspace, index: 0 }));
    assert_eq!(w.native, window(1, true));
    // The former parent is redrawn, not the window.
    assert_eq!(state.containers_to_redraw, vec![workspace]);
    assert!(!state.has_pending_focus_sync);
    assert!(state.unmanaged_or_minimized_timestamp.is_none());
}

#[test]
fn window_leaving_a_split_goes_to_the_end_of_the_workspace() {
    let (mut state, workspace) = workspace_state();
    let split = state
        .tree
        .attach_container(
            Container::Split(SplitContainer { direction: TilingDirection::Horizontal }),
            workspace,
            None,
        )
        .unwrap();
    let a = manage(&mut state, window(1, true), Some(split));
    let b = manage(&mut state, window(2, true), Some(split));
    let side = manage(&mut state, window(3, true), Some(workspace));
    assert_eq!(state.tree.children(workspace).clone(), vec![side, split]);
    assert_eq!(state.tree.children(split).clone(), vec![b, a]);
    drain(&mut state);

    assert_eq!(update_window_state(a, fullscreen(), &mut state, &cfg()), Ok(()));

    assert_eq!(state.tree.children(split).clone(), vec![b]);
    assert_eq!(state.tree.children(workspace).clone(), vec![side, split, a]);
    assert_eq!(state.tree.parent(a), Some(workspace));
    let w = non_tiling(&state, a);
    assert!(matches!(w.state, WindowState::Fullscreen(_)));
    assert_eq!(w.insertion_target, Some(InsertionTarget { parent: split, index: 1 }));
    assert_eq!(state.containers_to_redraw, vec![split]);
}

#[test]
fn round_trip_restores_the_place_in_the_workspace() {
    let (mut state, workspace) = workspace_state();
    let a = manage(&mut state, window(1, true), None);
    let b = manage(&mut state, window(2, true), None);
    let c = manage(&mut state, window(3, true), None);
    drain(&mut state);

    update_window_state(b, floating(), &mut state, &cfg()).unwrap();
    assert_eq!(state.tree.children(workspace).clone(), vec![a, c, b]);
    update_window_state(b, WindowState::Tiling, &mut state, &cfg()).unwrap();

    assert_eq!(state.tree.children(workspace).clone(), vec![a, b, c]);
    assert_eq!(state.tree.index(b), 1);
    let w = tiling(&state, b);
    assert_eq!(w.inner_gap, 12);
    assert_eq!(w.native, window(2, true));
    assert_eq!(state.containers_to_redraw, vec![workspace, b]);
}

#[test]
fn round_trip_restores_the_place_in_a_split() {
    let (mut state, workspace) = workspace_state();
    let split = state
        .tree
        .attach_container(
            Container::Split(SplitContainer { direction: TilingDirection::Vertical }),
            workspace,
            None,
        )
        .unwrap();
    let a = manage(&mut state, window(1, true), Some(split));
    let b = manage(&mut state, window(2, true), Some(split));
    assert_eq!(state.tree.children(split).clone(), vec![b, a]);

    update_window_state(b, floating(), &mut state, &cfg()).unwrap();
    assert_eq!(state.tree.children(split).clone(), vec![a]);
    assert_eq!(state.tree.children(workspace).clone(), vec![split, b]);
    update_window_state(b, WindowState::Tiling, &mut state, &cfg()).unwrap();

    assert_eq!(state.tree.children(split).clone(), vec![b, a]);
    assert_eq!(state.tree.children(workspace).clone(), vec![split]);
    assert_eq!(state.tree.parent(b), Some(split));
    assert!(state.tree.container(b).is_tiling_window());
}

#[test]
fn window_with_no_remembered_place_goes_behind_the_last_focused_tiling_window() {
    let (mut state, workspace) = workspace_state();
    let a = manage(&mut state, window(1, true), None);
    let b = manage(&mut state, window(2, true), None);
    let f = manage(&mut state, window(3, false), None);
    assert_eq!(state.tree.children(workspace).clone(), vec![a, b, f]);
    assert_eq!(non_tiling(&state, f).insertion_target, None);
    state.tree.set_focused_descendant(a, None);
    assert_eq!(state.tree.descendant_focus_order(workspace), vec![a, f, b]);
    drain(&mut state);

    assert_eq!(update_window_state(f, WindowState::Tiling, &mut state, &cfg()), Ok(()));

    assert_eq!(state.tree.children(workspace).clone(), vec![a, f, b]);
    assert_eq!(state.tree.index(f), state.tree.index(a) + 1);
    assert!(state.tree.container(f).is_tiling_window());
    assert_eq!(state.containers_to_redraw, vec![f]);
}

#[test]
fn window_before_the_last_focused_tiling_window_still_lands_right_behind_it() {
    let (mut state, workspace) = workspace_state();
    let f = manage(&mut state, window(1, false), None);
    let a = manage(&mut state, window(2, true), None);
    let b = manage(&mut state, window(3, true), None);
    assert_eq!(state.tree.children(workspace).clone(), vec![f, a, b]);
    state.tree.set_focused_descendant(a, None);

    set_tiling(f, &mut state, &cfg()).unwrap();

    assert_eq!(state.tree.children(workspace).clone(), vec![a, f, b]);
}

#[test]
fn window_in_a_workspace_without_tiling_windows_goes_to_its_front() {
    let (mut state, workspace) = workspace_state();
    let f = manage(&mut state, window(1, false), None);
    let g = manage(&mut state, window(2, false), None);
    assert_eq!(state.tree.children(workspace).clone(), vec![f, g]);

    update_window_state(g, WindowState::Tiling, &mut state, &cfg()).unwrap();

    assert_eq!(state.tree.children(workspace).clone(), vec![g, f]);
    assert!(state.tree.container(g).is_tiling_window());
}

#[test]
fn remembered_place_that_no_longer_exists_is_passed_over() {
    let (mut state, workspace) = workspace_state();
    let a = manage(&mut state, window(1, true), None);
    let f = manage(&mut state, window(2, false), None);
    let mut w = non_tiling(&state, f);
    w.insertion_target = Some(InsertionTarget { parent: workspace, index: 40 });
    state.tree.set_container(f, Container::NonTilingWindow(w)).unwrap();
    state.tree.set_focused_descendant(a, None);

    update_window_state(f, WindowState::Tiling, &mut state, &cfg()).unwrap();

    assert_eq!(state.tree.children(workspace).clone(), vec![a, f]);
}

#[test]
fn non_tiling_window_changes_state_where_it_stands() {
    let (mut state, workspace) = workspace_state();
    let a = manage(&mut state, window(1, true), None);
    let f = manage(&mut state, window(2, false), None);
    drain(&mut state);
    let before = non_tiling(&state, f);

    assert_eq!(update_window_state(f, fullscreen(), &mut state, &cfg()), Ok(()));

    assert_eq!(state.tree.children(workspace).clone(), vec![a, f]);
    let after = non_tiling(&state, f);
    assert!(matches!(after.state, WindowState::Fullscreen(_)));
    assert_eq!(after.insertion_target, before.insertion_target);
    assert_eq!(after.floating_placement, before.floating_placement);
    assert_eq!(state.containers_to_redraw, vec![f]);
}

#[test]
fn minimizing_a_tiling_window_records_the_instant_and_passes_the_focus_on() {
    let (mut state, workspace) = workspace_state();
    let a = manage(&mut state, window(1, true), None);
    let b = manage(&mut state, window(2, true), None);
    drain(&mut state);
    assert_eq!(state.focused_container(), Some(b));
    let now = Instant::now();

    assert_eq!(
        update_window_state_at(b, WindowState::Minimized, now, &mut state, &cfg()),
        Ok(())
    );

    assert_eq!(state.unmanaged_or_minimized_timestamp, Some(now));
    assert!(state.has_pending_focus_sync);
    assert_eq!(state.focused_container(), Some(a));
    assert!(matches!(non_tiling(&state, b).state, WindowState::Minimized));
    assert_eq!(state.tree.children(workspace).clone(), vec![a, b]);
    assert_eq!(state.containers_to_redraw, vec![workspace]);
}

#[test]
fn minimizing_reads_the_clock() {
    let (mut state, _workspace) = workspace_state();
    let a = manage(&mut state, window(1, true), None);
    drain(&mut state);
    let before = Instant::now();

    assert_eq!(update_window_state(a, WindowState::Minimized, &mut state, &cfg()), Ok(()));

    let recorded = state.unmanaged_or_minimized_timestamp.expect("an instant is recorded");
    assert!(recorded >= before);
    assert!(recorded <= Instant::now());
    assert!(state.has_pending_focus_sync);
}

#[test]
fn minimizing_the_only_window_passes_the_focus_to_the_workspace() {
    let (mut state, workspace) = workspace_state();
    let a = manage(&mut state, window(1, true), None);
    let m = manage(&mut state, NativeWindow { is_minimized: true, ..window(2, true) }, None);
    state.tree.set_focused_descendant(a, None);
    assert_eq!(state.tree.focus_target_after_removal(a), Some(workspace));

    update_window_state(a, WindowState::Minimized, &mut state, &cfg()).unwrap();

    // Focusing a workspace reorders nothing below it.
    assert_eq!(state.tree.focus_order(workspace).clone(), vec![a, m]);
}

#[test]
fn minimizing_a_floating_window_only_changes_its_state() {
    let (mut state, _workspace) = workspace_state();
    let f = manage(&mut state, window(1, false), None);
    drain(&mut state);

    assert_eq!(update_window_state(f, WindowState::Minimized, &mut state, &cfg()), Ok(()));

    assert!(matches!(non_tiling(&state, f).state, WindowState::Minimized));
    assert!(state.unmanaged_or_minimized_timestamp.is_none());
    assert!(!state.has_pending_focus_sync);
    assert_eq!(state.containers_to_redraw, vec![f]);
}

#[test]
fn a_timestamp_once_recorded_stays_until_the_next_minimizing() {
    let (mut state, _workspace) = workspace_state();
    let a = manage(&mut state, window(1, true), None);
    let b = manage(&mut state, window(2, true), None);
    let first = Instant::now();
    update_window_state_at(a, WindowState::Minimized, first, &mut state, &cfg()).unwrap();
    let second = Instant::now();
    update_window_state_at(b, floating(), second, &mut state, &cfg()).unwrap();
    assert_eq!(state.unmanaged_or_minimized_timestamp, Some(first));
}

#[test]
fn only_windows_have_a_placement_state() {
    let (mut state, workspace) = workspace_state();
    assert_eq!(
        update_window_state(workspace, floating(), &mut state, &cfg()),
        Err(WmError::NotAWindow)
    );
    assert_eq!(
        update_window_state(ROOT, WindowState::Tiling, &mut state, &cfg()),
        Err(WmError::NotAWindow)
    );
    assert_eq!(
        update_window_state(500, WindowState::Tiling, &mut state, &cfg()),
        Err(WmError::UnknownContainer)
    );
    assert_eq!(
        set_non_tiling(workspace, floating(), Instant::now(), &mut state),
        Err(WmError::NotAWindow)
    );
    assert_eq!(
        set_non_tiling(500, floating(), Instant::now(), &mut state),
        Err(WmError::UnknownContainer)
    );
    assert_eq!(set_tiling(workspace, &mut state, &cfg()), Ok(()));
    assert_eq!(set_tiling(500, &mut state, &cfg()), Ok(()));
    assert!(state.containers_to_redraw.is_empty());
}

#[test]
fn window_outside_every_workspace_cannot_change_state() {
    let mut state = WmState::new();
    let monitor = state
        .tree
        .attach_container(Container::Monitor(Monitor { handle: 1, dpi: 96 }), ROOT, None)
        .unwrap();
    let native = window(1, true);
    let stray_tiling = state
        .tree
        .attach_container(
            Container::TilingWindow(TilingWindow::new(native, native.placement, 0)),
            monitor,
            None,
        )
        .unwrap();
    let stray_floating = state
        .tree
        .attach_container(
            Container::NonTilingWindow(NonTilingWindow::new(
                native,
                floating(),
                None,
                native.placement,
            )),
            monitor,
            None,
        )
        .unwrap();

    assert_eq!(
        update_window_state(stray_tiling, floating(), &mut state, &cfg()),
        Err(WmError::NoWorkspace)
    );
    assert_eq!(
        update_window_state(stray_floating, WindowState::Tiling, &mut state, &cfg()),
        Err(WmError::NoWorkspace)
    );
    assert_eq!(state.tree.children(monitor).clone(), vec![stray_tiling, stray_floating]);
    assert!(state.tree.container(stray_tiling).is_tiling_window());
    assert!(state.containers_to_redraw.is_empty());
}

#[test]
fn set_tiling_leaves_a_tiling_window_alone() {
    let (mut state, workspace) = workspace_state();
    let a = manage(&mut state, window(1, true), None);
    let b = manage(&mut state, window(2, true), None);
    drain(&mut state);
    assert_eq!(set_tiling(a, &mut state, &cfg()), Ok(()));
    assert_eq!(state.tree.children(workspace).clone(), vec![a, b]);
    assert!(state.containers_to_redraw.is_empty());
}
