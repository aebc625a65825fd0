use wm::config::FloatingStateConfig;
use wm::container::Container;
use wm::container::ContainerKind;
use wm::container::Monitor;
use wm::container::SplitContainer;
use wm::container::TilingDirection;
use wm::container::Workspace;
use wm::error::WmError;
use wm::rect::Rect;
use wm::select::Criterion;
use wm::tree::Tree;
use wm::tree::ROOT;
use wm::window::NativeWindow;
use wm::window::NonTilingWindow;
use wm::window::TilingWindow;
use wm::window::WindowState;
use wm::wm_state::WmEvent;
use wm::wm_state::WmState;

fn split() -> Container {
    Container::Split(SplitContainer { direction: TilingDirection::Horizontal })
}

fn workspace() -> Container {
    Container::Workspace(Workspace { rect: Rect::from_ltrb(0, 0, 100, 100) })
}

fn monitor(handle: isize) -> Container {
    Container::Monitor(Monitor { handle, dpi: 96 })
}

fn native() -> NativeWindow {
    NativeWindow {
        handle: 1,
        placement: Rect::from_ltrb(0, 0, 10, 10),
        is_minimized: false,
        is_fullscreen: false,
        is_resizable: true,
        nearest_monitor: None,
    }
}

fn tiling() -> Container {
    Container::TilingWindow(TilingWindow::new(native(), Rect::from_ltrb(0, 0, 10, 10), 0))
}

fn minimized() -> Container {
    Container::NonTilingWindow(NonTilingWindow::new(
        native(),
        WindowState::Minimized,
        None,
        Rect::from_ltrb(0, 0, 10, 10),
    ))
}

/// root ─ monitor ─ workspace ─ [a, b, c], all splits.
fn three_children() -> (Tree, usize, usize, usize, usize) {
    let mut tree = Tree::new();
    let m = tree.attach_container(monitor(1), ROOT, None).unwrap();
    let w = tree.attach_container(workspace(), m, None).unwrap();
    let a = tree.attach_container(split(), w, None).unwrap();
    let b = tree.attach_container(split(), w, None).unwrap();
    let c = tree.attach_container(split(), w, None).unwrap();
    (tree, w, a, b, c)
}

#[test]
fn new_tree_holds_the_root_alone() {
    let tree = Tree::new();
    assert_eq!(tree.len(), 1);
    assert!(tree.contains(ROOT));
    assert!(!tree.contains(1));
    assert_eq!(tree.parent(ROOT), None);
    assert_eq!(tree.container(ROOT), Container::Root);
    assert_eq!(tree.child_count(ROOT), 0);
    assert_eq!(tree.focused_container(), None);
}

#[test]
fn attach_inserts_at_the_index_and_shifts_the_rest() {
    let (mut tree, w, a, b, c) = three_children();
    assert_eq!(tree.children(w).clone(), vec![a, b, c]);
    let d = tree.attach_container(split(), w, Some(1)).unwrap();
    assert_eq!(d, 6);
    assert_eq!(tree.children(w).clone(), vec![a, d, b, c]);
    assert_eq!(tree.index(b), 2);
    assert_eq!(tree.parent(d), Some(w));
    assert_eq!(tree.child_count(d), 0);
    // A new container is the least recently focused child.
    assert_eq!(tree.focus_order(w).clone(), vec![a, b, c, d]);
    let e = tree.attach_container(split(), w, Some(4)).unwrap();
    assert_eq!(tree.children(w).clone(), vec![a, d, b, c, e]);
}

#[test]
fn attach_refuses_what_cannot_be() {
    let (mut tree, w, a, _b, _c) = three_children();
    let len = tree.len();
    assert_eq!(tree.attach_container(split(), 99, None), Err(WmError::UnknownContainer));
    assert_eq!(tree.attach_container(split(), w, Some(4)), Err(WmError::IndexOutOfBounds));
    let leaf = tree.attach_container(tiling(), a, None).unwrap();
    assert_eq!(tree.attach_container(split(), leaf, None), Err(WmError::WindowHoldsNoChildren));
    assert_eq!(tree.len(), len + 1);
}

#[test]
fn move_within_the_same_parent_reorders_the_children_only() {
    let (mut tree, w, a, b, c) = three_children();
    tree.set_focused_descendant(b, None);
    let focus = tree.focus_order(w).clone();
    assert_eq!(tree.move_container_within_tree(a, w, 2), Ok(()));
    assert_eq!(tree.children(w).clone(), vec![b, c, a]);
    assert_eq!(tree.focus_order(w).clone(), focus);
    assert_eq!(tree.move_container_within_tree(a, w, 0), Ok(()));
    assert_eq!(tree.children(w).clone(), vec![a, b, c]);
    assert_eq!(tree.move_container_within_tree(a, w, 3), Err(WmError::IndexOutOfBounds));
    assert_eq!(tree.children(w).clone(), vec![a, b, c]);
}

#[test]
fn move_to_another_parent_takes_the_subtree_along() {
    let (mut tree, w, a, b, c) = three_children();
    let leaf = tree.attach_container(tiling(), a, None).unwrap();
    assert_eq!(tree.move_container_within_tree(a, b, 0), Ok(()));
    assert_eq!(tree.children(w).clone(), vec![b, c]);
    assert_eq!(tree.focus_order(w).clone(), vec![b, c]);
    assert_eq!(tree.children(b).clone(), vec![a]);
    assert_eq!(tree.focus_order(b).clone(), vec![a]);
    assert_eq!(tree.parent(a), Some(b));
    assert_eq!(tree.parent(leaf), Some(a));
    assert_eq!(tree.children(a).clone(), vec![leaf]);
    assert_eq!(tree.workspace_of(leaf), Some(w));
    assert!(tree.in_subtree(leaf, b));
}

#[test]
fn move_refuses_what_cannot_be() {
    let (mut tree, w, a, b, _c) = three_children();
    let inner = tree.attach_container(split(), a, None).unwrap();
    let leaf = tree.attach_container(tiling(), b, None).unwrap();
    assert_eq!(tree.move_container_within_tree(99, w, 0), Err(WmError::UnknownContainer));
    assert_eq!(tree.move_container_within_tree(a, 99, 0), Err(WmError::UnknownContainer));
    assert_eq!(tree.move_container_within_tree(ROOT, w, 0), Err(WmError::NoParent));
    assert_eq!(tree.move_container_within_tree(a, a, 0), Err(WmError::MoveIntoOwnSubtree));
    assert_eq!(tree.move_container_within_tree(a, inner, 0), Err(WmError::MoveIntoOwnSubtree));
    assert_eq!(tree.move_container_within_tree(a, leaf, 0), Err(WmError::WindowHoldsNoChildren));
    assert_eq!(tree.move_container_within_tree(a, b, 2), Err(WmError::IndexOutOfBounds));
    assert_eq!(tree.parent(a), Some(w));
    assert_eq!(tree.children(b).clone(), vec![leaf]);
}

#[test]
fn replace_swaps_the_container_and_keeps_the_place() {
    let (mut tree, w, a, b, c) = three_children();
    let leaf = tree.attach_container(tiling(), b, None).unwrap();
    assert_eq!(tree.replace_container(minimized(), b, 0), Ok(leaf));
    assert_eq!(tree.container(leaf), minimized());
    assert_eq!(tree.parent(leaf), Some(b));
    assert_eq!(tree.children(w).clone(), vec![a, b, c]);
    assert_eq!(tree.replace_container(tiling(), w, 0), Ok(a));
    assert!(tree.container(a).is_tiling_window());
}

#[test]
fn replace_refuses_what_cannot_be() {
    let (mut tree, w, _a, b, _c) = three_children();
    tree.attach_container(tiling(), b, None).unwrap();
    assert_eq!(tree.replace_container(tiling(), 99, 0), Err(WmError::UnknownContainer));
    assert_eq!(tree.replace_container(tiling(), w, 3), Err(WmError::IndexOutOfBounds));
    assert_eq!(tree.replace_container(tiling(), w, 1), Err(WmError::WindowHoldsNoChildren));
    assert_eq!(tree.set_container(ROOT, split()), Err(WmError::NoParent));
    assert_eq!(tree.set_container(99, split()), Err(WmError::UnknownContainer));
    assert_eq!(tree.container(b), split());
}

#[test]
fn focus_moves_the_whole_way_up() {
    let (mut tree, w, a, b, c) = three_children();
    let x = tree.attach_container(tiling(), b, None).unwrap();
    let y = tree.attach_container(tiling(), b, None).unwrap();
    assert_eq!(tree.focused_container(), Some(a));
    tree.set_focused_descendant(y, None);
    assert_eq!(tree.focus_order(b).clone(), vec![y, x]);
    assert_eq!(tree.focus_order(w).clone(), vec![b, a, c]);
    assert_eq!(tree.focused_container(), Some(y));
    assert_eq!(tree.children(w).clone(), vec![a, b, c]);
    assert_eq!(tree.children(b).clone(), vec![x, y]);
}

#[test]
fn focus_stops_at_the_end_ancestor() {
    let (mut tree, w, a, b, c) = three_children();
    let x = tree.attach_container(tiling(), b, None).unwrap();
    let y = tree.attach_container(tiling(), b, None).unwrap();
    tree.set_focused_descendant(y, Some(b));
    assert_eq!(tree.focus_order(b).clone(), vec![y, x]);
    assert_eq!(tree.focus_order(w).clone(), vec![a, b, c]);
    assert_eq!(tree.focused_container(), Some(a));
    tree.set_focused_descendant(99, None);
    assert_eq!(tree.focus_order(w).clone(), vec![a, b, c]);
}

#[test]
fn descendants_come_in_the_order_of_their_last_focus() {
    let (mut tree, w, a, b, c) = three_children();
    let x = tree.attach_container(tiling(), b, None).unwrap();
    let y = tree.attach_container(tiling(), b, None).unwrap();
    let z = tree.attach_container(minimized(), c, None).unwrap();
    assert_eq!(tree.descendant_focus_order(w), vec![a, x, y, z]);
    tree.set_focused_descendant(z, None);
    tree.set_focused_descendant(y, None);
    assert_eq!(tree.descendant_focus_order(w), vec![y, x, z, a]);
    assert_eq!(tree.descendant_focus_order(b), vec![y, x]);
    assert_eq!(tree.descendant_focus_order(x), Vec::<usize>::new());
    assert_eq!(tree.descendant_focus_order(99), Vec::<usize>::new());
    let order = tree.descendant_focus_order(w);
    assert_eq!(tree.first_meeting(&order, Criterion::TilingWindow), Some(y));
    assert_eq!(tree.first_meeting(&order, Criterion::ShownWindowExcept(y)), Some(x));
    assert_eq!(tree.first_meeting(&vec![z, a], Criterion::ShownWindowExcept(y)), None);
    assert_eq!(tree.focus_target_after_removal(y), Some(x));
    assert_eq!(tree.focus_target_after_removal(ROOT), None);
}

#[test]
fn owners_are_found_above() {
    let mut tree = Tree::new();
    let m = tree.attach_container(monitor(4), ROOT, None).unwrap();
    let w = tree.attach_container(workspace(), m, None).unwrap();
    let s = tree.attach_container(split(), w, None).unwrap();
    let x = tree.attach_container(tiling(), s, None).unwrap();
    assert_eq!(tree.workspace_of(x), Some(w));
    assert_eq!(tree.workspace_of(w), Some(w));
    assert_eq!(tree.workspace_of(m), None);
    assert_eq!(tree.workspace_of(77), None);
    assert_eq!(tree.monitor_of(x), Some(m));
    assert_eq!(tree.monitor_of(ROOT), None);
    assert_eq!(tree.nearest_of_kind(x, ContainerKind::Split), Some(s));
    assert_eq!(tree.nearest_of_kind(x, ContainerKind::Root), Some(ROOT));
    assert!(tree.in_subtree(x, w));
    assert!(tree.in_subtree(x, x));
    assert!(!tree.in_subtree(w, x));
    assert_eq!(tree.displayed_workspace(m), Some(w));
    assert_eq!(tree.displayed_workspace(w), None);
    assert_eq!(tree.dpi_of(x), Some(96));
    assert_eq!(tree.dpi_of(ROOT), None);
}

#[test]
fn monitors_are_found_by_their_handle_and_compared_by_dpi() {
    let mut tree = Tree::new();
    let m1 = tree.attach_container(monitor(4), ROOT, None).unwrap();
    let m2 = tree
        .attach_container(Container::Monitor(Monitor { handle: 8, dpi: 192 }), ROOT, None)
        .unwrap();
    let w2 = tree.attach_container(workspace(), m2, None).unwrap();
    let on = |h| NativeWindow { nearest_monitor: h, ..native() };
    assert_eq!(tree.nearest_monitor(&on(Some(8))), Some(m2));
    assert_eq!(tree.nearest_monitor(&on(Some(4))), Some(m1));
    assert_eq!(tree.nearest_monitor(&on(Some(5))), None);
    assert_eq!(tree.nearest_monitor(&on(None)), None);
    assert_eq!(tree.has_dpi_difference(m1, w2), Ok(true));
    assert_eq!(tree.has_dpi_difference(m2, w2), Ok(false));
    assert_eq!(tree.has_dpi_difference(m1, ROOT), Err(WmError::NoMonitor));
}

#[test]
fn centering_keeps_the_size() {
    let r = Rect::from_ltrb(10, 20, 110, 70);
    assert_eq!(r.width(), 100);
    assert_eq!(r.height(), 50);
    let outer = Rect::from_ltrb(-200, 0, 800, 500);
    let c = r.translate_to_center(&outer).unwrap();
    assert_eq!(c, Rect::from_ltrb(250, 225, 350, 275));
    assert_eq!(c.width(), 100);
    assert_eq!(c.height(), 50);
    // A rectangle larger than the outer one sticks out on both sides.
    let big = Rect::from_ltrb(0, 0, 2000, 10);
    assert_eq!(big.translate_to_center(&outer), Some(Rect::from_ltrb(-700, 245, 1300, 255)));
    // Odd sizes round towards the top left.
    let odd = Rect::from_ltrb(0, 0, 3, 3);
    assert_eq!(
        odd.translate_to_center(&Rect::from_ltrb(0, 0, 10, 10)),
        Some(Rect::from_ltrb(4, 4, 7, 7))
    );
}

#[test]
fn centering_refuses_what_cannot_be_held() {
    let outer = Rect::from_ltrb(0, 0, 100, 100);
    assert_eq!(Rect::from_ltrb(5, 0, 0, 5).translate_to_center(&outer), None);
    assert_eq!(Rect::from_ltrb(0, 0, 5, 5).translate_to_center(&Rect::from_ltrb(9, 0, 0, 9)), None);
    assert_eq!(Rect::from_ltrb(i32::MIN, 0, i32::MAX, 5).translate_to_center(&outer), None);
    let edge = Rect::from_ltrb(i32::MAX - 10, 0, i32::MAX, 10);
    assert_eq!(
        Rect::from_ltrb(0, 0, 10, 10).translate_to_center(&edge),
        Some(Rect::from_ltrb(i32::MAX - 10, 0, i32::MAX, 10))
    );
}

#[test]
fn state_lists_and_queues() {
    let mut state = WmState::new();
    state.add_container_to_redraw(3);
    state.add_container_to_redraw(1);
    state.add_container_to_redraw(3);
    assert_eq!(state.containers_to_redraw, vec![3, 1]);
    state.emit_event(WmEvent::WindowManaged { managed_window: 2 });
    state.emit_event(WmEvent::WindowManaged { managed_window: 1 });
    assert_eq!(
        state.events,
        vec![
            WmEvent::WindowManaged { managed_window: 2 },
            WmEvent::WindowManaged { managed_window: 1 },
        ]
    );
    assert_eq!(state.nearest_monitor(&native()), None);
    assert_eq!(state.focus_target_after_removal(ROOT), None);
}

#[test]
fn states_compare_by_tag() {
    let a = WindowState::Floating(FloatingStateConfig { centered: true, shown_on_top: false });
    let b = WindowState::Floating(FloatingStateConfig { centered: false, shown_on_top: true });
    assert!(a == b);
    assert!(a != WindowState::Tiling);
    assert!(WindowState::Minimized == WindowState::Minimized);
    assert!(WindowState::Tiling.is_tiling());
    assert!(!a.is_minimized());
    assert_eq!(tiling().window_state(), Some(WindowState::Tiling));
    assert_eq!(split().window_state(), None);
    assert!(minimized().is_window());
    assert_eq!(workspace().kind(), ContainerKind::Workspace);
}
