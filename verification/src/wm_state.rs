//! The state of the window manager: the tree, and what each dispatch leaves
//! for the executors that redraw and that hand the focus to the platform.

use vstd::prelude::*;
use std::time::Instant;
use crate::container::Container;
use crate::container::ContainerId;
use crate::error::WmError;
use crate::select::Criterion;
use crate::tree::Tree;
use crate::tree::TreeView;
use crate::tree::ROOT;
use crate::window::NativeWindow;

verus! {

/// What the window manager tells its listeners.
#[derive(Clone, Copy, Debug, PartialEq, Eq)]
pub enum WmEvent {
    /// A window has entered the tree.
    WindowManaged { managed_window: ContainerId },
}

/// The state of the window manager as a mathematical value.
pub struct WmStateView {
    pub tree: TreeView,
    /// The containers to redraw, each once.
    pub containers_to_redraw: Seq<ContainerId>,
    pub has_pending_focus_sync: bool,
    pub unmanaged_or_minimized_timestamp: Option<Instant>,
    /// The events emitted and not yet taken, oldest first.
    pub events: Seq<WmEvent>,
}

/// The state of the window manager.
pub struct WmState {
    pub tree: Tree,
    /// The containers whose geometry has to be computed anew.
    pub containers_to_redraw: Vec<ContainerId>,
    /// Whether the platform's focus has to be brought in line with the tree's.
    pub has_pending_focus_sync: bool,
    /// When a window was last minimized.
    pub unmanaged_or_minimized_timestamp: Option<Instant>,
    /// The events emitted and not yet taken, oldest first.
    pub events: Vec<WmEvent>,
}

impl View for WmState {
    type V = WmStateView;

    open spec fn view(&self) -> WmStateView {
        WmStateView {
            tree: self.tree@,
            containers_to_redraw: self.containers_to_redraw@,
            has_pending_focus_sync: self.has_pending_focus_sync,
            unmanaged_or_minimized_timestamp: self.unmanaged_or_minimized_timestamp,
            events: self.events@,
        }
    }
}

impl TreeView {
    /// The monitor of the tree that stands for the display nearest to the
    /// window: the first monitor below the root with that display's handle.
    pub open spec fn nearest_monitor(self, native_window: NativeWindow) -> Option<ContainerId> {
        match native_window.nearest_monitor {
            Some(handle) => self.first_meeting(
                self.children_of(ROOT),
                Criterion::MonitorWithHandle(handle),
            ),
            None => None,
        }
    }

    /// The dots per inch of the monitor that owns a container.
    pub open spec fn dpi_of(self, id: ContainerId) -> Option<u32> {
        match self.monitor_of(id) {
            Some(m) => match self.container_of(m) {
                Container::Monitor(monitor) => Some(monitor.dpi),
                _ => None,
            },
            None => None,
        }
    }

    /// Whether two containers stand on monitors of different DPI; nothing
    /// where one of them stands on no monitor.
    pub open spec fn has_dpi_difference(self, a: ContainerId, b: ContainerId) -> Option<bool> {
        match (self.dpi_of(a), self.dpi_of(b)) {
            (Some(x), Some(y)) => Some(x != y),
            _ => None,
        }
    }

    /// Which container takes the focus when a window leaves the layout: the
    /// most recently focused window of the same workspace that is shown and
    /// is not the window itself; the workspace where there is none; nothing
    /// where no workspace owns the window.
    pub open spec fn focus_target_after_removal(self, removed_window: ContainerId) -> Option<
        ContainerId,
    > {
        match self.workspace_of(removed_window) {
            Some(workspace) => match self.first_meeting(
                self.descendant_focus_order(workspace),
                Criterion::ShownWindowExcept(removed_window),
            ) {
                Some(w) => Some(w),
                None => Some(workspace),
            },
            None => None,
        }
    }
}

impl WmStateView {
    /// The state at the start: the tree holds the root alone, nothing is
    /// to be redrawn, no focus sync is pending, no instant is recorded and
    /// no event waits.
    pub open spec fn initial() -> WmStateView {
        WmStateView {
            tree: TreeView::initial(),
            containers_to_redraw: Seq::empty(),
            has_pending_focus_sync: false,
            unmanaged_or_minimized_timestamp: None,
            events: Seq::empty(),
        }
    }

    /// Well-formedness: that of the tree.
    pub open spec fn wf(self) -> bool {
        self.tree.wf()
    }

    /// The state with `id` among the containers to redraw: behind those
    /// listed before, unless it was listed already.
    pub open spec fn with_redraw(self, id: ContainerId) -> WmStateView {
        WmStateView {
            containers_to_redraw: if self.containers_to_redraw.contains(id) {
                self.containers_to_redraw
            } else {
                self.containers_to_redraw.push(id)
            },
            ..self
        }
    }

    /// The state with one more event emitted.
    pub open spec fn with_event(self, event: WmEvent) -> WmStateView {
        WmStateView { events: self.events.push(event), ..self }
    }

    /// The state with another tree.
    pub open spec fn with_tree(self, tree: TreeView) -> WmStateView {
        WmStateView { tree, ..self }
    }
}

impl Tree {
    /// The monitor of the tree that stands for the display nearest to the
    /// window.
    pub fn nearest_monitor(&self, native_window: &NativeWindow) -> (r: Option<ContainerId>)
        requires
            self@.wf(),
        ensures
            r == self@.nearest_monitor(*native_window),
            r matches Some(m) ==> self@.contains(m) && self@.container_of(m) is Monitor,
    {
        match native_window.nearest_monitor {
            Some(handle) => self.first_meeting(
                self.children(ROOT),
                Criterion::MonitorWithHandle(handle),
            ),
            None => None,
        }
    }

    /// The dots per inch of the monitor that owns a container.
    pub fn dpi_of(&self, id: ContainerId) -> (r: Option<u32>)
        requires
            self@.wf(),
        ensures
            r == self@.dpi_of(id),
    {
        match self.monitor_of(id) {
            Some(m) => match self.container(m) {
                Container::Monitor(monitor) => Some(monitor.dpi),
                _ => None,
            },
            None => None,
        }
    }

    /// Whether two containers stand on monitors of different DPI.
    pub fn has_dpi_difference(&self, a: ContainerId, b: ContainerId) -> (r: Result<bool, WmError>)
        requires
            self@.wf(),
        ensures
            self@.has_dpi_difference(a, b) matches Some(d) ==> r == Ok::<bool, WmError>(d),
            self@.has_dpi_difference(a, b) is None ==> r == Err::<bool, WmError>(
                WmError::NoMonitor,
            ),
    {
        match (self.dpi_of(a), self.dpi_of(b)) {
            (Some(x), Some(y)) => Ok(x != y),
            _ => Err(WmError::NoMonitor),
        }
    }

    /// Which container takes the focus when a window leaves the layout.
    pub fn focus_target_after_removal(&self, removed_window: ContainerId) -> (r: Option<
        ContainerId,
    >)
        requires
            self@.wf(),
        ensures
            r == self@.focus_target_after_removal(removed_window),
            r matches Some(c) ==> self@.contains(c),
    {
        match self.workspace_of(removed_window) {
            Some(workspace) => {
                let order = self.descendant_focus_order(workspace);
                match self.first_meeting(&order, Criterion::ShownWindowExcept(removed_window)) {
                    Some(w) => Some(w),
                    None => Some(workspace),
                }
            },
            None => None,
        }
    }
}

impl WmState {
    /// A state whose tree holds the root alone, with nothing pending.
    pub fn new() -> (s: WmState)
        ensures
            s@ == WmStateView::initial(),
            s@.wf(),
            s@.tree.focused_container() is None,
    {
        let s = WmState {
            tree: Tree::new(),
            containers_to_redraw: Vec::new(),
            has_pending_focus_sync: false,
            unmanaged_or_minimized_timestamp: None,
            events: Vec::new(),
        };
        proof {
            assert(s@.containers_to_redraw =~= Seq::<ContainerId>::empty());
            assert(s@.events =~= Seq::<WmEvent>::empty());
        }
        s
    }

    /// The container that carries the focus.
    pub fn focused_container(&self) -> (r: Option<ContainerId>)
        requires
            self@.wf(),
        ensures
            r == self@.tree.focused_container(),
            r matches Some(f) ==> self@.tree.contains(f) && f != ROOT,
    {
        self.tree.focused_container()
    }

    /// The monitor nearest to a native window.
    pub fn nearest_monitor(&self, native_window: &NativeWindow) -> (r: Option<ContainerId>)
        requires
            self@.wf(),
        ensures
            r == self@.tree.nearest_monitor(*native_window),
    {
        self.tree.nearest_monitor(native_window)
    }

    /// Which container takes the focus when a window leaves the layout.
    pub fn focus_target_after_removal(&self, removed_window: ContainerId) -> (r: Option<
        ContainerId,
    >)
        requires
            self@.wf(),
        ensures
            r == self@.tree.focus_target_after_removal(removed_window),
    {
        self.tree.focus_target_after_removal(removed_window)
    }

    /// Hands an event to the listeners, behind those already waiting.
    pub fn emit_event(&mut self, event: WmEvent)
        ensures
            final(self)@ == old(self)@.with_event(event),
    {
        self.events.push(event);
    }

    /// Lists a container for redraw, unless it is listed already.
    pub fn add_container_to_redraw(&mut self, id: ContainerId)
        ensures
            final(self)@ == old(self)@.with_redraw(id),
            final(self)@.containers_to_redraw.contains(id),
            old(self)@.containers_to_redraw.no_duplicates()
                ==> final(self)@.containers_to_redraw.no_duplicates(),
    {
        let mut i: usize = 0;
        while i < self.containers_to_redraw.len()
            invariant
                *self == *old(self),
                i <= self.containers_to_redraw@.len(),
                forall|j: int| 0 <= j < i ==> self.containers_to_redraw@[j] != id,
            decreases self.containers_to_redraw@.len() - i,
        {
            if self.containers_to_redraw[i] == id {
                return ;
            }
            i += 1;
        }
        self.containers_to_redraw.push(id);
        proof {
            let list = old(self)@.containers_to_redraw;
            assert(list.push(id)[list.len() as int] == id);
            assert(!list.contains(id));
        }
    }
}

} // verus!
