//! Finding the first container of a sequence that meets a criterion.

use vstd::prelude::*;
use crate::container::Container;
use crate::container::ContainerId;
use crate::tree::Tree;
use crate::tree::TreeView;

verus! {

/// What a container is asked to be.
#[derive(Clone, Copy, Debug, PartialEq, Eq)]
pub enum Criterion {
    /// A tiling window.
    TilingWindow,
    /// A window that is not minimized, and not the given one.
    ShownWindowExcept(ContainerId),
    /// The monitor with the given platform handle.
    MonitorWithHandle(isize),
}

impl TreeView {
    /// Whether the container `c` of the tree meets the criterion.
    pub open spec fn meets(self, c: ContainerId, what: Criterion) -> bool {
        self.contains(c) && match what {
            Criterion::TilingWindow => self.container_of(c) is TilingWindow,
            Criterion::ShownWindowExcept(e) => c != e && match self.container_of(c) {
                Container::TilingWindow(_) => true,
                Container::NonTilingWindow(w) => !(w.state is Minimized),
                _ => false,
            },
            Criterion::MonitorWithHandle(h) => match self.container_of(c) {
                Container::Monitor(m) => m.handle == h,
                _ => false,
            },
        }
    }

    /// The first container of `order`, from position `i` on, that meets
    /// the criterion.
    pub open spec fn first_meeting_from(self, order: Seq<ContainerId>, what: Criterion, i: int)
        -> Option<ContainerId>
        decreases order.len() - i,
    {
        if i < 0 || i >= order.len() {
            None
        } else if self.meets(order[i], what) {
            Some(order[i])
        } else {
            self.first_meeting_from(order, what, i + 1)
        }
    }

    /// The first container of `order` that meets the criterion.
    pub open spec fn first_meeting(self, order: Seq<ContainerId>, what: Criterion) -> Option<
        ContainerId,
    > {
        self.first_meeting_from(order, what, 0)
    }
}

impl Tree {
    /// Whether the container `c` of the tree meets the criterion.
    pub fn meets(&self, c: ContainerId, what: Criterion) -> (r: bool)
        ensures
            r == self@.meets(c, what),
    {
        if !self.contains(c) {
            return false;
        }
        let container = self.container(c);
        match what {
            Criterion::TilingWindow => container.is_tiling_window(),
            Criterion::ShownWindowExcept(e) => c != e && match container {
                Container::TilingWindow(_) => true,
                Container::NonTilingWindow(w) => !w.state.is_minimized(),
                _ => false,
            },
            Criterion::MonitorWithHandle(h) => match container {
                Container::Monitor(m) => m.handle == h,
                _ => false,
            },
        }
    }

    /// The first container of `order` that meets the criterion.
    pub fn first_meeting(&self, order: &Vec<ContainerId>, what: Criterion) -> (r: Option<
        ContainerId,
    >)
        ensures
            r == self@.first_meeting(order@, what),
            r matches Some(c) ==> order@.contains(c) && self@.meets(c, what),
    {
        let mut i: usize = 0;
        while i < order.len()
            invariant
                i <= order@.len(),
                self@.first_meeting_from(order@, what, i as int) == self@.first_meeting(
                    order@,
                    what,
                ),
            decreases order@.len() - i,
        {
            if self.meets(order[i], what) {
                return Some(order[i]);
            }
            i += 1;
        }
        None
    }
}

} // verus!
