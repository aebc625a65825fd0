//! Walking up the tree: the workspace and monitor that own a container, and
//! whether one container lies below another.

use vstd::prelude::*;
use crate::container::ContainerId;
use crate::container::ContainerKind;
use crate::seq_util::position_of;
use crate::tree::Tree;
use crate::tree::TreeView;
use crate::tree::ROOT;

verus! {

impl TreeView {
    /// The nearest container of the given kind among `id` and its ancestors.
    pub open spec fn nearest_of_kind(self, id: ContainerId, kind: ContainerKind) -> Option<
        ContainerId,
    >
        decreases self.rank_of(id),
    {
        if self.wf() && self.contains(id) {
            if self.container_of(id).spec_kind() == kind {
                Some(id)
            } else {
                match self.parent_of(id) {
                    None => None,
                    Some(p) => {
                        proof {
                            assert(self.node_wf(id));
                        }
                        self.nearest_of_kind(p, kind)
                    },
                }
            }
        } else {
            None
        }
    }

    /// The workspace that owns a container: the container itself where it
    /// is a workspace, else the nearest workspace above it.
    pub open spec fn workspace_of(self, id: ContainerId) -> Option<ContainerId> {
        self.nearest_of_kind(id, ContainerKind::Workspace)
    }

    /// The monitor that owns a container.
    pub open spec fn monitor_of(self, id: ContainerId) -> Option<ContainerId> {
        self.nearest_of_kind(id, ContainerKind::Monitor)
    }

    /// Whether `id` is `top` itself or lies below it.
    pub open spec fn in_subtree(self, id: ContainerId, top: ContainerId) -> bool
        decreases self.rank_of(id),
    {
        if self.wf() && self.contains(id) {
            if id == top {
                true
            } else {
                match self.parent_of(id) {
                    None => false,
                    Some(p) => {
                        proof {
                            assert(self.node_wf(id));
                        }
                        self.in_subtree(p, top)
                    },
                }
            }
        } else {
            false
        }
    }
}

impl TreeView {
    /// Nothing lies below a container without children but itself.
    pub proof fn lemma_leaf_subtree(self, leaf: ContainerId, x: ContainerId)
        requires
            self.wf(),
            self.contains(leaf),
            self.children_of(leaf).len() == 0,
            self.in_subtree(x, leaf),
        ensures
            x == leaf,
        decreases self.rank_of(x),
    {
        if x != leaf {
            assert(self.node_wf(x));
            let q = self.parent_of(x).unwrap();
            self.lemma_leaf_subtree(leaf, q);
            assert(self.children_of(q).contains(x));
        }
    }

    /// The nearest container of a kind above a container ranks below it,
    /// and the container lies in its subtree.
    pub proof fn lemma_nearest_of_kind(self, id: ContainerId, kind: ContainerKind)
        requires
            self.nearest_of_kind(id, kind) is Some,
        ensures
            self.contains(self.nearest_of_kind(id, kind).unwrap()),
            self.container_of(self.nearest_of_kind(id, kind).unwrap()).spec_kind() == kind,
            self.in_subtree(id, self.nearest_of_kind(id, kind).unwrap()),
        decreases self.rank_of(id),
    {
        if self.container_of(id).spec_kind() != kind {
            assert(self.node_wf(id));
            self.lemma_nearest_of_kind(self.parent_of(id).unwrap(), kind);
        }
    }
}

impl Tree {
    /// The nearest container of the given kind among `id` and its ancestors.
    pub fn nearest_of_kind(&self, id: ContainerId, kind: ContainerKind) -> (r: Option<ContainerId>)
        requires
            self@.wf(),
        ensures
            r == self@.nearest_of_kind(id, kind),
            r matches Some(a) ==> self@.contains(a) && self@.container_of(a).spec_kind() == kind,
    {
        if !self.contains(id) {
            return None;
        }
        let mut cur: ContainerId = id;
        loop
            invariant
                self@.wf(),
                self@.contains(cur),
                self@.nearest_of_kind(cur, kind) == self@.nearest_of_kind(id, kind),
            decreases self@.rank_of(cur),
        {
            if self.container(cur).kind() == kind {
                return Some(cur);
            }
            match self.parent(cur) {
                None => {
                    return None;
                },
                Some(p) => {
                    proof {
                        assert(self@.node_wf(cur));
                    }
                    cur = p;
                },
            }
        }
    }

    /// The workspace that owns a container, the container itself included.
    pub fn workspace_of(&self, id: ContainerId) -> (r: Option<ContainerId>)
        requires
            self@.wf(),
        ensures
            r == self@.workspace_of(id),
            r matches Some(w) ==> self@.contains(w) && self@.container_of(w) is Workspace,
    {
        self.nearest_of_kind(id, ContainerKind::Workspace)
    }

    /// The monitor that owns a container, the container itself included.
    pub fn monitor_of(&self, id: ContainerId) -> (r: Option<ContainerId>)
        requires
            self@.wf(),
        ensures
            r == self@.monitor_of(id),
            r matches Some(m) ==> self@.contains(m) && self@.container_of(m) is Monitor,
    {
        self.nearest_of_kind(id, ContainerKind::Monitor)
    }

    /// Whether `id` is `top` itself or lies below it.
    pub fn in_subtree(&self, id: ContainerId, top: ContainerId) -> (r: bool)
        requires
            self@.wf(),
        ensures
            r == self@.in_subtree(id, top),
    {
        if !self.contains(id) {
            return false;
        }
        let mut cur: ContainerId = id;
        loop
            invariant
                self@.wf(),
                self@.contains(cur),
                self@.in_subtree(cur, top) == self@.in_subtree(id, top),
            decreases self@.rank_of(cur),
        {
            if cur == top {
                return true;
            }
            match self.parent(cur) {
                None => {
                    return false;
                },
                Some(p) => {
                    proof {
                        assert(self@.node_wf(cur));
                    }
                    cur = p;
                },
            }
        }
    }

    /// Position of a container among the children of its parent.
    pub fn index(&self, id: ContainerId) -> (i: usize)
        requires
            self@.wf(),
            self@.contains(id),
            id != ROOT,
        ensures
            i == self@.index_of(id),
            i < self@.children_of(self@.parent_of(id).unwrap()).len(),
            self@.children_of(self@.parent_of(id).unwrap())[i as int] == id,
    {
        proof {
            assert(self@.node_wf(id));
        }
        let p = self.parent(id).unwrap();
        proof {
            assert(self@.node_wf(p));
        }
        position_of(self.children(p), id)
    }
}

} // verus!
