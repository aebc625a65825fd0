//! The focus order: which container carries the focus, how a container
//! takes it, and in which order the containers below another were last
//! focused.

use vstd::prelude::*;
use crate::container::ContainerId;
use crate::seq_util::lemma_insert;
use crate::seq_util::lemma_without;
use crate::seq_util::moved_to_front;
use crate::seq_util::position_of;
use crate::seq_util::without;
use crate::tree::NodeView;
use crate::tree::Tree;
use crate::tree::TreeView;
use crate::tree::ROOT;

verus! {

impl TreeView {
    /// The container reached from `x` by stepping to the most recently
    /// focused child until a container without children is met.
    pub open spec fn focus_leaf(self, x: ContainerId) -> ContainerId
        decreases self.max_rank - self.rank_of(x),
    {
        if self.wf() && self.contains(x) && self.focus_order_of(x).len() > 0 {
            let c = self.focus_order_of(x)[0];
            proof {
                self.lemma_focus_child(x, 0);
            }
            self.focus_leaf(c)
        } else {
            x
        }
    }

    /// The container that carries the focus: the one that the focus order
    /// leads to from the root. A tree that holds the root alone has none.
    pub open spec fn focused_container(self) -> Option<ContainerId> {
        if self.wf() && self.focus_order_of(ROOT).len() > 0 {
            Some(self.focus_leaf(ROOT))
        } else {
            None
        }
    }

    /// Every entry of a focus order is a child of the node, and ranks
    /// above it.
    pub proof fn lemma_focus_child(self, x: ContainerId, i: int)
        requires
            self.wf(),
            self.contains(x),
            0 <= i < self.focus_order_of(x).len(),
        ensures
            self.is_child_of(self.focus_order_of(x)[i], x),
            self.focus_order_of(x)[i] != ROOT,
            self.rank_of(x) < self.rank_of(self.focus_order_of(x)[i]) <= self.max_rank,
    {
        let c = self.focus_order_of(x)[i];
        assert(self.focus_order_of(x).contains(c));
        self.lemma_child_iff_parent(x, c);
        assert(self.node_wf(c));
    }

    /// The containers without children at or below `x`, in the order in
    /// which they were last focused, the most recent first.
    pub open spec fn focus_walk(self, x: ContainerId) -> Seq<ContainerId>
        decreases self.max_rank - self.rank_of(x), self.focus_order_of(x).len() + 1,
    {
        if self.wf() && self.contains(x) && self.focus_order_of(x).len() > 0 {
            self.focus_walk_from(x, 0)
        } else {
            seq![x]
        }
    }

    /// The walks of the children of `x` from the `i`-th of its focus order
    /// on, one after the other.
    pub open spec fn focus_walk_from(self, x: ContainerId, i: nat) -> Seq<ContainerId>
        decreases self.max_rank - self.rank_of(x), self.focus_order_of(x).len() - i,
    {
        if self.wf() && self.contains(x) && i < self.focus_order_of(x).len() {
            proof {
                self.lemma_focus_child(x, i as int);
            }
            self.focus_walk(self.focus_order_of(x)[i as int]) + self.focus_walk_from(x, i + 1)
        } else {
            Seq::empty()
        }
    }

    /// The containers without children below `x`, most recently focused
    /// first. `x` itself is not among them.
    pub open spec fn descendant_focus_order(self, x: ContainerId) -> Seq<ContainerId> {
        self.focus_walk_from(x, 0)
    }

    /// The workspace that a monitor shows: its most recently focused child,
    /// where that is a workspace.
    pub open spec fn displayed_workspace(self, monitor: ContainerId) -> Option<ContainerId> {
        if self.wf() && self.contains(monitor) && self.container_of(monitor) is Monitor
            && self.focus_order_of(monitor).len() > 0 && self.container_of(
            self.focus_order_of(monitor)[0],
        ) is Workspace {
            Some(self.focus_order_of(monitor)[0])
        } else {
            None
        }
    }

    /// On the way from `id` up to the root, the container through which the
    /// way enters `p`: the child of `p` that is `id` or lies above it. The
    /// way ends at `end`, whose own child still counts, where one is given.
    pub open spec fn focus_path_child(
        self,
        id: ContainerId,
        end: Option<ContainerId>,
        p: ContainerId,
    ) -> Option<ContainerId>
        decreases self.rank_of(id),
    {
        if self.wf() && self.contains(id) {
            match self.parent_of(id) {
                None => None,
                Some(q) => {
                    if q == p {
                        Some(id)
                    } else if end == Some(q) {
                        None
                    } else {
                        proof {
                            assert(self.node_wf(id));
                        }
                        self.focus_path_child(q, end, p)
                    }
                },
            }
        } else {
            None
        }
    }

    /// One node of the tree after `id` has taken the focus.
    pub open spec fn focused_node(self, x: ContainerId, id: ContainerId, end: Option<ContainerId>)
        -> NodeView {
        match self.focus_path_child(id, end, x) {
            Some(c) => NodeView {
                focus_order: moved_to_front(self.focus_order_of(x), c),
                ..self.node(x)
            },
            None => self.node(x),
        }
    }

    /// The tree after `id` has taken the focus: in every container on the
    /// way from `id` up to the root, or up to `end`, the child on that way
    /// is the most recently focused. Nothing else changes.
    pub open spec fn with_focus(self, id: ContainerId, end: Option<ContainerId>) -> TreeView {
        TreeView {
            nodes: Seq::new(self.nodes.len(), |x: int| self.focused_node(x as ContainerId, id, end)),
            max_rank: self.max_rank,
        }
    }

    /// The container through which the way up enters `p` is a child of `p`,
    /// and `p` ranks below the start of the way.
    pub proof fn lemma_focus_path_child(
        self,
        id: ContainerId,
        end: Option<ContainerId>,
        p: ContainerId,
    )
        requires
            self.focus_path_child(id, end, p) is Some,
        ensures
            self.contains(p),
            self.rank_of(p) < self.rank_of(id),
            self.is_child_of(self.focus_path_child(id, end, p).unwrap(), p),
            self.focus_path_child(id, end, p).unwrap() != ROOT,
        decreases self.rank_of(id),
    {
        assert(self.node_wf(id));
        let q = self.parent_of(id).unwrap();
        if q != p {
            self.lemma_focus_path_child(q, end, p);
        }
    }

    /// Making a child the most recently focused one keeps the tree
    /// well-formed.
    pub proof fn lemma_refocus_wf(self, p: ContainerId, c: ContainerId)
        requires
            self.wf(),
            self.contains(p),
            self.is_child_of(c, p),
            c != ROOT,
        ensures
            self.with_node(
                p,
                NodeView { focus_order: moved_to_front(self.focus_order_of(p), c), ..self.node(p) },
            ).wf(),
    {
        let n = self.node(p);
        let t = self.with_node(p, NodeView { focus_order: moved_to_front(n.focus_order, c), ..n });
        assert(self.node_wf(p));
        lemma_without(n.focus_order, c);
        lemma_insert(without(n.focus_order, c), 0, c);
        self.lemma_child_iff_parent(p, c);
        assert forall|x: ContainerId| t.contains(x) implies #[trigger] t.node_wf(x) by {
            assert(self.node_wf(x));
            let m = t.node(x);
            assert forall|i: int| 0 <= i < m.children.len() implies t.is_child_of(
                #[trigger] m.children[i],
                x,
            ) && m.focus_order.contains(m.children[i]) by {
                assert(self.is_child_of(self.node(x).children[i], x));
                assert(self.node(x).focus_order.contains(m.children[i]));
            }
            assert forall|i: int| 0 <= i < m.focus_order.len() implies m.children.contains(
                #[trigger] m.focus_order[i],
            ) by {
                let d = m.focus_order[i];
                assert(m.focus_order.contains(d));
                self.lemma_focus_lists_children(x, d);
            }
        }
    }
}

impl TreeView {
    /// Giving the focus to a container keeps the tree well-formed.
    pub proof fn lemma_with_focus_wf(self, id: ContainerId, end: Option<ContainerId>)
        requires
            self.wf(),
        ensures
            self.with_focus(id, end).wf(),
    {
        let t = self.with_focus(id, end);
        assert forall|x: ContainerId| t.contains(x) implies #[trigger] t.node_wf(x) by {
            assert(self.node_wf(x));
            assert(t.node(x) == self.focused_node(x, id, end));
            let n = self.node(x);
            let m = t.node(x);
            if self.focus_path_child(id, end, x) is Some {
                let c = self.focus_path_child(id, end, x).unwrap();
                self.lemma_focus_path_child(id, end, x);
                self.lemma_child_iff_parent(x, c);
                lemma_without(n.focus_order, c);
                lemma_insert(without(n.focus_order, c), 0, c);
            }
            assert forall|i: int| 0 <= i < m.children.len() implies t.is_child_of(
                #[trigger] m.children[i],
                x,
            ) && m.focus_order.contains(m.children[i]) by {
                let d = m.children[i];
                assert(self.is_child_of(n.children[i], x));
                assert(t.node(d) == self.focused_node(d, id, end));
                assert(n.focus_order.contains(d));
            }
            assert forall|i: int| 0 <= i < m.focus_order.len() implies m.children.contains(
                #[trigger] m.focus_order[i],
            ) by {
                let d = m.focus_order[i];
                assert(m.focus_order.contains(d));
                self.lemma_focus_lists_children(x, d);
            }
            if x != ROOT {
                let q = n.parent.unwrap();
                assert(t.node(q) == self.focused_node(q, id, end));
            }
        }
    }

    /// Every container above `id` is entered, on the way up from `id`,
    /// through one of its children, which is `id` or lies above it.
    pub proof fn lemma_way_up_enters(self, id: ContainerId, above: ContainerId)
        requires
            self.in_subtree(id, above),
            id != above,
        ensures
            self.focus_path_child(id, None, above) is Some,
            self.in_subtree(id, self.focus_path_child(id, None, above).unwrap()),
            self.contains(above),
        decreases self.rank_of(id),
    {
        assert(self.node_wf(id));
        let q = self.parent_of(id).unwrap();
        if q != above {
            self.lemma_way_up_enters(q, above);
        }
    }

    /// Once `id` has taken the focus, the focus order leads from every
    /// container above `id` to where it leads from `id`.
    pub proof fn lemma_focus_leads_down(self, id: ContainerId, above: ContainerId)
        requires
            self.wf(),
            self.in_subtree(id, above),
        ensures
            self.with_focus(id, None).focus_leaf(above) == self.with_focus(id, None).focus_leaf(
                id,
            ),
        decreases self.max_rank - self.rank_of(above),
    {
        if id != above {
            let t = self.with_focus(id, None);
            self.lemma_with_focus_wf(id, None);
            self.lemma_way_up_enters(id, above);
            let c = self.focus_path_child(id, None, above).unwrap();
            self.lemma_focus_path_child(id, None, above);
            assert(self.node_wf(above));
            assert(self.node_wf(c));
            assert(t.node(above) == self.focused_node(above, id, None));
            assert(t.focus_order_of(above)[0] == c);
            self.lemma_focus_leads_down(id, c);
        }
    }

    /// Every container of the tree is the root or lies below it.
    pub proof fn lemma_below_root(self, id: ContainerId)
        requires
            self.wf(),
            self.contains(id),
        ensures
            self.in_subtree(id, ROOT),
        decreases self.rank_of(id),
    {
        if id != ROOT {
            assert(self.node_wf(id));
            self.lemma_below_root(self.parent_of(id).unwrap());
        }
    }

    /// A container without children that has taken the focus is the
    /// focused container.
    pub proof fn lemma_focused_after_focus(self, id: ContainerId)
        requires
            self.wf(),
            self.contains(id),
            id != ROOT,
            self.children_of(id).len() == 0,
        ensures
            self.with_focus(id, None).focused_container() == Some(id),
    {
        let t = self.with_focus(id, None);
        self.lemma_with_focus_wf(id, None);
        self.lemma_below_root(id);
        self.lemma_focus_leads_down(id, ROOT);
        self.lemma_way_up_enters(id, ROOT);
        assert(t.node(ROOT) == self.focused_node(ROOT, id, None));
        assert(t.focus_order_of(ROOT).len() > 0);
        assert(t.node(id) == self.focused_node(id, id, None));
        if self.focus_path_child(id, None, id) is Some {
            self.lemma_focus_path_child(id, None, id);
        }
        assert(self.node_wf(id));
        if self.focus_order_of(id).len() > 0 {
            assert(self.children_of(id).contains(self.focus_order_of(id)[0]));
        }
        assert(t.focus_leaf(id) == id);
    }
}

/// Where the way up goes on from, if it goes on.
pub open spec fn focus_path_rest(
    t: TreeView,
    next: Option<ContainerId>,
    end: Option<ContainerId>,
    p: ContainerId,
) -> Option<ContainerId> {
    match next {
        Some(c) => t.focus_path_child(c, end, p),
        None => None,
    }
}

impl Tree {
    /// The container that carries the focus.
    pub fn focused_container(&self) -> (r: Option<ContainerId>)
        requires
            self@.wf(),
        ensures
            r == self@.focused_container(),
            r matches Some(f) ==> self@.contains(f) && f != ROOT,
    {
        if self.focus_order(ROOT).len() == 0 {
            return None;
        }
        proof {
            self@.lemma_focus_child(ROOT, 0);
        }
        let mut cur: ContainerId = self.focus_order(ROOT)[0];
        loop
            invariant
                self@.wf(),
                self@.contains(cur),
                cur != ROOT,
                self@.focus_leaf(cur) == self@.focus_leaf(ROOT),
            decreases self@.max_rank - self@.rank_of(cur),
        {
            let order = self.focus_order(cur);
            if order.len() == 0 {
                return Some(cur);
            }
            proof {
                self@.lemma_focus_child(cur, 0);
            }
            cur = order[0];
        }
    }

    fn collect_focus_walk(&self, x: ContainerId, out: &mut Vec<ContainerId>)
        requires
            self@.wf(),
            self@.contains(x),
        ensures
            final(out)@ == old(out)@ + self@.focus_walk(x),
        decreases self@.max_rank - self@.rank_of(x),
    {
        let order = self.focus_order(x);
        if order.len() == 0 {
            out.push(x);
            assert(out@ =~= old(out)@ + self@.focus_walk(x));
            return ;
        }
        let mut i: usize = 0;
        while i < order.len()
            invariant
                self@.wf(),
                self@.contains(x),
                order@ == self@.focus_order_of(x),
                i <= order@.len(),
                out@ + self@.focus_walk_from(x, i as nat) == old(out)@ + self@.focus_walk_from(
                    x,
                    0,
                ),
            decreases order@.len() - i,
        {
            proof {
                self@.lemma_focus_child(x, i as int);
            }
            let ghost prev = out@;
            self.collect_focus_walk(order[i], out);
            proof {
                assert(out@ + self@.focus_walk_from(x, (i + 1) as nat) =~= prev
                    + self@.focus_walk_from(x, i as nat));
            }
            i += 1;
        }
        assert(out@ =~= out@ + self@.focus_walk_from(x, i as nat));
    }

    /// The containers without children below `x`, most recently focused
    /// first.
    pub fn descendant_focus_order(&self, x: ContainerId) -> (r: Vec<ContainerId>)
        requires
            self@.wf(),
        ensures
            r@ == self@.descendant_focus_order(x),
    {
        let mut out: Vec<ContainerId> = Vec::new();
        if self.contains(x) && self.focus_order(x).len() > 0 {
            self.collect_focus_walk(x, &mut out);
            assert(out@ =~= self@.focus_walk(x));
        }
        out
    }

    /// The workspace that a monitor shows.
    pub fn displayed_workspace(&self, monitor: ContainerId) -> (r: Option<ContainerId>)
        requires
            self@.wf(),
        ensures
            r == self@.displayed_workspace(monitor),
            r matches Some(w) ==> self@.contains(w) && self@.container_of(w) is Workspace,
    {
        if !self.contains(monitor) || !self.container(monitor).is_monitor() {
            return None;
        }
        let order = self.focus_order(monitor);
        if order.len() == 0 {
            return None;
        }
        proof {
            self@.lemma_focus_child(monitor, 0);
        }
        let shown = order[0];
        if self.container(shown).is_workspace() {
            Some(shown)
        } else {
            None
        }
    }

    /// Gives the focus to a container: it becomes the most recently focused
    /// child of its parent, the parent that of its own parent, and so on up
    /// to the root or, where one is given, up to `end_ancestor`.
    pub fn set_focused_descendant(
        &mut self,
        focused_descendant: ContainerId,
        end_ancestor: Option<ContainerId>,
    )
        requires
            old(self)@.wf(),
        ensures
            final(self)@.wf(),
            final(self)@ == old(self)@.with_focus(focused_descendant, end_ancestor),
    {
        let ghost before = self@;
        let mut next: Option<ContainerId> = if self.contains(focused_descendant) {
            Some(focused_descendant)
        } else {
            None
        };
        while next.is_some()
            invariant
                before.wf(),
                self@.wf(),
                next matches Some(c) ==> before.contains(c),
                self@.nodes.len() == before.nodes.len(),
                self@.max_rank == before.max_rank,
                forall|x: ContainerId|
                    before.contains(x) ==> #[trigger] self@.node(x) == (NodeView {
                        focus_order: if focus_path_rest(before, next, end_ancestor, x) is Some
                            || before.focus_path_child(focused_descendant, end_ancestor, x)
                            is None {
                            before.focus_order_of(x)
                        } else {
                            moved_to_front(
                                before.focus_order_of(x),
                                before.focus_path_child(
                                    focused_descendant,
                                    end_ancestor,
                                    x,
                                ).unwrap(),
                            )
                        },
                        ..before.node(x)
                    }),
                forall|x: ContainerId|
                    #![trigger focus_path_rest(before, next, end_ancestor, x)]
                    focus_path_rest(before, next, end_ancestor, x) is Some
                        ==> before.focus_path_child(focused_descendant, end_ancestor, x)
                        == focus_path_rest(before, next, end_ancestor, x),
            decreases
                    (match next {
                        Some(c) => before.rank_of(c) + 1,
                        None => 0,
                    }),
        {
            let cur = next.unwrap();
            let ghost staged = self@;
            assert(self@.node(cur).parent == before.node(cur).parent);
            match self.parent(cur) {
                None => {
                    next = None;
                },
                Some(q) => {
                    proof {
                        assert(before.node_wf(cur));
                        assert(before.focus_path_child(cur, end_ancestor, q) == Some(cur));
                        assert(focus_path_rest(before, next, end_ancestor, q) == Some(cur));
                        assert(staged.node(q).focus_order == before.focus_order_of(q));
                        assert(before.node_wf(q));
                        before.lemma_child_iff_parent(q, cur);
                        lemma_without(before.focus_order_of(q), cur);
                        staged.lemma_refocus_wf(q, cur);
                    }
                    let at = position_of(self.focus_order(q), cur);
                    self.raw_remove_focus(q, at);
                    self.raw_insert_focus(q, 0, cur);
                    let ghost prev = next;
                    next = if end_ancestor == Some(q) {
                        None
                    } else {
                        Some(q)
                    };
                    proof {
                        assert(self@.nodes =~= staged.with_node(
                            q,
                            NodeView {
                                focus_order: moved_to_front(staged.focus_order_of(q), cur),
                                ..staged.node(q)
                            },
                        ).nodes);
                        assert forall|x: ContainerId|
                            #![trigger focus_path_rest(before, next, end_ancestor, x)]
                            x != q implies focus_path_rest(before, next, end_ancestor, x)
                            == focus_path_rest(before, prev, end_ancestor, x) by {}
                        assert(focus_path_rest(before, next, end_ancestor, q) is None) by {
                            if focus_path_rest(before, next, end_ancestor, q) is Some {
                                before.lemma_focus_path_child(q, end_ancestor, q);
                            }
                        }
                        assert forall|x: ContainerId| before.contains(x) implies #[trigger] self@.node(
                            x,
                        ) == (NodeView {
                            focus_order: if focus_path_rest(before, next, end_ancestor, x) is Some
                                || before.focus_path_child(focused_descendant, end_ancestor, x)
                                is None {
                                before.focus_order_of(x)
                            } else {
                                moved_to_front(
                                    before.focus_order_of(x),
                                    before.focus_path_child(
                                        focused_descendant,
                                        end_ancestor,
                                        x,
                                    ).unwrap(),
                                )
                            },
                            ..before.node(x)
                        }) by {
                            assert(staged.node(x).rank == before.node(x).rank);
                            if x != q {
                                assert(focus_path_rest(before, next, end_ancestor, x)
                                    == focus_path_rest(before, prev, end_ancestor, x));
                            }
                        }
                    }
                },
            }
        }
        proof {
            let goal = before.with_focus(focused_descendant, end_ancestor);
            assert forall|x: int| 0 <= x < goal.nodes.len() implies self@.nodes[x]
                == goal.nodes[x] by {
                let xu = x as ContainerId;
                assert(focus_path_rest(before, next, end_ancestor, xu) is None);
                assert(self@.node(xu).rank == before.node(xu).rank);
            }
            assert(self@.nodes =~= goal.nodes);
        }
    }
}

} // verus!
