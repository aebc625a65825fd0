//! The operations that change the shape of the tree: attaching a new
//! container, swapping what a node is, and moving a container elsewhere.

use vstd::prelude::*;
use crate::container::Container;
use crate::container::ContainerId;
use crate::error::WmError;
use crate::seq_util::lemma_insert;
use crate::seq_util::lemma_push_is_insert;
use crate::seq_util::lemma_without;
use crate::seq_util::position_of;
use crate::seq_util::without;
use crate::tree::NodeView;
use crate::tree::Tree;
use crate::tree::TreeView;
use crate::tree::ROOT;

verus! {

impl TreeView {
    /// The position that an attachment asks for: the given one, or the end.
    pub open spec fn attach_index(self, parent: ContainerId, index: Option<usize>) -> int {
        match index {
            Some(i) => i as int,
            None => self.children_of(parent).len() as int,
        }
    }

    /// Whether a container can be attached under `parent` at `index`, and
    /// the identifier it then gets.
    pub open spec fn attach_result(self, parent: ContainerId, index: Option<usize>) -> Result<
        ContainerId,
        WmError,
    > {
        if !self.contains(parent) {
            Err(WmError::UnknownContainer)
        } else if self.container_of(parent).spec_is_window() {
            Err(WmError::WindowHoldsNoChildren)
        } else if self.attach_index(parent, index) > self.children_of(parent).len() {
            Err(WmError::IndexOutOfBounds)
        } else {
            Ok(self.nodes.len() as ContainerId)
        }
    }

    /// The tree with a new container under `parent` at position `index`.
    /// The later children move up by one; the new container is the least
    /// recently focused child; no other node changes.
    pub open spec fn attach(self, container: Container, parent: ContainerId, index: int)
        -> TreeView {
        let id = self.nodes.len() as ContainerId;
        let rank = self.rank_of(parent) + 1;
        let p = self.node(parent);
        TreeView {
            nodes: self.nodes.update(
                parent as int,
                NodeView {
                    children: p.children.insert(index, id),
                    focus_order: p.focus_order.push(id),
                    ..p
                },
            ).push(
                NodeView {
                    parent: Some(parent),
                    children: Seq::empty(),
                    focus_order: Seq::empty(),
                    container,
                    rank,
                },
            ),
            max_rank: if rank > self.max_rank {
                rank
            } else {
                self.max_rank
            },
        }
    }

    /// Whether node `id` can become `container`.
    pub open spec fn set_container_result(self, id: ContainerId, container: Container) -> Result<
        (),
        WmError,
    > {
        if !self.contains(id) {
            Err(WmError::UnknownContainer)
        } else if id == ROOT {
            Err(WmError::NoParent)
        } else if container.spec_is_window() && self.children_of(id).len() > 0 {
            Err(WmError::WindowHoldsNoChildren)
        } else {
            Ok(())
        }
    }

    /// Whether the child at `index` of `parent` can be replaced by
    /// `replacement`, and which container that is.
    pub open spec fn replace_result(self, replacement: Container, parent: ContainerId, index: usize)
        -> Result<ContainerId, WmError> {
        if !self.contains(parent) {
            Err(WmError::UnknownContainer)
        } else if index >= self.children_of(parent).len() {
            Err(WmError::IndexOutOfBounds)
        } else {
            match self.set_container_result(self.children_of(parent)[index as int], replacement) {
                Ok(_) => Ok(self.children_of(parent)[index as int]),
                Err(e) => Err(e),
            }
        }
    }

    /// The tree in which node `id` is `container`: same identifier, same
    /// parent, same position, same children.
    pub open spec fn replace(self, id: ContainerId, container: Container) -> TreeView {
        self.with_node(id, NodeView { container, ..self.node(id) })
    }

    /// Whether `id` can be moved under `target` at `index`.
    pub open spec fn move_result(self, id: ContainerId, target: ContainerId, index: usize)
        -> Result<(), WmError> {
        if !self.contains(id) || !self.contains(target) {
            Err(WmError::UnknownContainer)
        } else if id == ROOT {
            Err(WmError::NoParent)
        } else if self.container_of(target).spec_is_window() {
            Err(WmError::WindowHoldsNoChildren)
        } else if self.in_subtree(target, id) {
            Err(WmError::MoveIntoOwnSubtree)
        } else if index > without(self.children_of(target), id).len() {
            Err(WmError::IndexOutOfBounds)
        } else {
            Ok(())
        }
    }

    /// One node of the tree after `id` has moved under `target` at `index`.
    pub open spec fn moved_node(
        self,
        x: ContainerId,
        id: ContainerId,
        target: ContainerId,
        index: int,
    ) -> NodeView {
        let n = self.node(x);
        NodeView {
            parent: if x == id {
                Some(target)
            } else {
                n.parent
            },
            children: if x == target {
                without(n.children, id).insert(index, id)
            } else {
                without(n.children, id)
            },
            focus_order: if self.parent_of(id) == Some(target) {
                n.focus_order
            } else if x == target {
                n.focus_order.push(id)
            } else {
                without(n.focus_order, id)
            },
            container: n.container,
            rank: if self.in_subtree(x, id) {
                n.rank + self.rank_of(target) + 1
            } else {
                n.rank
            },
        }
    }

    /// The tree after `id`, with all that lies below it, has moved under
    /// `target`, where it stands at position `index`. Under a new parent it
    /// is the least recently focused child; under the same parent the focus
    /// order stays. No other child sequence changes.
    pub open spec fn moved(self, id: ContainerId, target: ContainerId, index: int) -> TreeView {
        TreeView {
            nodes: Seq::new(
                self.nodes.len(),
                |x: int| self.moved_node(x as ContainerId, id, target, index),
            ),
            max_rank: self.max_rank + self.rank_of(target) + 1,
        }
    }

    /// Swapping what a node is keeps the tree well-formed, as long as no
    /// window comes to hold children.
    pub proof fn lemma_replace_wf(self, id: ContainerId, container: Container)
        requires
            self.wf(),
            container.attachable(),
            self.set_container_result(id, container) is Ok,
        ensures
            self.replace(id, container).wf(),
    {
        let t = self.replace(id, container);
        assert(self.node_wf(id));
        assert forall|x: ContainerId| t.contains(x) implies #[trigger] t.node_wf(x) by {
            assert(self.node_wf(x));
            let n = t.node(x);
            assert forall|i: int| 0 <= i < n.children.len() implies t.is_child_of(
                #[trigger] n.children[i],
                x,
            ) && n.focus_order.contains(n.children[i]) by {
                assert(self.is_child_of(self.node(x).children[i], x));
            }
            if x == id && container.spec_is_window() && n.focus_order.len() > 0 {
                assert(n.children.contains(n.focus_order[0]));
            }
        }
    }

    /// Attaching an admissible container keeps the tree well-formed.
    pub proof fn lemma_attach_wf(self, container: Container, parent: ContainerId, index: int)
        requires
            self.wf(),
            container.attachable(),
            self.contains(parent),
            !self.container_of(parent).spec_is_window(),
            0 <= index <= self.children_of(parent).len(),
            self.nodes.len() < usize::MAX,
        ensures
            self.attach(container, parent, index).wf(),
    {
        let t = self.attach(container, parent, index);
        let id = self.nodes.len() as ContainerId;
        let p = self.node(parent);
        assert(self.node_wf(parent));
        assert(!p.children.contains(id)) by {
            if p.children.contains(id) {
                let i = choose|i: int| 0 <= i < p.children.len() && p.children[i] == id;
                assert(self.is_child_of(p.children[i], parent));
            }
        }
        assert(!p.focus_order.contains(id)) by {
            if p.focus_order.contains(id) {
                let i = choose|i: int| 0 <= i < p.focus_order.len() && p.focus_order[i] == id;
                assert(p.children.contains(p.focus_order[i]));
            }
        }
        lemma_insert(p.children, index, id);
        lemma_push_is_insert(p.focus_order, id);
        lemma_insert(p.focus_order, p.focus_order.len() as int, id);
        assert forall|x: ContainerId| t.contains(x) implies #[trigger] t.node_wf(x) by {
            if x == id {
                assert(t.node(x).children.len() == 0);
                assert(t.node(x).focus_order.len() == 0);
                assert(t.node_wf(x));
            } else {
                assert(self.node_wf(x));
                let n = t.node(x);
                assert forall|i: int| 0 <= i < n.children.len() implies t.is_child_of(
                    #[trigger] n.children[i],
                    x,
                ) && n.focus_order.contains(n.children[i]) by {
                    let c = n.children[i];
                    assert(n.children.contains(c));
                    if c != id {
                        assert(self.node(x).children.contains(c));
                        let j = choose|j: int|
                            0 <= j < self.node(x).children.len() && self.node(x).children[j] == c;
                        assert(self.is_child_of(self.node(x).children[j], x));
                    }
                }
                assert forall|i: int| 0 <= i < n.focus_order.len() implies n.children.contains(
                    #[trigger] n.focus_order[i],
                ) by {
                    let c = n.focus_order[i];
                    assert(n.focus_order.contains(c));
                    if c != id {
                        assert(self.node(x).focus_order.contains(c));
                        let j = choose|j: int|
                            0 <= j < self.node(x).focus_order.len() && self.node(
                                x,
                            ).focus_order[j] == c;
                        assert(self.node(x).children.contains(self.node(x).focus_order[j]));
                    }
                }
                if x != ROOT {
                    let q = self.parent_of(x).unwrap();
                    assert(t.node(q).children.contains(x));
                }
                assert(t.node_wf(x));
            }
        }
    }
}

impl TreeView {
    /// Which containers a node holds once `id` has moved under `target`:
    /// those it held before, but for `id`, which the target alone holds.
    pub proof fn lemma_moved_members(
        self,
        x: ContainerId,
        id: ContainerId,
        target: ContainerId,
        index: int,
    )
        requires
            self.wf(),
            self.contains(x),
            self.contains(id),
            self.contains(target),
            id != ROOT,
            0 <= index <= without(self.children_of(target), id).len(),
        ensures
            self.moved_node(x, id, target, index).children.no_duplicates(),
            self.moved_node(x, id, target, index).focus_order.no_duplicates(),
            forall|c: ContainerId|
                #![trigger self.moved_node(x, id, target, index).children.contains(c)]
                self.moved_node(x, id, target, index).children.contains(c) <==> (
                self.children_of(x).contains(c) && c != id) || (c == id && x == target),
            forall|c: ContainerId|
                #![trigger self.moved_node(x, id, target, index).focus_order.contains(c)]
                self.moved_node(x, id, target, index).focus_order.contains(c) <==> (
                self.children_of(x).contains(c) && c != id) || (c == id && x == target),
            x == target ==> self.moved_node(x, id, target, index).children[index] == id,
    {
        let n = self.node(x);
        let m = self.moved_node(x, id, target, index);
        assert(self.node_wf(x));
        assert(self.node_wf(id));
        lemma_without(n.children, id);
        lemma_without(n.focus_order, id);
        self.lemma_child_iff_parent(x, id);
        if x == target {
            lemma_insert(without(n.children, id), index, id);
        }
        if self.parent_of(id) != Some(target) && x == target {
            lemma_push_is_insert(n.focus_order, id);
            lemma_insert(n.focus_order, n.focus_order.len() as int, id);
        }
        assert forall|c: ContainerId| #![trigger m.focus_order.contains(c)]
            m.focus_order.contains(c) <==> (n.children.contains(c) && c != id) || (c == id && x
                == target) by {
            self.lemma_focus_lists_children(x, c);
        }
    }

    /// Moving a container to a place outside its own subtree keeps the
    /// tree well-formed.
    pub proof fn lemma_moved_wf(self, id: ContainerId, target: ContainerId, index: int)
        requires
            self.wf(),
            self.contains(id),
            self.contains(target),
            id != ROOT,
            !self.container_of(target).spec_is_window(),
            !self.in_subtree(target, id),
            0 <= index <= without(self.children_of(target), id).len(),
        ensures
            self.moved(id, target, index).wf(),
    {
        let t = self.moved(id, target, index);
        assert forall|x: ContainerId| t.contains(x) implies #[trigger] t.node_wf(x) by {
            assert(t.node(x) == self.moved_node(x, id, target, index));
            let n = self.node(x);
            let m = t.node(x);
            assert(self.node_wf(x));
            self.lemma_moved_members(x, id, target, index);
            assert forall|i: int| 0 <= i < m.children.len() implies t.is_child_of(
                #[trigger] m.children[i],
                x,
            ) && m.focus_order.contains(m.children[i]) by {
                let c = m.children[i];
                assert(m.children.contains(c));
                self.lemma_child_iff_parent(x, c);
                assert(t.node(c) == self.moved_node(c, id, target, index));
            }
            assert forall|i: int| 0 <= i < m.focus_order.len() implies m.children.contains(
                #[trigger] m.focus_order[i],
            ) by {
                let c = m.focus_order[i];
                assert(m.focus_order.contains(c));
            }
            if x != ROOT {
                let q = m.parent.unwrap();
                assert(self.contains(q));
                assert(t.node(q) == self.moved_node(q, id, target, index));
                self.lemma_moved_members(q, id, target, index);
                self.lemma_child_iff_parent(q, x);
                assert(t.node(q).children.contains(x));
                assert(t.node(q).rank < m.rank) by {
                    if x == id {
                    } else {
                        let p = n.parent.unwrap();
                        assert(self.in_subtree(x, id) == self.in_subtree(p, id));
                    }
                }
            }
        }
    }
}

impl Tree {
    /// Moves a container, with all that lies below it, under
    /// `target_parent`, where it then stands at `target_index`.
    pub fn move_container_within_tree(
        &mut self,
        container: ContainerId,
        target_parent: ContainerId,
        target_index: usize,
    ) -> (r: Result<(), WmError>)
        requires
            old(self)@.wf(),
        ensures
            final(self)@.wf(),
            r == old(self)@.move_result(container, target_parent, target_index),
            r is Ok ==> final(self)@ == old(self)@.moved(
                container,
                target_parent,
                target_index as int,
            ),
            r is Err ==> final(self)@ == old(self)@,
    {
        if !self.contains(container) || !self.contains(target_parent) {
            return Err(WmError::UnknownContainer);
        }
        if container == ROOT {
            return Err(WmError::NoParent);
        }
        if self.container(target_parent).is_window() {
            return Err(WmError::WindowHoldsNoChildren);
        }
        if self.in_subtree(target_parent, container) {
            return Err(WmError::MoveIntoOwnSubtree);
        }
        proof {
            assert(self@.node_wf(container));
            assert(self@.node_wf(target_parent));
            self@.lemma_child_iff_parent(target_parent, container);
            lemma_without(self@.children_of(target_parent), container);
        }
        let parent = self.parent(container).unwrap();
        let index = self.index(container);
        let count = self.child_count(target_parent);
        let limit = if parent == target_parent {
            count - 1
        } else {
            count
        };
        if target_index > limit {
            return Err(WmError::IndexOutOfBounds);
        }
        proof {
            assert(self@.node_wf(parent));
            self@.lemma_focus_lists_children(parent, container);
        }
        self.raw_remove_child(parent, index);
        self.raw_insert_child(target_parent, target_index, container);
        if parent != target_parent {
            let at = position_of(self.focus_order(parent), container);
            self.raw_remove_focus(parent, at);
            let end = self.focus_order(target_parent).len();
            self.raw_insert_focus(target_parent, end, container);
            self.raw_set_parent(container, target_parent);
        }
        let ghost before = old(self)@;
        let ghost shift = before.rank_of(target_parent) + 1;
        let ghost ranks = Seq::new(
            before.nodes.len(),
            |x: int|
                if before.in_subtree(x as ContainerId, container) {
                    before.nodes[x].rank + shift
                } else {
                    before.nodes[x].rank
                },
        );
        let ghost staged = self@;
        self.raw_set_ranks(Ghost(ranks), Ghost(before.max_rank + shift));
        proof {
            let goal = before.moved(container, target_parent, target_index as int);
            assert forall|x: int| 0 <= x < goal.nodes.len() implies self@.nodes[x]
                == goal.nodes[x] by {
                let xu = x as ContainerId;
                assert(self@.node(xu) == (NodeView { rank: ranks[x], ..staged.node(xu) }));
                assert(before.node_wf(xu));
                before.lemma_child_iff_parent(xu, container);
                lemma_without(before.children_of(xu), container);
                lemma_without(before.focus_order_of(xu), container);
                lemma_push_is_insert(before.focus_order_of(xu), container);
            }
            assert(self@.nodes =~= goal.nodes);
            before.lemma_moved_wf(container, target_parent, target_index as int);
        }
        Ok(())
    }

    /// Attaches a new container as a child of `target_parent`, at
    /// `target_index` or, where none is given, behind the last child.
    pub fn attach_container(
        &mut self,
        container: Container,
        target_parent: ContainerId,
        target_index: Option<usize>,
    ) -> (r: Result<ContainerId, WmError>)
        requires
            old(self)@.wf(),
            container.attachable(),
        ensures
            final(self)@.wf(),
            r == old(self)@.attach_result(target_parent, target_index),
            r is Ok ==> final(self)@ == old(self)@.attach(
                container,
                target_parent,
                old(self)@.attach_index(target_parent, target_index),
            ),
            r is Err ==> final(self)@ == old(self)@,
    {
        if !self.contains(target_parent) {
            return Err(WmError::UnknownContainer);
        }
        if self.container(target_parent).is_window() {
            return Err(WmError::WindowHoldsNoChildren);
        }
        let count = self.child_count(target_parent);
        let index = match target_index {
            Some(i) => i,
            None => count,
        };
        if index > count {
            return Err(WmError::IndexOutOfBounds);
        }
        let ghost rank = self@.rank_of(target_parent) + 1;
        let focus_len = self.focus_order(target_parent).len();
        let id = self.raw_push_node(target_parent, container, Ghost(rank));
        self.raw_insert_child(target_parent, index, id);
        self.raw_insert_focus(target_parent, focus_len, id);
        proof {
            lemma_push_is_insert(old(self)@.focus_order_of(target_parent), id);
            assert(self@.nodes =~= old(self)@.attach(container, target_parent, index as int).nodes);
            old(self)@.lemma_attach_wf(container, target_parent, index as int);
        }
        Ok(id)
    }

    /// Makes node `id` be `container`. The node keeps its identifier, its
    /// parent, its position and its children.
    pub fn set_container(&mut self, id: ContainerId, container: Container) -> (r: Result<
        (),
        WmError,
    >)
        requires
            old(self)@.wf(),
            container.attachable(),
        ensures
            final(self)@.wf(),
            r == old(self)@.set_container_result(id, container),
            r is Ok ==> final(self)@ == old(self)@.replace(id, container),
            r is Err ==> final(self)@ == old(self)@,
    {
        if !self.contains(id) {
            return Err(WmError::UnknownContainer);
        }
        if id == ROOT {
            return Err(WmError::NoParent);
        }
        if container.is_window() && self.child_count(id) > 0 {
            return Err(WmError::WindowHoldsNoChildren);
        }
        self.raw_set_container(id, container);
        proof {
            old(self)@.lemma_replace_wf(id, container);
        }
        Ok(())
    }

    /// Puts `replacement` in the place of the child at `target_index` of
    /// `target_parent`. The node keeps its identifier and its place.
    pub fn replace_container(
        &mut self,
        replacement: Container,
        target_parent: ContainerId,
        target_index: usize,
    ) -> (r: Result<ContainerId, WmError>)
        requires
            old(self)@.wf(),
            replacement.attachable(),
        ensures
            final(self)@.wf(),
            r == old(self)@.replace_result(replacement, target_parent, target_index),
            r matches Ok(id) ==> final(self)@ == old(self)@.replace(id, replacement),
            r is Err ==> final(self)@ == old(self)@,
    {
        if !self.contains(target_parent) {
            return Err(WmError::UnknownContainer);
        }
        if target_index >= self.child_count(target_parent) {
            return Err(WmError::IndexOutOfBounds);
        }
        let id = self.children(target_parent)[target_index];
        match self.set_container(id, replacement) {
            Ok(_) => Ok(id),
            Err(e) => Err(e),
        }
    }
}

} // verus!
