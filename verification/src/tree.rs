//! The container tree: one store that owns every node, addressed by
//! identifiers that stay valid for as long as the tree lives.

use vstd::prelude::*;
use crate::container::Container;
use crate::container::ContainerId;

verus! {

/// Identifier of the root container.
pub const ROOT: ContainerId = 0;

/// What the tree records of one node.
pub struct NodeView {
    /// The owning container; nothing for the root alone.
    pub parent: Option<ContainerId>,
    /// The children in layout order.
    pub children: Seq<ContainerId>,
    /// The children again, most recently focused first.
    pub focus_order: Seq<ContainerId>,
    /// What the node is.
    pub container: Container,
    /// A measure that grows from parent to child, so that no chain of
    /// parents can close into a ring.
    pub rank: nat,
}

/// The tree as a mathematical value: its nodes by identifier.
pub struct TreeView {
    pub nodes: Seq<NodeView>,
    /// A bound on every rank.
    pub max_rank: nat,
}

impl TreeView {
    /// The tree that holds the root and nothing else: no parent, no
    /// children, nothing in its focus order.
    pub open spec fn initial() -> TreeView {
        TreeView {
            nodes: seq![
                NodeView {
                    parent: None,
                    children: Seq::empty(),
                    focus_order: Seq::empty(),
                    container: Container::Root,
                    rank: 0,
                },
            ],
            max_rank: 0,
        }
    }

    pub open spec fn contains(self, id: ContainerId) -> bool {
        (id as int) < self.nodes.len()
    }

    pub open spec fn node(self, id: ContainerId) -> NodeView {
        self.nodes[id as int]
    }

    pub open spec fn parent_of(self, id: ContainerId) -> Option<ContainerId> {
        self.node(id).parent
    }

    pub open spec fn children_of(self, id: ContainerId) -> Seq<ContainerId> {
        self.node(id).children
    }

    pub open spec fn focus_order_of(self, id: ContainerId) -> Seq<ContainerId> {
        self.node(id).focus_order
    }

    pub open spec fn container_of(self, id: ContainerId) -> Container {
        self.node(id).container
    }

    pub open spec fn rank_of(self, id: ContainerId) -> nat {
        self.node(id).rank
    }

    /// Position of a container among the children of its parent.
    pub open spec fn index_of(self, id: ContainerId) -> int {
        self.children_of(self.parent_of(id).unwrap()).index_of(id)
    }

    /// The tree with one node replaced.
    pub open spec fn with_node(self, id: ContainerId, node: NodeView) -> TreeView {
        TreeView { nodes: self.nodes.update(id as int, node), max_rank: self.max_rank }
    }

    /// Whether `child` is a container of the tree whose parent is `parent`.
    pub open spec fn is_child_of(self, child: ContainerId, parent: ContainerId) -> bool {
        self.contains(child) && self.parent_of(child) == Some(parent)
    }

    /// What holds of every node of a well-formed tree: parent and children
    /// agree, no child occurs twice, the focus order lists the children and
    /// nothing else, a window has no children, and the rank grows downwards.
    pub open spec fn node_wf(self, id: ContainerId) -> bool {
        let n = self.node(id);
        &&& n.rank <= self.max_rank
        &&& n.container.spec_is_window() ==> n.children.len() == 0 && n.focus_order.len() == 0
        &&& n.children.no_duplicates()
        &&& n.focus_order.no_duplicates()
        &&& forall|i: int|
            0 <= i < n.children.len() ==> self.is_child_of(#[trigger] n.children[i], id)
                && n.focus_order.contains(n.children[i])
        &&& forall|i: int|
            0 <= i < n.focus_order.len() ==> n.children.contains(#[trigger] n.focus_order[i])
        &&& if id == ROOT {
            n.parent is None && n.container is Root
        } else {
            &&& n.container.attachable()
            &&& n.parent matches Some(p)
            &&& self.contains(p)
            &&& self.node(p).children.contains(id)
            &&& self.node(p).rank < n.rank
        }
    }

    /// Well-formedness of the whole tree.
    pub open spec fn wf(self) -> bool {
        &&& self.contains(ROOT)
        &&& self.nodes.len() <= usize::MAX
        &&& forall|id: ContainerId| self.contains(id) ==> #[trigger] self.node_wf(id)
    }
}

impl TreeView {
    /// The focus order of a node lists exactly its children.
    pub proof fn lemma_focus_lists_children(self, x: ContainerId, c: ContainerId)
        requires
            self.contains(x),
            self.node_wf(x),
        ensures
            self.focus_order_of(x).contains(c) <==> self.children_of(x).contains(c),
    {
        let n = self.node(x);
        if n.focus_order.contains(c) {
            let i = choose|i: int| 0 <= i < n.focus_order.len() && n.focus_order[i] == c;
            assert(n.children.contains(n.focus_order[i]));
        }
        if n.children.contains(c) {
            let i = choose|i: int| 0 <= i < n.children.len() && n.children[i] == c;
            assert(n.focus_order.contains(n.children[i]));
        }
    }

    /// A node has fewer children than the tree has nodes.
    pub proof fn lemma_children_bounded(self, x: ContainerId)
        requires
            self.wf(),
            self.contains(x),
        ensures
            self.children_of(x).len() <= self.nodes.len() <= usize::MAX,
    {
        assert(self.node_wf(x));
        let children = self.children_of(x);
        assert forall|i: int| 0 <= i < children.len() implies (#[trigger] children[i])
            < self.nodes.len() by {
            assert(self.is_child_of(children[i], x));
        }
        crate::seq_util::lemma_bounded_len(children, self.nodes.len());
    }

    /// A container stands among the children of its parent and of no
    /// other node.
    pub proof fn lemma_child_iff_parent(self, x: ContainerId, c: ContainerId)
        requires
            self.wf(),
            self.contains(x),
        ensures
            self.children_of(x).contains(c) <==> c != ROOT && self.is_child_of(c, x),
            self.focus_order_of(x).contains(c) <==> c != ROOT && self.is_child_of(c, x),
    {
        let n = self.node(x);
        assert(self.node_wf(x));
        self.lemma_focus_lists_children(x, c);
        if n.children.contains(c) {
            let i = choose|i: int| 0 <= i < n.children.len() && n.children[i] == c;
            assert(self.is_child_of(n.children[i], x));
            assert(self.node_wf(c));
        }
        if c != ROOT && self.is_child_of(c, x) {
            assert(self.node_wf(c));
        }
    }
}

struct Node {
    parent: Option<ContainerId>,
    children: Vec<ContainerId>,
    focus_order: Vec<ContainerId>,
    container: Container,
}

/// The container tree.
pub struct Tree {
    nodes: Vec<Node>,
    rank: Ghost<Seq<nat>>,
    max_rank: Ghost<nat>,
}

impl View for Tree {
    type V = TreeView;

    closed spec fn view(&self) -> TreeView {
        TreeView {
            nodes: Seq::new(
                self.nodes.len() as nat,
                |i: int|
                    NodeView {
                        parent: self.nodes[i].parent,
                        children: self.nodes[i].children@,
                        focus_order: self.nodes[i].focus_order@,
                        container: self.nodes[i].container,
                        rank: if i < self.rank@.len() {
                            self.rank@[i]
                        } else {
                            0
                        },
                    },
            ),
            max_rank: self.max_rank@,
        }
    }
}

impl Tree {
    /// A tree that holds the root and nothing else.
    pub fn new() -> (t: Tree)
        ensures
            t@ == TreeView::initial(),
            t@.wf(),
            t@.nodes.len() == 1,
            t@.children_of(ROOT).len() == 0,
            t@.focus_order_of(ROOT).len() == 0,
    {
        let mut nodes: Vec<Node> = Vec::new();
        nodes.push(
            Node {
                parent: None,
                children: Vec::new(),
                focus_order: Vec::new(),
                container: Container::Root,
            },
        );
        let t = Tree { nodes, rank: Ghost(Seq::empty().push(0nat)), max_rank: Ghost(0nat) };
        proof {
            assert(t@.nodes =~= TreeView::initial().nodes);
            assert(t@.node_wf(ROOT));
        }
        t
    }

    /// Number of containers, the root included.
    pub fn len(&self) -> (n: usize)
        ensures
            n == self@.nodes.len(),
    {
        self.nodes.len()
    }

    pub fn contains(&self, id: ContainerId) -> (r: bool)
        ensures
            r == self@.contains(id),
    {
        id < self.nodes.len()
    }

    pub fn parent(&self, id: ContainerId) -> (r: Option<ContainerId>)
        requires
            self@.contains(id),
        ensures
            r == self@.parent_of(id),
    {
        self.nodes[id].parent
    }

    pub fn container(&self, id: ContainerId) -> (r: Container)
        requires
            self@.contains(id),
        ensures
            r == self@.container_of(id),
    {
        self.nodes[id].container
    }

    pub fn children(&self, id: ContainerId) -> (r: &Vec<ContainerId>)
        requires
            self@.contains(id),
        ensures
            r@ == self@.children_of(id),
    {
        &self.nodes[id].children
    }

    pub fn focus_order(&self, id: ContainerId) -> (r: &Vec<ContainerId>)
        requires
            self@.contains(id),
        ensures
            r@ == self@.focus_order_of(id),
    {
        &self.nodes[id].focus_order
    }

    pub fn child_count(&self, id: ContainerId) -> (n: usize)
        requires
            self@.contains(id),
        ensures
            n == self@.children_of(id).len(),
    {
        self.nodes[id].children.len()
    }

    pub(crate) fn raw_insert_child(&mut self, p: ContainerId, index: usize, c: ContainerId)
        requires
            old(self)@.contains(p),
            index <= old(self)@.children_of(p).len(),
        ensures
            final(self)@ == old(self)@.with_node(
                p,
                NodeView {
                    children: old(self)@.children_of(p).insert(index as int, c),
                    ..old(self)@.node(p)
                },
            ),
    {
        self.nodes[p].children.insert(index, c);
        assert(self@.nodes =~= old(self)@.with_node(
            p,
            NodeView {
                children: old(self)@.children_of(p).insert(index as int, c),
                ..old(self)@.node(p)
            },
        ).nodes);
    }

    pub(crate) fn raw_remove_child(&mut self, p: ContainerId, index: usize)
        requires
            old(self)@.contains(p),
            index < old(self)@.children_of(p).len(),
        ensures
            final(self)@ == old(self)@.with_node(
                p,
                NodeView {
                    children: old(self)@.children_of(p).remove(index as int),
                    ..old(self)@.node(p)
                },
            ),
    {
        self.nodes[p].children.remove(index);
        assert(self@.nodes =~= old(self)@.with_node(
            p,
            NodeView {
                children: old(self)@.children_of(p).remove(index as int),
                ..old(self)@.node(p)
            },
        ).nodes);
    }

    pub(crate) fn raw_insert_focus(&mut self, p: ContainerId, index: usize, c: ContainerId)
        requires
            old(self)@.contains(p),
            index <= old(self)@.focus_order_of(p).len(),
        ensures
            final(self)@ == old(self)@.with_node(
                p,
                NodeView {
                    focus_order: old(self)@.focus_order_of(p).insert(index as int, c),
                    ..old(self)@.node(p)
                },
            ),
    {
        self.nodes[p].focus_order.insert(index, c);
        assert(self@.nodes =~= old(self)@.with_node(
            p,
            NodeView {
                focus_order: old(self)@.focus_order_of(p).insert(index as int, c),
                ..old(self)@.node(p)
            },
        ).nodes);
    }

    pub(crate) fn raw_remove_focus(&mut self, p: ContainerId, index: usize)
        requires
            old(self)@.contains(p),
            index < old(self)@.focus_order_of(p).len(),
        ensures
            final(self)@ == old(self)@.with_node(
                p,
                NodeView {
                    focus_order: old(self)@.focus_order_of(p).remove(index as int),
                    ..old(self)@.node(p)
                },
            ),
    {
        self.nodes[p].focus_order.remove(index);
        assert(self@.nodes =~= old(self)@.with_node(
            p,
            NodeView {
                focus_order: old(self)@.focus_order_of(p).remove(index as int),
                ..old(self)@.node(p)
            },
        ).nodes);
    }

    pub(crate) fn raw_set_parent(&mut self, id: ContainerId, parent: ContainerId)
        requires
            old(self)@.contains(id),
        ensures
            final(self)@ == old(self)@.with_node(
                id,
                NodeView { parent: Some(parent), ..old(self)@.node(id) },
            ),
    {
        self.nodes[id].parent = Some(parent);
        assert(self@.nodes =~= old(self)@.with_node(
            id,
            NodeView { parent: Some(parent), ..old(self)@.node(id) },
        ).nodes);
    }

    pub(crate) fn raw_set_container(&mut self, id: ContainerId, container: Container)
        requires
            old(self)@.contains(id),
        ensures
            final(self)@ == old(self)@.with_node(
                id,
                NodeView { container, ..old(self)@.node(id) },
            ),
    {
        self.nodes[id].container = container;
        assert(self@.nodes =~= old(self)@.with_node(
            id,
            NodeView { container, ..old(self)@.node(id) },
        ).nodes);
    }

    pub(crate) fn raw_push_node(
        &mut self,
        parent: ContainerId,
        container: Container,
        rank: Ghost<nat>,
    ) -> (id: ContainerId)
        ensures
            id == old(self)@.nodes.len(),
            old(self)@.nodes.len() < usize::MAX,
            final(self)@ == (TreeView {
                nodes: old(self)@.nodes.push(
                    NodeView {
                        parent: Some(parent),
                        children: Seq::empty(),
                        focus_order: Seq::empty(),
                        container,
                        rank: rank@,
                    },
                ),
                max_rank: if rank@ > old(self)@.max_rank {
                    rank@
                } else {
                    old(self)@.max_rank
                },
            }),
    {
        let id = self.nodes.len();
        self.nodes.push(
            Node {
                parent: Some(parent),
                children: Vec::new(),
                focus_order: Vec::new(),
                container,
            },
        );
        let count = self.nodes.len();
        assert(count == id + 1);
        proof {
            let before = old(self)@.nodes;
            self.rank@ = Seq::new(
                self.nodes.len() as nat,
                |i: int|
                    if i == id {
                        rank@
                    } else {
                        before[i].rank
                    },
            );
            if rank@ > self.max_rank@ {
                self.max_rank@ = rank@;
            }
        }
        assert(self@.nodes =~= old(self)@.nodes.push(
            NodeView {
                parent: Some(parent),
                children: Seq::empty(),
                focus_order: Seq::empty(),
                container,
                rank: rank@,
            },
        ));
        id
    }

    /// Replaces the ranks, which no executable code reads.
    pub(crate) fn raw_set_ranks(&mut self, ranks: Ghost<Seq<nat>>, max_rank: Ghost<nat>)
        requires
            ranks@.len() == old(self)@.nodes.len(),
        ensures
            final(self)@.max_rank == max_rank@,
            final(self)@.nodes.len() == old(self)@.nodes.len(),
            forall|id: ContainerId|
                old(self)@.contains(id) ==> #[trigger] final(self)@.node(id) == (NodeView {
                    rank: ranks@[id as int],
                    ..old(self)@.node(id)
                }),
    {
        proof {
            self.rank@ = ranks@;
            self.max_rank@ = max_rank@;
        }
    }
}

} // verus!
