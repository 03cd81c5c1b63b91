//! An arena tree: nodes live in one vector and refer to each other by index.

use vstd::prelude::*;

verus! {

/// One node of a [`Tree`]: a value, the index of its parent and the indices of
/// its children, in the order in which they were attached.
pub struct Node<T> {
    idx: usize,
    value: T,
    parent: Option<usize>,
    children: Vec<usize>,
}

impl<T> Node<T> {
    /// The index under which the node is stored.
    pub closed spec fn index(&self) -> usize {
        self.idx
    }

    /// The value carried by the node.
    pub closed spec fn payload(&self) -> T {
        self.value
    }

    /// The index of the parent, if the node has one.
    pub closed spec fn parent_index(&self) -> Option<usize> {
        self.parent
    }

    /// The indices of the children, oldest first.
    pub closed spec fn child_indices(&self) -> Seq<usize> {
        self.children@
    }

    /// A detached node: no parent and no children.
    pub fn new(idx: usize, val: T) -> (node: Self)
        ensures
            node.index() == idx,
            node.payload() == val,
            node.parent_index().is_none(),
            node.child_indices() == Seq::<usize>::empty(),
    {
        Self { idx, value: val, parent: None, children: Vec::new() }
    }

    pub fn idx(&self) -> (i: usize)
        ensures
            i == self.index(),
    {
        self.idx
    }

    pub fn value(&self) -> (v: &T)
        ensures
            *v == self.payload(),
    {
        &self.value
    }

    pub fn parent(&self) -> (p: Option<usize>)
        ensures
            p == self.parent_index(),
    {
        self.parent
    }

    pub fn children(&self) -> (c: &Vec<usize>)
        ensures
            c@ == self.child_indices(),
    {
        &self.children
    }

    /// Appends `child` to the node's children and changes nothing else.
    fn attach(&mut self, child: usize)
        ensures
            final(self).index() == old(self).index(),
            final(self).payload() == old(self).payload(),
            final(self).parent_index() == old(self).parent_index(),
            final(self).child_indices() == old(self).child_indices().push(child),
    {
        self.children.push(child);
    }

    /// Records `parent` as the node's parent and changes nothing else.
    fn adopt(&mut self, parent: usize)
        ensures
            final(self).index() == old(self).index(),
            final(self).payload() == old(self).payload(),
            final(self).parent_index() == Some(parent),
            final(self).child_indices() == old(self).child_indices(),
    {
        self.parent = Some(parent);
    }
}

/// A forest held in one arena. Every node is stored at its own index, parents
/// come before their children, and the parent and child links mirror each
/// other.
pub struct Tree<T> {
    pub all_nodes: Vec<Node<T>>,
}

impl<T> Default for Tree<T> {
    /// An empty arena.
    fn default() -> (tree: Self)
        ensures
            tree.wf(),
            tree.all_nodes@.len() == 0,
    {
        Tree { all_nodes: Vec::new() }
    }
}

impl<T> Tree<T> {
    /// The structural invariant of the arena.
    pub open spec fn wf(&self) -> bool {
        &&& forall|i: int|
            0 <= i < self.all_nodes@.len() ==> (#[trigger] self.all_nodes@[i]).index() == i
        &&& forall|i: int|
            0 <= i < self.all_nodes@.len() ==> match (#[trigger] self.all_nodes@[i]).parent_index() {
                Some(p) => p < i && self.all_nodes@[p as int].child_indices().contains(i as usize),
                None => true,
            }
        &&& forall|i: int, k: int|
            0 <= i < self.all_nodes@.len() && 0 <= k < self.all_nodes@[i].child_indices().len() ==> {
                let c = #[trigger] self.all_nodes@[i].child_indices()[k];
                i < c < self.all_nodes@.len() && self.all_nodes@[c as int].parent_index() == Some(
                    i as usize,
                )
            }
    }

    /// An empty arena.
    pub fn new() -> (tree: Self)
        ensures
            tree.wf(),
            tree.all_nodes@.len() == 0,
    {
        Tree { all_nodes: Vec::new() }
    }

    /// Stores `val` in a new detached node and returns its index, which is the
    /// number of nodes stored before the call.
    pub fn node(&mut self, val: T) -> (idx: usize)
        requires
            old(self).wf(),
        ensures
            final(self).wf(),
            idx == old(self).all_nodes@.len(),
            final(self).all_nodes@.len() == old(self).all_nodes@.len() + 1,
            final(self).all_nodes@.subrange(0, idx as int) == old(self).all_nodes@,
            final(self).all_nodes@[idx as int].index() == idx,
            final(self).all_nodes@[idx as int].payload() == val,
            final(self).all_nodes@[idx as int].parent_index().is_none(),
            final(self).all_nodes@[idx as int].child_indices() == Seq::<usize>::empty(),
    {
        let idx: usize = self.all_nodes.len();
        self.all_nodes.push(Node::new(idx, val));
        assert(self.all_nodes@.subrange(0, idx as int) == old(self).all_nodes@);
        idx
    }

    /// Stores `child` in a new node and attaches it as the last child of
    /// `parent`, which must already be in the arena. Every other node is left
    /// as it was.
    pub fn add_child(&mut self, parent: usize, child: T)
        requires
            old(self).wf(),
            parent < old(self).all_nodes@.len(),
        ensures
            final(self).wf(),
            final(self).all_nodes@.len() == old(self).all_nodes@.len() + 1,
            forall|i: int|
                0 <= i < old(self).all_nodes@.len() && i != parent ==> final(self).all_nodes@[i]
                    == old(self).all_nodes@[i],
            final(self).all_nodes@[parent as int].index() == parent,
            final(self).all_nodes@[parent as int].payload() == old(self).all_nodes@[parent as int].payload(),
            final(self).all_nodes@[parent as int].parent_index() == old(self).all_nodes@[parent as int].parent_index(),
            final(self).all_nodes@[parent as int].child_indices() == old(self).all_nodes@[parent as int].child_indices().push(
                old(self).all_nodes@.len() as usize,
            ),
            final(self).all_nodes@.last().index() == old(self).all_nodes@.len(),
            final(self).all_nodes@.last().payload() == child,
            final(self).all_nodes@.last().parent_index() == Some(parent),
            final(self).all_nodes@.last().child_indices() == Seq::<usize>::empty(),
    {
        let child_node: usize = self.node(child);
        let ghost mid = self.all_nodes@;
        self.all_nodes[parent].attach(child_node);
        self.all_nodes[child_node].adopt(parent);
        proof {
            let before = old(self).all_nodes@;
            let now = self.all_nodes@;
            let grown = now[parent as int].child_indices();
            assert(grown.last() == child_node);
            assert forall|i: int| 0 <= i < now.len() implies match (#[trigger] now[i]).parent_index() {
                Some(p) => p < i && now[p as int].child_indices().contains(i as usize),
                None => true,
            } by {
                if i == child_node {
                    assert(grown[grown.len() - 1] == child_node);
                } else if let Some(p) = now[i].parent_index() {
                    assert(mid[i] == before[i]);
                    let k = choose|k: int|
                        0 <= k < before[p as int].child_indices().len()
                            && before[p as int].child_indices()[k] == i as usize;
                    assert(now[p as int].child_indices()[k] == i as usize);
                }
            }
            assert forall|i: int, k: int|
                0 <= i < now.len() && 0 <= k < now[i].child_indices().len() implies {
                let c = #[trigger] now[i].child_indices()[k];
                i < c < now.len() && now[c as int].parent_index() == Some(i as usize)
            } by {
                if i < before.len() {
                    assert(mid[i] == before[i]);
                    if !(i == parent && k == grown.len() - 1) {
                        let c = before[i].child_indices()[k];
                        assert(i < c < before.len());
                        assert(mid[c as int] == before[c as int]);
                    }
                }
            }
        }
    }
}

} // verus!
