use vstd::prelude::*;

use crate::dom::Dom;

verus! {

/// A breadth-first walk over a tree, one node per step, from a root onwards.
///
/// The walk keeps the nodes still to visit: each step takes the first of
/// them and puts its children, in order, at the back.
pub struct Traverse {
    pending: Vec<usize>,
}

impl Traverse {
    /// The nodes still to visit, first to last.
    pub closed spec fn pending(&self) -> Seq<usize> {
        self.pending@
    }

    /// Every pending node is in the tree.
    pub open spec fn valid_for(&self, dom: &Dom) -> bool {
        forall|k: int| 0 <= k < self.pending().len() ==> #[trigger] self.pending()[k] < dom.len()
    }

    /// A walk that starts at `node`.
    pub fn new(node: usize) -> (r: Traverse)
        ensures
            r.pending() == seq![node],
    {
        let mut pending: Vec<usize> = Vec::new();
        pending.push(node);
        proof {
            assert(pending@ =~= seq![node]);
        }
        Traverse { pending }
    }

    /// The next node of the walk, or `None` when every node has been visited.
    pub fn next(&mut self, dom: &Dom) -> (r: Option<usize>)
        requires
            dom.wf(),
            old(self).valid_for(dom),
        ensures
            final(self).valid_for(dom),
            old(self).pending().len() == 0 ==> r is None && final(self).pending() == old(self).pending(),
            old(self).pending().len() > 0 ==> r == Some(old(self).pending()[0])
                && final(self).pending() == old(self).pending().drop_first()
                + dom.children(old(self).pending()[0] as int),
    {
        if self.pending.len() == 0 {
            return None;
        }
        let node = self.pending.remove(0);
        let kids = &dom.node(node).children;
        let mut i: usize = 0;
        while i < kids.len()
            invariant
                0 <= i <= kids@.len(),
                kids@ == dom.children(node as int),
                node < dom.len(),
                dom.wf(),
                self.pending@ == old(self).pending().drop_first() + kids@.subrange(0, i as int),
                forall|k: int| 0 <= k < self.pending@.len() ==> #[trigger] self.pending@[k] < dom.len(),
            decreases kids@.len() - i,
        {
            self.pending.push(kids[i]);
            proof {
                assert(kids@.subrange(0, i + 1) =~= kids@.subrange(0, i as int).push(kids@[i as int]));
            }
            i = i + 1;
        }
        proof {
            assert(kids@.subrange(0, kids@.len() as int) =~= kids@);
        }
        Some(node)
    }
}

} // verus!
