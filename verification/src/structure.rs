use vstd::prelude::*;

verus! {

broadcast use vstd::std_specs::vec::group_vec_axioms;

/// The parsed structure tree of a tagged document: semantic markup, when
/// the document carries it.
#[derive(Debug)]
pub struct StructureTree {
    pub root: Option<StructureNode>,
}

/// One node of the structure tree: its element type, its children, the
/// page it belongs to, and the content identifiers it marks.
#[derive(Debug)]
pub struct StructureNode {
    pub struct_type: String,
    pub children: Vec<StructureNode>,
    pub page: Option<usize>,
    pub content_ids: Vec<u32>,
}

impl StructureNode {
    /// The number of nodes in this subtree.
    pub open spec fn spec_size(self) -> nat
        decreases self,
    {
        1 + spec_children_size(self.children@)
    }

    /// Count the nodes of this subtree, saturating at the integer limit.
    pub fn size(&self) -> (r: usize)
        ensures
            r >= 1,
            r as int <= self.spec_size(),
        decreases *self,
    {
        let mut total: usize = 1;
        let mut i: usize = 0;
        while i < self.children.len()
            invariant
                0 <= i <= self.children@.len(),
                1 <= total,
                total as int <= 1 + spec_children_size(self.children@.take(i as int)),
            decreases self.children@.len() - i,
        {
            let ghost pre = total as int;
            let c = self.children[i].size();
            if c <= usize::MAX - total {
                total = total + c;
            }
            proof {
                assert(self.children@.take(i as int + 1).drop_last()
                    =~= self.children@.take(i as int));
                assert(self.children@.take(i as int + 1).last() == self.children@[i as int]);
                lemma_children_size_push(self.children@.take(i as int), self.children@[i as int]);
            }
            i += 1;
        }
        proof {
            assert(self.children@.take(self.children@.len() as int) =~= self.children@);
        }
        total
    }
}

/// The total size of a run of sibling subtrees.
pub open spec fn spec_children_size(cs: Seq<StructureNode>) -> nat
    decreases cs,
{
    if cs.len() == 0 {
        0
    } else {
        cs.last().spec_size() + spec_children_size(cs.drop_last())
    }
}

proof fn lemma_children_size_push(cs: Seq<StructureNode>, n: StructureNode)
    ensures
        spec_children_size(cs.push(n)) == spec_children_size(cs) + n.spec_size(),
{
    assert(cs.push(n).drop_last() =~= cs);
    assert(cs.push(n).last() == n);
}

impl StructureTree {
    /// The number of nodes in the whole tree.
    pub fn size(&self) -> (r: usize)
        ensures
            ({
                match self.root {
                    Some(root) => r >= 1,
                    None => r == 0,
                }
            }),
    {
        match &self.root {
            Some(root) => root.size(),
            None => 0,
        }
    }
}

} // verus!
