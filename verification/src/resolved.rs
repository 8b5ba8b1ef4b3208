//! The resolved, target-independent form of a tree: every component
//! reference replaced by the subtree its component renders. Both renderers
//! are specified as pure functions of this form.

use vstd::prelude::*;

verus! {

/// A fully resolved markup tree: only elements and text remain.
pub enum ResolvedNode {
    Element { tag: Seq<char>, attrs: Seq<(Seq<char>, Seq<char>)>, children: Seq<ResolvedNode> },
    Text { text: Seq<char> },
}

impl ResolvedNode {
    /// Number of element and text nodes reachable in this resolved tree.
    pub open spec fn count(self) -> nat
        decreases self,
    {
        match self {
            ResolvedNode::Text { .. } => 1,
            ResolvedNode::Element { children, .. } => 1 + count_all(children),
        }
    }
}

/// Total number of element and text nodes in a forest of resolved trees.
pub open spec fn count_all(nodes: Seq<ResolvedNode>) -> nat
    decreases nodes,
{
    if nodes.len() == 0 {
        0
    } else {
        count_all(nodes.drop_last()) + nodes.last().count()
    }
}

} // verus!
