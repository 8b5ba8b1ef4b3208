//! The DOM renderer's verified half: it flattens a tree into the exact
//! sequence of document operations that materializes the tree under a mount
//! point. Carrying the operations out against a live document is left to the
//! thin host layer around this library, which walks the sequence with a
//! stack of open elements and stops at the first host failure.

use vstd::prelude::*;
use crate::node::{
    component_refs, lemma_component_refs_all_bound, lemma_resolve_all_index,
    lemma_resolve_concrete, lemma_size_all_bound, resolve_all, size, Component, Node,
};
use crate::resolved::{count_all, ResolvedNode};

verus! {

/// One step of materializing a tree into a live document. Steps are emitted
/// depth-first: an element is opened (created and appended to the enclosing
/// parent), given its attributes, filled with its children, then closed.
#[derive(Debug, PartialEq)]
pub enum DomOp {
    OpenElement { tag: String },
    SetAttribute { key: String, value: String },
    AppendText { text: String },
    CloseElement,
}

/// The mathematical form of a document operation.
pub enum DomOpSpec {
    OpenElement { tag: Seq<char> },
    SetAttribute { key: Seq<char>, value: Seq<char> },
    AppendText { text: Seq<char> },
    CloseElement,
}

impl View for DomOp {
    type V = DomOpSpec;

    open spec fn view(&self) -> DomOpSpec {
        match self {
            DomOp::OpenElement { tag } => DomOpSpec::OpenElement { tag: tag@ },
            DomOp::SetAttribute { key, value } => DomOpSpec::SetAttribute {
                key: key@,
                value: value@,
            },
            DomOp::AppendText { text } => DomOpSpec::AppendText { text: text@ },
            DomOp::CloseElement => DomOpSpec::CloseElement,
        }
    }
}

impl DeepView for DomOp {
    type V = DomOpSpec;

    open spec fn deep_view(&self) -> DomOpSpec {
        self.view()
    }
}

/// The attribute-setting steps for an attribute list, in order.
pub open spec fn attr_ops(attrs: Seq<(Seq<char>, Seq<char>)>) -> Seq<DomOpSpec> {
    Seq::new(attrs.len(), |i: int| DomOpSpec::SetAttribute { key: attrs[i].0, value: attrs[i].1 })
}

/// The document operations that materialize a resolved tree.
pub open spec fn dom_ops(node: ResolvedNode) -> Seq<DomOpSpec>
    decreases node,
{
    match node {
        ResolvedNode::Text { text } => seq![DomOpSpec::AppendText { text }],
        ResolvedNode::Element { tag, attrs, children } => seq![DomOpSpec::OpenElement { tag }]
            + attr_ops(attrs) + children_dom_ops(children) + seq![DomOpSpec::CloseElement],
    }
}

/// The document operations that materialize a forest, tree by tree.
pub open spec fn children_dom_ops(children: Seq<ResolvedNode>) -> Seq<DomOpSpec>
    decreases children,
{
    if children.len() == 0 {
        Seq::empty()
    } else {
        children_dom_ops(children.drop_last()) + dom_ops(children.last())
    }
}

/// Extending a forest appends that tree's operations.
pub proof fn lemma_children_dom_ops_snoc(children: Seq<ResolvedNode>, i: int)
    requires
        0 <= i < children.len(),
    ensures
        children_dom_ops(children.take(i + 1)) == children_dom_ops(children.take(i)) + dom_ops(
            children[i],
        ),
{
    assert(children.take(i + 1).drop_last() =~= children.take(i));
    assert(children.take(i + 1).last() == children[i]);
}

/// How mounting a tree can fail.
#[derive(Debug, Clone, Copy, PartialEq, Eq, Structural)]
pub enum RenderError {
    /// The supplied identifier names no element in the host document.
    MountPointNotFound,
    /// The host document refused a create, append or set-attribute
    /// operation.
    DocumentOperationFailed,
}

/// Appending an operation appends its mathematical form.
pub proof fn lemma_ops_deep_view_push(pre: Vec<DomOp>, post: Vec<DomOp>, op: DomOp)
    requires
        post@ == pre@.push(op),
    ensures
        post.deep_view() == pre.deep_view().push(op@),
{
    assert(post.deep_view() =~= pre.deep_view().push(op@));
}

/// Append the operations materializing one tree.
fn push_node_ops<C: Component>(v_node: &Node<C>, ops: &mut Vec<DomOp>)
    ensures
        final(ops).deep_view() == old(ops).deep_view() + dom_ops(v_node@),
    decreases component_refs(*v_node), size(*v_node),
{
    match v_node {
        Node::Text(text) => {
            let ghost pre = *ops;
            let op = DomOp::AppendText { text: text.clone() };
            let ghost g_op = op;
            ops.push(op);
            proof {
                lemma_ops_deep_view_push(pre, *ops, g_op);
                assert(final(ops).deep_view() =~= old(ops).deep_view() + dom_ops(v_node@));
            }
        },
        Node::Element(element) => {
            let ghost attrs = element.props@;
            let ghost children = resolve_all(element.children@);
            let ghost at_entry = ops.deep_view();
            let ghost pre_open = *ops;
            let open_op = DomOp::OpenElement { tag: element.tag_name.clone() };
            let ghost g_open_op = open_op;
            ops.push(open_op);
            proof {
                lemma_ops_deep_view_push(pre_open, *ops, g_open_op);
            }
            let n_attrs = element.props.len();
            let mut i: usize = 0;
            while i < n_attrs
                invariant
                    n_attrs == attrs.len(),
                    i <= n_attrs,
                    attrs == element.props@,
                    ops.deep_view() =~= at_entry + seq![
                        DomOpSpec::OpenElement { tag: element.tag_name@ },
                    ] + attr_ops(attrs).take(i as int),
                decreases n_attrs - i,
            {
                let ghost pre = *ops;
                let op = DomOp::SetAttribute {
                    key: element.props.key_at(i).clone(),
                    value: element.props.value_at(i).clone(),
                };
                let ghost g_op = op;
                ops.push(op);
                proof {
                    lemma_ops_deep_view_push(pre, *ops, g_op);
                    assert(ops.deep_view() =~= at_entry + seq![
                        DomOpSpec::OpenElement { tag: element.tag_name@ },
                    ] + attr_ops(attrs).take(i as int + 1));
                }
                i += 1;
            }
            proof {
                assert(attr_ops(attrs).take(n_attrs as int) =~= attr_ops(attrs));
            }
            let n_children = element.children.len();
            let mut j: usize = 0;
            while j < n_children
                invariant
                    *v_node == Node::Element(*element),
                    n_children == element.children@.len(),
                    j <= n_children,
                    children == resolve_all(element.children@),
                    ops.deep_view() =~= at_entry + seq![
                        DomOpSpec::OpenElement { tag: element.tag_name@ },
                    ] + attr_ops(element.props@) + children_dom_ops(children.take(j as int)),
                decreases n_children - j,
            {
                proof {
                    lemma_component_refs_all_bound(element.children@, j as int);
                    lemma_size_all_bound(element.children@, j as int);
                }
                push_node_ops(&element.children[j], ops);
                proof {
                    lemma_resolve_all_index(element.children@);
                    lemma_children_dom_ops_snoc(children, j as int);
                    assert(ops.deep_view() =~= at_entry + seq![
                        DomOpSpec::OpenElement { tag: element.tag_name@ },
                    ] + attr_ops(element.props@) + children_dom_ops(children.take(j as int + 1)));
                }
                j += 1;
            }
            let ghost pre_close = *ops;
            ops.push(DomOp::CloseElement);
            proof {
                lemma_ops_deep_view_push(pre_close, *ops, DomOp::CloseElement);
                lemma_resolve_all_index(element.children@);
                assert(children.take(n_children as int) =~= children);
                assert(final(ops).deep_view() =~= old(ops).deep_view() + dom_ops(v_node@));
            }
        },
        Node::Component(component) => {
            let rendered_node = component.0.render();
            proof {
                lemma_resolve_concrete(rendered_node);
            }
            push_node_ops(&rendered_node, ops);
        },
    }
}

/// Flatten a tree into the operations that materialize it. The sequence is a
/// pure function of the tree's resolved form; flattening cannot fail.
pub fn render_node_to_dom_ops<C: Component>(v_node: &Node<C>) -> (ops: Vec<DomOp>)
    ensures
        ops.deep_view() == dom_ops(v_node@),
{
    let mut ops: Vec<DomOp> = Vec::new();
    proof {
        assert(ops.deep_view() =~= Seq::<DomOpSpec>::empty());
    }
    push_node_ops(v_node, &mut ops);
    proof {
        assert(ops.deep_view() =~= dom_ops(v_node@));
    }
    ops
}

/// Decide a mount. When the mount point was found, the plan is exactly the
/// operation sequence for the tree, to be applied after clearing the mount
/// point's content; when it was not, the mount fails with
/// `MountPointNotFound` and plans no operation at all, so nothing may touch
/// the document.
pub fn plan_mount<C: Component>(v_node: &Node<C>, mount_point_found: bool) -> (plan: Result<
    Vec<DomOp>,
    RenderError,
>)
    ensures
        mount_point_found ==> (plan matches Ok(ops) && ops.deep_view() == dom_ops(v_node@)),
        !mount_point_found ==> plan == Err::<Vec<DomOp>, RenderError>(
            RenderError::MountPointNotFound,
        ),
{
    if mount_point_found {
        Ok(render_node_to_dom_ops(v_node))
    } else {
        Err(RenderError::MountPointNotFound)
    }
}

/// Number of DOM nodes the operations create: one per opened element and one
/// per appended text node.
pub open spec fn created_count(ops: Seq<DomOpSpec>) -> nat
    decreases ops.len(),
{
    if ops.len() == 0 {
        0
    } else {
        created_count(ops.drop_last()) + match ops.last() {
            DomOpSpec::OpenElement { .. } => 1nat,
            DomOpSpec::AppendText { .. } => 1nat,
            _ => 0nat,
        }
    }
}

/// Creation counts add over concatenation.
pub proof fn lemma_created_count_concat(left: Seq<DomOpSpec>, right: Seq<DomOpSpec>)
    ensures
        created_count(left + right) == created_count(left) + created_count(right),
    decreases right.len(),
{
    if right.len() == 0 {
        assert(left + right =~= left);
    } else {
        assert((left + right).drop_last() =~= left + right.drop_last());
        assert((left + right).last() == right.last());
        lemma_created_count_concat(left, right.drop_last());
    }
}

/// Attribute-setting steps create no node.
pub proof fn lemma_attr_ops_create_nothing(attrs: Seq<(Seq<char>, Seq<char>)>)
    ensures
        created_count(attr_ops(attrs)) == 0,
    decreases attrs.len(),
{
    if attrs.len() > 0 {
        assert(attr_ops(attrs).drop_last() =~= attr_ops(attrs.drop_last()));
        lemma_attr_ops_create_nothing(attrs.drop_last());
    }
}

/// Tree shape is preserved: materializing a resolved tree creates exactly
/// one DOM node per element or text node it holds — component references
/// having already resolved to no extra node at all.
pub proof fn lemma_tree_shape_preserved(node: ResolvedNode)
    ensures
        created_count(dom_ops(node)) == node.count(),
    decreases node,
{
    match node {
        ResolvedNode::Text { text } => {
            assert(created_count(Seq::<DomOpSpec>::empty()) == 0);
            assert(dom_ops(node).drop_last() =~= Seq::<DomOpSpec>::empty());
            assert(dom_ops(node).last() == (DomOpSpec::AppendText { text }));
            assert(created_count(dom_ops(node)) == 1);
            assert(node.count() == 1);
        },
        ResolvedNode::Element { tag, attrs, children } => {
            let open = seq![DomOpSpec::OpenElement { tag }];
            let close = seq![DomOpSpec::CloseElement];
            lemma_forest_shape_preserved(children);
            lemma_attr_ops_create_nothing(attrs);
            lemma_created_count_concat(open, attr_ops(attrs));
            lemma_created_count_concat(open + attr_ops(attrs), children_dom_ops(children));
            lemma_created_count_concat(
                open + attr_ops(attrs) + children_dom_ops(children),
                close,
            );
            assert(created_count(Seq::<DomOpSpec>::empty()) == 0);
            assert(open.drop_last() =~= Seq::<DomOpSpec>::empty());
            assert(close.drop_last() =~= Seq::<DomOpSpec>::empty());
            assert(created_count(open) == 1);
            assert(created_count(close) == 0);
            assert(dom_ops(node) == open + attr_ops(attrs) + children_dom_ops(children) + close);
            assert(created_count(dom_ops(node)) == 1 + count_all(children));
            assert(node.count() == 1 + count_all(children));
        },
    }
}

/// Tree shape is preserved across a forest.
pub proof fn lemma_forest_shape_preserved(children: Seq<ResolvedNode>)
    ensures
        created_count(children_dom_ops(children)) == count_all(children),
    decreases children,
{
    if children.len() > 0 {
        lemma_forest_shape_preserved(children.drop_last());
        lemma_tree_shape_preserved(children.last());
        lemma_created_count_concat(
            children_dom_ops(children.drop_last()),
            dom_ops(children.last()),
        );
    }
}

/// Attribute fidelity: each key/value pair of an element stands verbatim as
/// one attribute-setting step, right after the step that opens the element.
pub proof fn lemma_attribute_fidelity(
    tag: Seq<char>,
    attrs: Seq<(Seq<char>, Seq<char>)>,
    children: Seq<ResolvedNode>,
    i: int,
)
    requires
        0 <= i < attrs.len(),
    ensures
        dom_ops(ResolvedNode::Element { tag, attrs, children })[1 + i]
            == (DomOpSpec::SetAttribute { key: attrs[i].0, value: attrs[i].1 }),
{
    let open = seq![DomOpSpec::OpenElement { tag }];
    assert((open + attr_ops(attrs))[1 + i] == attr_ops(attrs)[i]);
    assert((open + attr_ops(attrs) + children_dom_ops(children))[1 + i] == attr_ops(attrs)[i]);
}

} // verus!
