//! The string renderer: pure serialization of a tree to markup text, for
//! deterministic, headless verification of what a tree renders to.

use vstd::prelude::*;
use vstd::string::StringExecFns;
use crate::node::{
    component_refs, lemma_component_refs_all_bound, lemma_resolve_all_index,
    lemma_resolve_concrete, lemma_size_all_bound, resolve_all, size, Component, Node,
};
use crate::resolved::ResolvedNode;

verus! {

/// Markup of one attribute: one space, the key, `="`, the value, `"`.
pub open spec fn attr_markup(attr: (Seq<char>, Seq<char>)) -> Seq<char> {
    " "@ + attr.0 + "=\""@ + attr.1 + "\""@
}

/// Markup of an attribute list, in order.
pub open spec fn attrs_markup(attrs: Seq<(Seq<char>, Seq<char>)>) -> Seq<char>
    decreases attrs.len(),
{
    if attrs.len() == 0 {
        Seq::empty()
    } else {
        attrs_markup(attrs.drop_last()) + attr_markup(attrs.last())
    }
}

/// Markup of a resolved tree: text verbatim (no escaping), an element as its
/// open tag with attributes, its children's markup in order, and its close
/// tag.
pub open spec fn markup(node: ResolvedNode) -> Seq<char>
    decreases node,
{
    match node {
        ResolvedNode::Text { text } => text,
        ResolvedNode::Element { tag, attrs, children } => "<"@ + tag + attrs_markup(attrs) + ">"@
            + children_markup(children) + "</"@ + tag + ">"@,
    }
}

/// Concatenated markup of a forest of resolved trees.
pub open spec fn children_markup(children: Seq<ResolvedNode>) -> Seq<char>
    decreases children,
{
    if children.len() == 0 {
        Seq::empty()
    } else {
        children_markup(children.drop_last()) + markup(children.last())
    }
}

/// Extending an attribute list appends that attribute's markup.
pub proof fn lemma_attrs_markup_snoc(attrs: Seq<(Seq<char>, Seq<char>)>, i: int)
    requires
        0 <= i < attrs.len(),
    ensures
        attrs_markup(attrs.take(i + 1)) == attrs_markup(attrs.take(i)) + attr_markup(attrs[i]),
{
    assert(attrs.take(i + 1).drop_last() =~= attrs.take(i));
    assert(attrs.take(i + 1).last() == attrs[i]);
}

/// Extending a forest appends that tree's markup.
pub proof fn lemma_children_markup_snoc(children: Seq<ResolvedNode>, i: int)
    requires
        0 <= i < children.len(),
    ensures
        children_markup(children.take(i + 1)) == children_markup(children.take(i)) + markup(
            children[i],
        ),
{
    assert(children.take(i + 1).drop_last() =~= children.take(i));
    assert(children.take(i + 1).last() == children[i]);
}

/// Render a tree to its markup string. Pure: the result is a function of the
/// tree's resolved form alone, and rendering cannot fail.
pub fn render_node_to_string<C: Component>(v_node: &Node<C>) -> (rendered: String)
    ensures
        rendered@ == markup(v_node@),
    decreases component_refs(*v_node), size(*v_node),
{
    match v_node {
        Node::Text(text) => text.clone(),
        Node::Element(element) => {
            let ghost attrs = element.props@;
            let ghost children = resolve_all(element.children@);
            let mut out = String::new();
            out.append("<");
            out.append(element.tag_name.as_str());
            let n_attrs = element.props.len();
            let mut i: usize = 0;
            while i < n_attrs
                invariant
                    n_attrs == attrs.len(),
                    i <= n_attrs,
                    attrs == element.props@,
                    out@ == "<"@ + element.tag_name@ + attrs_markup(attrs.take(i as int)),
                decreases n_attrs - i,
            {
                out.append(" ");
                out.append(element.props.key_at(i).as_str());
                out.append("=\"");
                out.append(element.props.value_at(i).as_str());
                out.append("\"");
                proof {
                    lemma_attrs_markup_snoc(attrs, i as int);
                    assert(out@ =~= "<"@ + element.tag_name@ + attrs_markup(
                        attrs.take(i as int + 1),
                    ));
                }
                i += 1;
            }
            proof {
                assert(attrs.take(n_attrs as int) =~= attrs);
            }
            out.append(">");
            let n_children = element.children.len();
            let mut j: usize = 0;
            while j < n_children
                invariant
                    *v_node == Node::Element(*element),
                    n_children == element.children@.len(),
                    j <= n_children,
                    children == resolve_all(element.children@),
                    out@ == "<"@ + element.tag_name@ + attrs_markup(element.props@) + ">"@
                        + children_markup(children.take(j as int)),
                decreases n_children - j,
            {
                proof {
                    lemma_component_refs_all_bound(element.children@, j as int);
                    lemma_size_all_bound(element.children@, j as int);
                }
                let child_rendered = render_node_to_string(&element.children[j]);
                out.append(child_rendered.as_str());
                proof {
                    lemma_resolve_all_index(element.children@);
                    lemma_children_markup_snoc(children, j as int);
                    assert(out@ =~= "<"@ + element.tag_name@ + attrs_markup(element.props@) + ">"@
                        + children_markup(children.take(j as int + 1)));
                }
                j += 1;
            }
            proof {
                lemma_resolve_all_index(element.children@);
                assert(children.take(n_children as int) =~= children);
            }
            out.append("</");
            out.append(element.tag_name.as_str());
            out.append(">");
            proof {
                assert(out@ =~= markup(v_node@));
            }
            out
        },
        Node::Component(component) => {
            let rendered_node = component.0.render();
            proof {
                lemma_resolve_concrete(rendered_node);
            }
            render_node_to_string(&rendered_node)
        },
    }
}

/// String rendering is deterministic: renderings of trees with the same
/// resolved form are the same text, character for character.
pub proof fn lemma_string_render_deterministic(
    resolved_form: ResolvedNode,
    first: Seq<char>,
    second: Seq<char>,
)
    requires
        first == markup(resolved_form),
        second == markup(resolved_form),
    ensures
        first == second,
{
}

} // verus!
