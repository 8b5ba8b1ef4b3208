//! Laws that hold across the library's operations, stated and proved once so
//! every caller can rely on them.

use vstd::prelude::*;
use crate::dom::dom_ops;
use crate::node::{Component, Element, Node, Props, VComponent};
use crate::string_render::markup;

verus! {

/// Element construction is deterministic: two nodes built by
/// `create_element` from identical arguments are structurally equal.
pub proof fn lemma_create_element_deterministic<C>(
    first: Node<C>,
    second: Node<C>,
    tag_name: String,
    props: Props,
    children: Vec<Node<C>>,
)
    requires
        first == (Node::Element(Element { tag_name: tag_name, props: props, children: children })),
        second == (Node::Element(Element { tag_name: tag_name, props: props, children: children })),
    ensures
        first == second,
{
}

/// Text construction is deterministic: two nodes built by `create_text` from
/// identical arguments are structurally equal.
pub proof fn lemma_create_text_deterministic<C>(first: Node<C>, second: Node<C>, text: String)
    requires
        first == Node::<C>::Text(text),
        second == Node::<C>::Text(text),
    ensures
        first == second,
{
}

/// Component-reference construction is deterministic: two nodes built by
/// `create_component_ref` around identical handles are structurally equal.
pub proof fn lemma_create_component_ref_deterministic<C>(
    first: Node<C>,
    second: Node<C>,
    handle: VComponent<C>,
)
    requires
        first == Node::Component(handle),
        second == Node::Component(handle),
    ensures
        first == second,
{
}

/// Component resolution is transparent: a component-reference node has
/// exactly the resolved form of any subtree that resolves as its component
/// renders — in particular of the tree `render()` returns — so each renderer
/// gives it the very markup, and the very document operations, it would give
/// that subtree standing inline in its place.
pub proof fn lemma_component_resolution_transparent<C: Component>(
    handle: VComponent<C>,
    inline: Node<C>,
)
    requires
        inline@ == handle@,
    ensures
        (Node::Component(handle))@ == inline@,
        markup((Node::Component(handle))@) == markup(inline@),
        dom_ops((Node::Component(handle))@) == dom_ops(inline@),
{
}

} // verus!
