//! The demonstration component: a stateless presentation unit that renders a
//! small, fixed subtree.

use vstd::prelude::*;
use std::rc::Rc;
use crate::node::{
    component_free, component_refs, create_element, create_text, lemma_component_refs_all_push,
    lemma_resolve_concrete_all_push, resolve_concrete, resolve_concrete_all, Component, Node,
    Props,
};
use crate::resolved::ResolvedNode;

verus! {

/// The root component of the demonstration page.
#[derive(Debug, Clone, Copy, PartialEq)]
pub struct App;

/// The resolved subtree `App` renders: a container with a heading and a
/// paragraph.
pub open spec fn app_subtree() -> ResolvedNode {
    ResolvedNode::Element {
        tag: "div"@,
        attrs: seq![("class"@, "app-container"@), ("data-rendered-by"@, "rusty-react"@)],
        children: seq![app_heading(), app_paragraph()],
    }
}

/// The heading inside the subtree `App` renders.
pub open spec fn app_heading() -> ResolvedNode {
    ResolvedNode::Element {
        tag: "h1"@,
        attrs: Seq::empty(),
        children: seq![ResolvedNode::Text { text: "Hello from a Rusty Component!"@ }],
    }
}

/// The paragraph inside the subtree `App` renders.
pub open spec fn app_paragraph() -> ResolvedNode {
    ResolvedNode::Element {
        tag: "p"@,
        attrs: Seq::empty(),
        children: seq![ResolvedNode::Text { text: "This was rendered via a component trait."@ }],
    }
}

impl Component for App {
    open spec fn spec_render(&self) -> ResolvedNode {
        app_subtree()
    }

    fn render(&self) -> (node: Node<Self>) {
        proof {
            assert("h1"@.len() == 2) by {
                reveal_strlit("h1");
            }
            assert("p"@.len() == 1) by {
                reveal_strlit("p");
            }
            assert("div"@.len() == 3) by {
                reveal_strlit("div");
            }
        }
        let text_h1 = create_text("Hello from a Rusty Component!".to_owned());
        let ghost g_text_h1 = text_h1;
        let mut h1_children: Vec<Node<App>> = Vec::new();
        h1_children.push(text_h1);
        let ghost g_h1_children = h1_children@;
        let h1 = create_element("h1".to_owned(), Props::new(), h1_children);
        let ghost g_h1 = h1;

        let text_p = create_text("This was rendered via a component trait.".to_owned());
        let ghost g_text_p = text_p;
        let mut p_children: Vec<Node<App>> = Vec::new();
        p_children.push(text_p);
        let ghost g_p_children = p_children@;
        let p = create_element("p".to_owned(), Props::new(), p_children);
        let ghost g_p = p;

        let mut props = Props::new();
        props.insert("class".to_owned(), "app-container".to_owned());
        proof {
            assert("class"@.len() == 5) by {
                reveal_strlit("class");
            }
            assert("data-rendered-by"@.len() == 16) by {
                reveal_strlit("data-rendered-by");
            }
            assert("class"@ != "data-rendered-by"@);
        }
        props.insert("data-rendered-by".to_owned(), "rusty-react".to_owned());
        let ghost g_props = props@;

        let mut children: Vec<Node<App>> = Vec::new();
        children.push(h1);
        children.push(p);
        let ghost g_children = children@;
        let node = create_element("div".to_owned(), props, children);

        proof {
            // The tree is component-free.
            assert(g_h1_children =~= Seq::<Node<App>>::empty().push(g_text_h1));
            assert(g_p_children =~= Seq::<Node<App>>::empty().push(g_text_p));
            lemma_component_refs_all_push(Seq::empty(), g_text_h1);
            lemma_component_refs_all_push(Seq::empty(), g_text_p);
            assert(component_refs(g_h1) == 0);
            assert(component_refs(g_p) == 0);
            assert(g_children =~= Seq::<Node<App>>::empty().push(g_h1).push(g_p));
            lemma_component_refs_all_push(Seq::empty(), g_h1);
            lemma_component_refs_all_push(Seq::<Node<App>>::empty().push(g_h1), g_p);
            assert(component_free(&node));

            // The tree resolves exactly to the specified subtree.
            lemma_resolve_concrete_all_push(Seq::empty(), g_text_h1);
            lemma_resolve_concrete_all_push(Seq::empty(), g_text_p);
            assert(resolve_concrete_all(g_h1_children) =~= seq![
                ResolvedNode::Text { text: "Hello from a Rusty Component!"@ },
            ]);
            assert(resolve_concrete_all(g_p_children) =~= seq![
                ResolvedNode::Text { text: "This was rendered via a component trait."@ },
            ]);
            assert(resolve_concrete(g_h1) == app_heading());
            assert(resolve_concrete(g_p) == app_paragraph());
            lemma_resolve_concrete_all_push(Seq::empty(), g_h1);
            lemma_resolve_concrete_all_push(Seq::<Node<App>>::empty().push(g_h1), g_p);
            assert(resolve_concrete_all(g_children) =~= seq![app_heading(), app_paragraph()]);
            assert(g_props =~= seq![
                ("class"@, "app-container"@),
                ("data-rendered-by"@, "rusty-react"@),
            ]);
            assert(resolve_concrete(node) == app_subtree());
        }
        node
    }

    fn clone_rc(&self) -> (handle: Rc<Self>) {
        Rc::new(*self)
    }
}

} // verus!
