//! The virtual-DOM node model: the tagged tree type (element / text /
//! component reference), the element record with its attribute map, and the
//! component capability with its shared-ownership handle.

use vstd::prelude::*;
use std::rc::Rc;
use crate::resolved::ResolvedNode;

verus! {

/// Attribute map of an element: string keys mapped to string values.
/// Keys are unique and insertion order is kept, so serialization is
/// deterministic.
#[derive(Debug, PartialEq)]
pub struct Props {
    entries: Vec<(String, String)>,
}

impl View for Props {
    type V = Seq<(Seq<char>, Seq<char>)>;

    closed spec fn view(&self) -> Seq<(Seq<char>, Seq<char>)> {
        Seq::new(self.entries@.len(), |i: int| (self.entries@[i].0@, self.entries@[i].1@))
    }
}

impl Props {
    /// Keys are pairwise distinct.
    pub open spec fn keys_unique(self) -> bool {
        forall|i: int, j: int| 0 <= i < j < self@.len() ==> self@[i].0 != self@[j].0
    }

    /// Whether some entry has the given key.
    pub open spec fn spec_contains_key(self, key: Seq<char>) -> bool {
        exists|i: int| 0 <= i < self@.len() && self@[i].0 == key
    }

    /// Invariant of every attribute map this module hands out.
    #[verifier::type_invariant]
    pub open spec fn wf(self) -> bool {
        self.keys_unique()
    }

    /// An empty attribute map.
    pub fn new() -> (props: Props)
        ensures
            props@ == Seq::<(Seq<char>, Seq<char>)>::empty(),
    {
        let props = Props { entries: Vec::new() };
        proof {
            assert(props@ =~= Seq::<(Seq<char>, Seq<char>)>::empty());
        }
        props
    }

    pub fn len(&self) -> (n: usize)
        ensures
            n == self@.len(),
    {
        self.entries.len()
    }

    pub fn key_at(&self, i: usize) -> (key: &String)
        requires
            i < self@.len(),
        ensures
            key@ == self@[i as int].0,
    {
        &self.entries[i].0
    }

    pub fn value_at(&self, i: usize) -> (value: &String)
        requires
            i < self@.len(),
        ensures
            value@ == self@[i as int].1,
    {
        &self.entries[i].1
    }

    /// Insert a key/value pair. A fresh key is appended; an existing key
    /// keeps its position and gets the new value.
    pub fn insert(&mut self, key: String, value: String)
        ensures
            old(self).spec_contains_key(key@) ==> exists|i: int|
                0 <= i < old(self)@.len() && old(self)@[i].0 == key@ && final(self)@ == old(
                    self,
                )@.update(i, (key@, value@)),
            !old(self).spec_contains_key(key@) ==> final(self)@ == old(self)@.push(
                (key@, value@),
            ),
    {
        proof {
            use_type_invariant(&*self);
        }
        let mut entries = self.clone().entries;
        let n = entries.len();
        let mut i: usize = 0;
        while i < n
            invariant
                n == entries@.len(),
                i <= n,
                old(self).keys_unique(),
                old(self)@.len() == entries@.len(),
                forall|j: int|
                    0 <= j < entries@.len() ==> (entries@[j].0@, entries@[j].1@) == old(self)@[j],
                forall|j: int| 0 <= j < i ==> old(self)@[j].0 != key@,
            decreases n - i,
        {
            if entries[i].0 == key {
                entries.set(i, (key, value));
                proof {
                    let probe = Props { entries: entries };
                    assert(probe@ =~= old(self)@.update(i as int, (key@, value@)));
                    assert(old(self)@[i as int].0 == key@);
                    assert(old(self).spec_contains_key(key@));
                    assert(probe.wf());
                }
                *self = Props { entries };
                return ;
            }
            i += 1;
        }
        entries.push((key, value));
        proof {
            let probe = Props { entries: entries };
            assert(probe@ =~= old(self)@.push((key@, value@)));
            assert(!old(self).spec_contains_key(key@));
            assert(probe.wf());
        }
        *self = Props { entries };
    }

    /// Look a key up; `None` exactly when no entry has it.
    pub fn get(&self, key: &str) -> (result: Option<&String>)
        ensures
            result is Some <==> self.spec_contains_key(key@),
            result matches Some(value) ==> exists|i: int|
                0 <= i < self@.len() && self@[i] == (key@, value@),
    {
        let owned = key.to_owned();
        let n = self.entries.len();
        let mut i: usize = 0;
        while i < n
            invariant
                n == self@.len(),
                i <= n,
                owned@ == key@,
                forall|j: int| 0 <= j < i ==> self@[j].0 != key@,
            decreases n - i,
        {
            if self.entries[i].0 == owned {
                proof {
                    assert(self@[i as int].0 == key@);
                    assert(self.spec_contains_key(key@));
                }
                return Some(&self.entries[i].1);
            }
            i += 1;
        }
        None
    }
}

impl Clone for Props {
    fn clone(&self) -> (cloned: Self)
        ensures
            cloned@ == self@,
    {
        proof {
            use_type_invariant(self);
        }
        let n = self.entries.len();
        let mut entries: Vec<(String, String)> = Vec::new();
        let mut i: usize = 0;
        while i < n
            invariant
                n == self.entries@.len(),
                i <= n,
                entries@.len() == i,
                forall|j: int|
                    0 <= j < i ==> entries@[j].0@ == self.entries@[j].0@ && entries@[j].1@
                        == self.entries@[j].1@,
            decreases n - i,
        {
            entries.push((self.entries[i].0.clone(), self.entries[i].1.clone()));
            i += 1;
        }
        proof {
            let probe = Props { entries: entries };
            assert(probe@ =~= self@);
            assert(probe.wf());
        }
        Props { entries }
    }
}

/// An element of the tree: a tag with attributes and ordered children.
#[derive(Debug, PartialEq)]
pub struct Element<C> {
    pub tag_name: String,
    pub props: Props,
    pub children: Vec<Node<C>>,
}

/// The newtype around a shared handle to a component, so that the tree can
/// hold heterogeneous renderable units and clone them cheaply.
#[derive(Debug, PartialEq)]
pub struct VComponent<C>(pub Rc<C>);

/// A node of the virtual-DOM tree.
#[derive(Debug, PartialEq)]
pub enum Node<C> {
    Element(Element<C>),
    Text(String),
    Component(VComponent<C>),
}

/// The resolved form of a tree that is already free of component
/// references. (On a component reference, which such a tree never holds, it
/// falls back to empty text.)
pub open spec fn resolve_concrete<C>(node: Node<C>) -> ResolvedNode
    decreases node,
{
    match node {
        Node::Text(text) => ResolvedNode::Text { text: text@ },
        Node::Element(element) => ResolvedNode::Element {
            tag: element.tag_name@,
            attrs: element.props@,
            children: resolve_concrete_all(element.children@),
        },
        Node::Component(_) => ResolvedNode::Text { text: Seq::empty() },
    }
}

/// The resolved forms of a forest of component-free trees.
pub open spec fn resolve_concrete_all<C>(nodes: Seq<Node<C>>) -> Seq<ResolvedNode>
    decreases nodes,
{
    if nodes.len() == 0 {
        Seq::empty()
    } else {
        resolve_concrete_all(nodes.drop_last()).push(resolve_concrete(nodes.last()))
    }
}

/// The capability every renderable unit offers: produce a subtree, and
/// clone itself into a fresh shared handle.
pub trait Component: Sized {
    /// The resolved subtree this component renders, as a mathematical value.
    spec fn spec_render(&self) -> ResolvedNode;

    /// Produce the component's subtree. The result must be fully resolved
    /// (free of component references), which is what bounds render
    /// recursion: nothing else would keep a component from rendering a
    /// reference back to itself.
    fn render(&self) -> (node: Node<Self>)
        ensures
            component_free(&node),
            resolve_concrete(node) == self.spec_render(),
    ;

    /// Clone this component into a fresh shared handle that renders the
    /// same subtree.
    fn clone_rc(&self) -> (handle: Rc<Self>)
        ensures
            (*handle).spec_render() == self.spec_render(),
    ;
}

/// Number of component references in a tree.
pub open spec fn component_refs<C>(node: Node<C>) -> nat
    decreases node,
{
    match node {
        Node::Text(_) => 0,
        Node::Component(_) => 1,
        Node::Element(element) => component_refs_all(element.children@),
    }
}

/// Number of component references in a forest.
pub open spec fn component_refs_all<C>(nodes: Seq<Node<C>>) -> nat
    decreases nodes,
{
    if nodes.len() == 0 {
        0
    } else {
        component_refs_all(nodes.drop_last()) + component_refs(nodes.last())
    }
}

/// A tree without component references.
pub open spec fn component_free<C>(node: &Node<C>) -> bool {
    component_refs(*node) == 0
}

/// Number of nodes in a tree, a measure for the renderers' recursion.
pub open spec fn size<C>(node: Node<C>) -> nat
    decreases node,
{
    match node {
        Node::Text(_) => 1,
        Node::Component(_) => 1,
        Node::Element(element) => 1 + size_all(element.children@),
    }
}

/// Number of nodes in a forest.
pub open spec fn size_all<C>(nodes: Seq<Node<C>>) -> nat
    decreases nodes,
{
    if nodes.len() == 0 {
        0
    } else {
        size_all(nodes.drop_last()) + size(nodes.last())
    }
}

/// A forest is at least as large as any one of its trees.
pub proof fn lemma_size_all_bound<C>(nodes: Seq<Node<C>>, i: int)
    requires
        0 <= i < nodes.len(),
    ensures
        size(nodes[i]) <= size_all(nodes),
    decreases nodes.len(),
{
    if i == nodes.len() - 1 {
        assert(nodes.last() == nodes[i]);
    } else {
        lemma_size_all_bound(nodes.drop_last(), i);
        assert(nodes.drop_last()[i] == nodes[i]);
    }
}

/// Appending a tree to a forest adds its component references.
pub proof fn lemma_component_refs_all_push<C>(nodes: Seq<Node<C>>, node: Node<C>)
    ensures
        component_refs_all(nodes.push(node)) == component_refs_all(nodes) + component_refs(node),
{
    assert(nodes.push(node).drop_last() =~= nodes);
    assert(nodes.push(node).last() == node);
}

/// What a tree stands for: its resolved form, with every component
/// reference replaced by the subtree its component renders.
pub open spec fn resolve<C: Component>(node: Node<C>) -> ResolvedNode
    decreases node,
{
    match node {
        Node::Text(text) => ResolvedNode::Text { text: text@ },
        Node::Element(element) => ResolvedNode::Element {
            tag: element.tag_name@,
            attrs: element.props@,
            children: resolve_all(element.children@),
        },
        Node::Component(handle) => handle.0.spec_render(),
    }
}

/// The resolved forms of a forest of trees.
pub open spec fn resolve_all<C: Component>(nodes: Seq<Node<C>>) -> Seq<ResolvedNode>
    decreases nodes,
{
    if nodes.len() == 0 {
        Seq::empty()
    } else {
        resolve_all(nodes.drop_last()).push(resolve(nodes.last()))
    }
}

/// Appending a component-free tree to a forest appends its structural
/// resolution.
pub proof fn lemma_resolve_concrete_all_push<C>(nodes: Seq<Node<C>>, node: Node<C>)
    ensures
        resolve_concrete_all(nodes.push(node)) == resolve_concrete_all(nodes).push(
            resolve_concrete(node),
        ),
{
    assert(nodes.push(node).drop_last() =~= nodes);
    assert(nodes.push(node).last() == node);
}

/// Appending a tree to a forest appends its resolution.
pub proof fn lemma_resolve_all_push<C: Component>(nodes: Seq<Node<C>>, node: Node<C>)
    ensures
        resolve_all(nodes.push(node)) == resolve_all(nodes).push(resolve(node)),
{
    assert(nodes.push(node).drop_last() =~= nodes);
    assert(nodes.push(node).last() == node);
}

/// Resolving a forest resolves each tree in place.
pub proof fn lemma_resolve_all_index<C: Component>(nodes: Seq<Node<C>>)
    ensures
        resolve_all(nodes).len() == nodes.len(),
        forall|i: int| 0 <= i < nodes.len() ==> resolve_all(nodes)[i] == resolve(nodes[i]),
    decreases nodes.len(),
{
    if nodes.len() > 0 {
        lemma_resolve_all_index(nodes.drop_last());
        assert(forall|i: int|
            0 <= i < nodes.len() - 1 ==> nodes.drop_last()[i] == nodes[i] && resolve_all(
                nodes,
            )[i] == resolve_all(nodes.drop_last())[i]);
        assert(nodes.last() == nodes[nodes.len() - 1]);
    }
}

/// A tree holds at least as many component references as any one of its
/// children.
pub proof fn lemma_component_refs_all_bound<C>(nodes: Seq<Node<C>>, i: int)
    requires
        0 <= i < nodes.len(),
    ensures
        component_refs(nodes[i]) <= component_refs_all(nodes),
    decreases nodes.len(),
{
    if i == nodes.len() - 1 {
        assert(nodes.last() == nodes[i]);
    } else {
        lemma_component_refs_all_bound(nodes.drop_last(), i);
        assert(nodes.drop_last()[i] == nodes[i]);
    }
}

/// On component-free trees, resolution is purely structural.
pub proof fn lemma_resolve_concrete<C: Component>(node: Node<C>)
    requires
        component_free(&node),
    ensures
        resolve(node) == resolve_concrete(node),
    decreases node,
{
    match node {
        Node::Element(element) => {
            lemma_resolve_concrete_all(element.children@);
        },
        _ => {},
    }
}

/// On forests of component-free trees, resolution is purely structural.
pub proof fn lemma_resolve_concrete_all<C: Component>(nodes: Seq<Node<C>>)
    requires
        component_refs_all(nodes) == 0,
    ensures
        resolve_all(nodes) == resolve_concrete_all(nodes),
    decreases nodes,
{
    if nodes.len() > 0 {
        lemma_resolve_concrete_all(nodes.drop_last());
        lemma_resolve_concrete(nodes.last());
    }
}

impl<C: Component> View for Node<C> {
    type V = ResolvedNode;

    open spec fn view(&self) -> ResolvedNode {
        resolve(*self)
    }
}

impl<C: Component> View for VComponent<C> {
    type V = ResolvedNode;

    open spec fn view(&self) -> ResolvedNode {
        self.0.spec_render()
    }
}

impl<C: Component> Clone for VComponent<C> {
    /// Cloning the handle goes through the component's own clone operation,
    /// so the concrete component type decides between aliasing and copying;
    /// either way the clone renders the same subtree.
    fn clone(&self) -> (cloned: Self)
        ensures
            cloned@ == self@,
    {
        VComponent(self.0.clone_rc())
    }
}

/// Clone a tree, preserving what it resolves to.
fn clone_node<C: Component>(v_node: &Node<C>) -> (cloned: Node<C>)
    ensures
        cloned@ == v_node@,
    decreases size(*v_node),
{
    match v_node {
        Node::Text(text) => Node::Text(text.clone()),
        Node::Component(handle) => Node::Component(handle.clone()),
        Node::Element(element) => {
            let n = element.children.len();
            let mut children: Vec<Node<C>> = Vec::new();
            let mut i: usize = 0;
            while i < n
                invariant
                    *v_node == Node::Element(*element),
                    n == element.children@.len(),
                    i <= n,
                    resolve_all(children@) == resolve_all(element.children@.take(i as int)),
                decreases n - i,
            {
                proof {
                    lemma_size_all_bound(element.children@, i as int);
                }
                let child = clone_node(&element.children[i]);
                let ghost children_before = children@;
                let ghost g_child = child;
                children.push(child);
                proof {
                    lemma_resolve_all_push(children_before, g_child);
                    assert(element.children@.take(i as int + 1).drop_last() =~= element.children@.take(
                        i as int,
                    ));
                    assert(element.children@.take(i as int + 1).last() == element.children@[i as int]);
                    lemma_resolve_all_push(
                        element.children@.take(i as int),
                        element.children@[i as int],
                    );
                    assert(element.children@.take(i as int) =~= element.children@.take(
                        i as int + 1,
                    ).drop_last());
                    assert(element.children@.take(i as int).push(element.children@[i as int])
                        =~= element.children@.take(i as int + 1));
                }
                i += 1;
            }
            proof {
                assert(element.children@.take(n as int) =~= element.children@);
            }
            Node::Element(
                Element {
                    tag_name: element.tag_name.clone(),
                    props: element.props.clone(),
                    children,
                },
            )
        },
    }
}

impl<C: Component> Clone for Node<C> {
    /// Cloning a tree preserves what it resolves to; a component reference
    /// is cloned through its component's own clone operation.
    fn clone(&self) -> (cloned: Self)
        ensures
            cloned@ == self@,
    {
        clone_node(self)
    }
}

/// Construct an element node. The tag name must be non-empty; it is not
/// validated any further. Construction cannot fail and the result is fully
/// determined by the arguments.
pub fn create_element<C>(tag_name: String, props: Props, children: Vec<Node<C>>) -> (node: Node<C>)
    requires
        tag_name@.len() != 0,
    ensures
        node == (Node::Element(Element { tag_name, props, children })),
{
    Node::Element(Element { tag_name, props, children })
}

/// Construct a text node; always a leaf.
pub fn create_text<C>(text: String) -> (node: Node<C>)
    ensures
        node == Node::<C>::Text(text),
{
    Node::Text(text)
}

/// Construct a component-reference node around an existing handle. The
/// component is not rendered here; it is resolved by the renderers.
pub fn create_component_ref<C>(handle: VComponent<C>) -> (node: Node<C>)
    ensures
        node == Node::Component(handle),
{
    Node::Component(handle)
}

} // verus!
