//! A minimal virtual-DOM library: an in-memory tree of markup (elements,
//! text, component references), a component abstraction for producing such
//! trees polymorphically, and two renderers — one serializing a tree to an
//! HTML string, one planning the DOM operations that materialize a tree
//! under a mount point.

pub mod components;
pub mod dom;
pub mod laws;
pub mod node;
pub mod resolved;
pub mod string_render;

pub use components::App;
pub use dom::plan_mount;
pub use dom::render_node_to_dom_ops;
pub use dom::DomOp;
pub use dom::RenderError;
pub use node::Component;
pub use node::Element;
pub use node::Node;
pub use node::Props;
pub use node::VComponent;
pub use node::create_component_ref;
pub use node::create_element;
pub use node::create_text;
pub use resolved::ResolvedNode;
pub use string_render::render_node_to_string;
