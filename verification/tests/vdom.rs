use std::rc::Rc;

use rusty_react::dom::{plan_mount, render_node_to_dom_ops, DomOp, RenderError};
use rusty_react::node::{create_component_ref, create_element, create_text};
use rusty_react::string_render::render_node_to_string;
use rusty_react::{App, Component, Node, Props, VComponent};

#[test]
fn test_app_component_creation() {
    let app_component = App;
    let vdom_node = app_component.render();

    if let Node::Element(e) = vdom_node {
        assert_eq!(e.tag_name, "div");
        assert_eq!(e.props.get("class").unwrap(), "app-container");
        assert_eq!(e.children.len(), 2);
    } else {
        panic!("Root node rendered by App should be an Element");
    }
}

#[test]
fn test_render_to_string_with_component() {
    let vdom = Node::Component(VComponent(Rc::new(App)));

    let html_string = render_node_to_string(&vdom);

    let expected_html = r#"<div class="app-container" data-rendered-by="rusty-react"><h1>Hello from a Rusty Component!</h1><p>This was rendered via a component trait.</p></div>"#;
    let expected_html_alt = r#"<div data-rendered-by="rusty-react" class="app-container"><h1>Hello from a Rusty Component!</h1><p>This was rendered via a component trait.</p></div>"#;

    assert!(
        html_string == expected_html || html_string == expected_html_alt,
        "Rendered HTML string did not match expected output."
    );
}

fn sample_element() -> Node<App> {
    let mut props = Props::new();
    props.insert("class".to_string(), "greeting".to_string());
    let children = vec![create_text("hi".to_string())];
    create_element("span".to_string(), props, children)
}

#[test]
fn construction_is_idempotent() {
    assert!(sample_element() == sample_element());
    assert!(create_text::<App>("hi".to_string()) == create_text::<App>("hi".to_string()));
    let shared = Rc::new(App);
    let first = create_component_ref(VComponent(shared.clone()));
    let second = create_component_ref(VComponent(shared.clone()));
    assert!(first == second);
}

#[test]
fn props_insert_replaces_existing_key() {
    let mut props = Props::new();
    props.insert("class".to_string(), "old".to_string());
    props.insert("id".to_string(), "x".to_string());
    props.insert("class".to_string(), "new".to_string());
    assert_eq!(props.len(), 2);
    assert_eq!(props.get("class").unwrap(), "new");
    assert_eq!(props.get("id").unwrap(), "x");
    assert_eq!(props.key_at(0), "class");
    assert!(props.get("missing").is_none());
}

#[test]
fn string_render_is_pure() {
    let tree = Node::Component(VComponent(Rc::new(App)));
    let first = render_node_to_string(&tree);
    let second = render_node_to_string(&tree);
    assert_eq!(first, second);
}

#[test]
fn string_render_of_sample_element() {
    let rendered = render_node_to_string(&sample_element());
    assert_eq!(rendered, r#"<span class="greeting">hi</span>"#);
}

#[test]
fn tree_shape_is_preserved() {
    // The resolved App tree holds five element/text nodes: div, h1, its
    // text, p, its text. A component reference adds no created node.
    let tree = Node::Component(VComponent(Rc::new(App)));
    let ops = render_node_to_dom_ops(&tree);
    let created = ops
        .iter()
        .filter(|op| {
            matches!(op, DomOp::OpenElement { .. }) || matches!(op, DomOp::AppendText { .. })
        })
        .count();
    assert_eq!(created, 5);
}

#[test]
fn attributes_appear_verbatim_after_open() {
    let tree = Node::Component(VComponent(Rc::new(App)));
    let ops = render_node_to_dom_ops(&tree);
    assert!(matches!(&ops[0], DomOp::OpenElement { tag } if tag == "div"));
    assert!(
        ops[1]
            == DomOp::SetAttribute {
                key: "class".to_string(),
                value: "app-container".to_string(),
            }
    );
    assert!(
        ops[2]
            == DomOp::SetAttribute {
                key: "data-rendered-by".to_string(),
                value: "rusty-react".to_string(),
            }
    );
}

#[test]
fn component_reference_renders_like_its_subtree() {
    let by_reference = Node::Component(VComponent(Rc::new(App)));
    let inline = App.render();
    assert_eq!(
        render_node_to_string(&by_reference),
        render_node_to_string(&inline)
    );
    assert!(render_node_to_dom_ops(&by_reference) == render_node_to_dom_ops(&inline));
}

#[test]
fn mount_plan_materializes_the_scenario_tree() {
    let tree = Node::Component(VComponent(Rc::new(App)));
    let ops = match plan_mount(&tree, true) {
        Ok(ops) => ops,
        Err(_) => panic!("a found mount point must yield a plan"),
    };
    let expected = vec![
        DomOp::OpenElement { tag: "div".to_string() },
        DomOp::SetAttribute { key: "class".to_string(), value: "app-container".to_string() },
        DomOp::SetAttribute {
            key: "data-rendered-by".to_string(),
            value: "rusty-react".to_string(),
        },
        DomOp::OpenElement { tag: "h1".to_string() },
        DomOp::AppendText { text: "Hello from a Rusty Component!".to_string() },
        DomOp::CloseElement,
        DomOp::OpenElement { tag: "p".to_string() },
        DomOp::AppendText { text: "This was rendered via a component trait.".to_string() },
        DomOp::CloseElement,
        DomOp::CloseElement,
    ];
    assert!(ops == expected);
}

#[test]
fn missing_mount_point_plans_nothing() {
    let tree = Node::Component(VComponent(Rc::new(App)));
    match plan_mount(&tree, false) {
        Ok(_) => panic!("a missing mount point must not yield a plan"),
        Err(err) => assert!(err == RenderError::MountPointNotFound),
    }
}

#[test]
fn cloned_tree_renders_identically() {
    let tree = create_element(
        "section".to_string(),
        Props::new(),
        vec![
            sample_element(),
            Node::Component(VComponent(Rc::new(App))),
        ],
    );
    let cloned = tree.clone();
    assert!(cloned == tree);
    assert_eq!(render_node_to_string(&cloned), render_node_to_string(&tree));
}

#[test]
fn cloned_handle_renders_the_same_subtree() {
    let handle = VComponent(Rc::new(App));
    let cloned = handle.clone();
    let first = render_node_to_string(&Node::Component(handle));
    let second = render_node_to_string(&Node::Component(cloned));
    assert_eq!(first, second);
}
