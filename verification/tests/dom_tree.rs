use sentinel::dom_node::DomNode;
use sentinel::dom_tree::{parse_attributes, LiveDomTree};

fn make_node(node_id: i64, name: &str, node_type: i32) -> DomNode {
    DomNode {
        node_id,
        parent_id: None,
        backend_node_id: node_id + 1000,
        node_type,
        node_name: name.to_string(),
        local_name: None,
        node_value: String::new(),
        child_node_count: None,
        children: None,
        attributes: None,
        document_url: None,
        base_url: None,
        frame_id: None,
        content_document: None,
        shadow_roots: None,
        pseudo_type: None,
        pseudo_identifier: None,
        distributed_nodes: None,
    }
}

fn make_element(node_id: i64, name: &str) -> DomNode {
    make_node(node_id, name, 1)
}

fn make_text(node_id: i64, value: &str) -> DomNode {
    let mut n = make_node(node_id, "#text", 3);
    n.node_value = value.to_string();
    n
}

fn make_document(node_id: i64) -> DomNode {
    make_node(node_id, "#document", 9)
}

#[test]
fn new_tree_is_empty() {
    let tree = LiveDomTree::new();
    assert_eq!(tree.node_count(), 0);
    assert_eq!(tree.render(), "");
}

#[test]
fn set_root_populates_tree() {
    let mut tree = LiveDomTree::new();
    let mut root = make_document(1);
    root.children = Some(vec![make_element(2, "HTML")]);

    tree.set_root(root);
    assert_eq!(tree.node_count(), 2);
    assert!(tree.get_by_node_id(1).is_some());
    assert!(tree.get_by_node_id(2).is_some());
}

#[test]
fn clear_resets_everything() {
    let mut tree = LiveDomTree::new();
    let mut root = make_document(1);
    root.children = Some(vec![make_element(2, "HTML"), make_element(3, "HEAD")]);
    tree.set_root(root);
    assert_eq!(tree.node_count(), 3);

    tree.clear();
    assert_eq!(tree.node_count(), 0);
    assert!(tree.get_by_node_id(1).is_none());
    assert_eq!(tree.render(), "");
}

#[test]
fn insert_child_at_beginning() {
    let mut tree = LiveDomTree::new();
    let root = make_document(1);
    tree.set_root(root);
    assert_eq!(tree.node_count(), 1);

    tree.insert_child(1, 0, make_element(10, "DIV"));
    assert_eq!(tree.node_count(), 2);

    let parent = tree.get_by_node_id(1).unwrap();
    assert_eq!(parent.children.len(), 1);
}

#[test]
fn insert_child_after_existing() {
    let mut tree = LiveDomTree::new();
    let mut root = make_document(1);
    root.children = Some(vec![make_element(2, "A")]);
    tree.set_root(root);

    tree.insert_child(1, 2, make_element(3, "B"));
    assert_eq!(tree.node_count(), 3);

    let parent = tree.get_by_node_id(1).unwrap();
    assert_eq!(parent.children.len(), 2);
}

#[test]
fn remove_child() {
    let mut tree = LiveDomTree::new();
    let mut root = make_document(1);
    root.children = Some(vec![make_element(2, "DIV"), make_element(3, "SPAN")]);
    tree.set_root(root);
    assert_eq!(tree.node_count(), 3);

    tree.remove_child(1, 2);
    assert_eq!(tree.node_count(), 2);
    assert!(tree.get_by_node_id(2).is_none());

    let parent = tree.get_by_node_id(1).unwrap();
    assert_eq!(parent.children.len(), 1);
}

#[test]
fn remove_child_with_subtree() {
    let mut tree = LiveDomTree::new();
    let mut div = make_element(2, "DIV");
    div.children = Some(vec![make_element(4, "P"), make_text(5, "hello")]);
    let mut root = make_document(1);
    root.children = Some(vec![div, make_element(3, "SPAN")]);
    tree.set_root(root);
    assert_eq!(tree.node_count(), 5);

    tree.remove_child(1, 2);
    assert_eq!(tree.node_count(), 2);
    assert!(tree.get_by_node_id(4).is_none());
    assert!(tree.get_by_node_id(5).is_none());
}

#[test]
fn set_attribute_and_remove_attribute() {
    let mut tree = LiveDomTree::new();
    let mut root = make_document(1);
    root.children = Some(vec![make_element(2, "DIV")]);
    tree.set_root(root);

    tree.set_attribute(2, "class", "container");
    let node = tree.get_by_node_id(2).unwrap();
    assert_eq!(node.attributes.get("class").unwrap(), "container");

    tree.set_attribute(2, "class", "wrapper");
    let node = tree.get_by_node_id(2).unwrap();
    assert_eq!(node.attributes.get("class").unwrap(), "wrapper");

    tree.remove_attribute(2, "class");
    let node = tree.get_by_node_id(2).unwrap();
    assert!(node.attributes.get("class").is_none());
}

#[test]
fn set_character_data() {
    let mut tree = LiveDomTree::new();
    let mut root = make_document(1);
    root.children = Some(vec![make_text(2, "hello")]);
    tree.set_root(root);

    tree.set_character_data(2, "world");
    let node = tree.get_by_node_id(2).unwrap();
    assert_eq!(node.node_value, "world");
}

#[test]
fn node_count_is_accurate() {
    let mut tree = LiveDomTree::new();
    assert_eq!(tree.node_count(), 0);

    tree.set_root(make_document(1));
    assert_eq!(tree.node_count(), 1);

    tree.insert_child(1, 0, make_element(2, "HTML"));
    assert_eq!(tree.node_count(), 2);

    tree.insert_child(2, 0, make_element(3, "BODY"));
    assert_eq!(tree.node_count(), 3);

    tree.remove_child(2, 3);
    assert_eq!(tree.node_count(), 2);
}

#[test]
fn update_child_count() {
    let mut tree = LiveDomTree::new();
    let mut root = make_document(1);
    root.children = Some(vec![make_element(2, "DIV")]);
    tree.set_root(root);

    tree.update_child_count(2, 5);
    let node = tree.get_by_node_id(2).unwrap();
    assert_eq!(node.child_node_count, Some(5));
}

#[test]
fn render_produces_output() {
    let mut tree = LiveDomTree::new();
    let mut html = make_element(2, "HTML");
    let body = make_element(3, "BODY");
    html.children = Some(vec![body]);
    let mut root = make_document(1);
    root.children = Some(vec![html]);
    tree.set_root(root);

    let output = tree.render();
    assert!(output.contains("#document"));
    assert!(output.contains("<html>"));
    assert!(output.contains("<body>"));
}

#[test]
fn set_children_replaces_existing() {
    let mut tree = LiveDomTree::new();
    let mut root = make_document(1);
    root.children = Some(vec![make_element(2, "OLD1"), make_element(3, "OLD2")]);
    tree.set_root(root);
    assert_eq!(tree.node_count(), 3);

    tree.set_children(1, vec![make_element(4, "NEW1")]);
    assert_eq!(tree.node_count(), 2);
    assert!(tree.get_by_node_id(2).is_none());
    assert!(tree.get_by_node_id(3).is_none());
    assert!(tree.get_by_node_id(4).is_some());
}

#[test]
fn operations_on_nonexistent_nodes_are_safe() {
    let mut tree = LiveDomTree::new();
    tree.set_root(make_document(1));

    tree.insert_child(999, 0, make_element(10, "X"));
    tree.remove_child(999, 10);
    tree.set_attribute(999, "a", "b");
    tree.remove_attribute(999, "a");
    tree.set_character_data(999, "text");
    tree.update_child_count(999, 5);

    assert_eq!(tree.node_count(), 1);
}

#[test]
fn parse_attributes_works() {
    let attrs = Some(vec![
        "class".to_string(),
        "foo".to_string(),
        "id".to_string(),
        "bar".to_string(),
    ]);
    let map = parse_attributes(&attrs);
    assert_eq!(map.get("class").unwrap(), "foo");
    assert_eq!(map.get("id").unwrap(), "bar");
    assert_eq!(map.len(), 2);
}

#[test]
fn parse_attributes_none() {
    let map = parse_attributes(&None);
    assert!(map.is_empty());
}

#[test]
fn parse_attributes_odd_length() {
    let attrs = Some(vec![
        "class".to_string(),
        "foo".to_string(),
        "orphan".to_string(),
    ]);
    let map = parse_attributes(&attrs);
    assert_eq!(map.len(), 1);
    assert_eq!(map.get("class").unwrap(), "foo");
}

#[test]
fn render_trims_text_and_lowercases_names() {
    let mut tree = LiveDomTree::new();
    let mut div = make_element(2, "DIV");
    div.attributes = Some(vec!["id".to_string(), "main".to_string()]);
    div.children = Some(vec![make_text(3, "  hi  ")]);
    let mut root = make_document(1);
    root.children = Some(vec![div]);
    tree.set_root(root);
    let output = tree.render();
    assert!(output.contains("  <div>\n"));
    assert!(output.contains("\"hi\""));
}

#[test]
fn reinserted_id_is_found_again() {
    let mut tree = LiveDomTree::new();
    let mut root = make_document(1);
    root.children = Some(vec![make_element(2, "DIV")]);
    tree.set_root(root);
    tree.remove_child(1, 2);
    tree.insert_child(1, 0, make_element(2, "P"));
    assert_eq!(tree.node_count(), 2);
    assert_eq!(tree.get_by_node_id(2).unwrap().node_name, "P");
}

#[test]
fn shadow_roots_and_pseudo_elements_attach_and_detach() {
    let mut tree = LiveDomTree::new();
    let mut root = make_document(1);
    root.children = Some(vec![make_element(2, "DIV")]);
    tree.set_root(root);
    tree.add_shadow_root(2, make_node(7, "#document-fragment", 11));
    tree.add_pseudo_element(2, make_element(8, "::before"));
    assert_eq!(tree.node_count(), 4);
    assert_eq!(tree.get_by_node_id(2).unwrap().shadow_roots.len(), 1);
    assert_eq!(tree.get_by_node_id(2).unwrap().pseudo_elements.len(), 1);
    tree.remove_shadow_root(2, 7);
    tree.remove_pseudo_element(2, 8);
    assert_eq!(tree.node_count(), 2);
    assert!(tree.get_by_node_id(7).is_none());
}

#[test]
fn inserting_a_present_id_replaces_its_subtree() {
    let mut tree = LiveDomTree::new();
    let mut div = make_element(2, "DIV");
    div.children = Some(vec![make_element(3, "SPAN")]);
    let mut root = make_document(1);
    root.children = Some(vec![div]);
    tree.set_root(root);
    assert_eq!(tree.node_count(), 3);
    tree.insert_child(1, 0, make_element(2, "P"));
    assert_eq!(tree.node_count(), 2);
    assert_eq!(tree.get_by_node_id(2).unwrap().node_name, "P");
    assert!(tree.get_by_node_id(3).is_none());
}
