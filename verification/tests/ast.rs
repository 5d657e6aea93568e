use rstu::ast::{AstNode, AttributeType, NodeClass};

fn section_with_marker(section_marker: &str) -> AstNode {
    let mut section = AstNode::new_ref(NodeClass::Section);
    section.with_attr("section_marker", AttributeType::from_str(section_marker));
    section
}

#[test]
fn push_child_sets_parent_and_appends_child() {
    let mut parent = AstNode::new_ref(NodeClass::Document);
    let child = AstNode::new_ref(NodeClass::Paragraph);

    AstNode::push_child(&mut parent, child);

    assert_eq!(parent.children.len(), 1);
    assert_eq!(parent.children[0].class, NodeClass::Paragraph);
}

#[test]
fn push_body_element_attaches_to_section() {
    let mut section = AstNode::new_ref(NodeClass::Section);
    let comment = AstNode::new_ref(NodeClass::Comment);

    let current = AstNode::push_body_element(&mut section, &[], comment);

    assert_eq!(current, vec![0]);
    assert_eq!(section.children.len(), 1);
    assert_eq!(section.children[0].class, NodeClass::Comment);
}

#[test]
fn push_body_element_falls_back_to_parent() {
    let mut document = AstNode::new_ref(NodeClass::Document);
    let current = AstNode::new_ref(NodeClass::Comment);
    AstNode::push_child(&mut document, current);

    let body = AstNode::new_ref(NodeClass::Directive);
    let path = AstNode::push_body_element(&mut document, &[0], body);

    assert_eq!(document.children.len(), 2);
    assert_eq!(document.children[1].class, NodeClass::Directive);
    assert_eq!(path, vec![1]);
}

#[test]
fn push_section_with_same_marker_pushes_to_parent_of_self() {
    let mut tree = AstNode::new_ref(NodeClass::Document);
    let current = section_with_marker("#");
    AstNode::push_child(&mut tree, current);

    let section = section_with_marker("#");
    AstNode::push_section_ref(&mut tree, &[0], section);

    assert_eq!(tree.children.len(), 2);
    assert_eq!(tree.children[1].class, NodeClass::Section);
}

#[test]
fn closest_ancestor_section_matches_requested_marker() {
    let mut document = AstNode::new_ref(NodeClass::Document);
    let mut outer = section_with_marker("#");
    let mut inner = section_with_marker("~");
    let paragraph = AstNode::new_ref(NodeClass::Paragraph);
    AstNode::push_child(&mut inner, paragraph);
    AstNode::push_child(&mut outer, inner);
    AstNode::push_child(&mut document, outer);

    let closest = AstNode::closest_ancestor_section(&document, &[0, 0, 0], Some("#")).unwrap();
    assert_eq!(closest, vec![0]);
}

#[test]
fn closest_ancestor_section_without_marker_finds_the_nearest_section() {
    let mut document = AstNode::new_ref(NodeClass::Document);
    let mut outer = section_with_marker("#");
    let mut inner = section_with_marker("~");
    AstNode::push_child(&mut inner, AstNode::new_ref(NodeClass::Paragraph));
    AstNode::push_child(&mut outer, inner);
    AstNode::push_child(&mut document, outer);

    assert_eq!(AstNode::closest_ancestor_section(&document, &[0, 0, 0], None), Some(vec![0, 0]));
    assert_eq!(AstNode::closest_ancestor_section(&document, &[0, 0, 0], Some("=")), None);
}

#[test]
fn a_section_with_a_new_marker_nests_under_the_current_section() {
    let mut tree = AstNode::new_ref(NodeClass::Document);
    AstNode::push_child(&mut tree, section_with_marker("#"));

    let path = AstNode::push_section_ref(&mut tree, &[0], section_with_marker("~"));

    assert_eq!(path, vec![0, 0]);
    assert_eq!(tree.children.len(), 1);
    assert_eq!(tree.children[0].children.len(), 1);
}

#[test]
fn a_section_with_an_outer_marker_becomes_the_outer_sections_sibling() {
    let mut tree = AstNode::new_ref(NodeClass::Document);
    AstNode::push_child(&mut tree, section_with_marker("#"));
    AstNode::push_section_ref(&mut tree, &[0], section_with_marker("~"));

    let path = AstNode::push_section_ref(&mut tree, &[0, 0], section_with_marker("#"));

    assert_eq!(path, vec![1]);
    assert_eq!(tree.children.len(), 2);
}

#[test]
fn attributes_keep_the_last_value_written() {
    let mut node = AstNode::new_ref(NodeClass::Paragraph);
    node.with_attr("k", AttributeType::Usize(1));
    node.with_attr("k", AttributeType::from_str("v"));

    assert_eq!(node.attributes.len(), 1);
    assert_eq!(node.attributes.get("k").and_then(|v| v.as_str()), Some("v"));
}

fn marker_of(node: &AstNode) -> Option<String> {
    node.attributes.get("section_marker").and_then(|a| a.as_str()).map(str::to_owned)
}

fn assert_sections_unnested(node: &AstNode, above: &mut Vec<String>) {
    let own = if node.class == NodeClass::Section { marker_of(node) } else { None };
    if let Some(m) = &own {
        assert!(!above.contains(m), "section {m} nested in a section with the same marker");
        above.push(m.clone());
    }
    for child in &node.children {
        assert_sections_unnested(child, above);
    }
    if own.is_some() {
        above.pop();
    }
}

#[test]
fn sections_with_one_marker_never_nest_while_a_document_grows() {
    // GIVEN a document grown by section and body placements in turn
    let mut tree = AstNode::new_ref(NodeClass::Document);
    let mut current: Vec<usize> = vec![];
    for marker in ["=", "-", "~", "-", "=", "~", "="] {
        current = AstNode::push_section_ref(&mut tree, &current, section_with_marker(marker));
        current = AstNode::push_body_element(&mut tree, &current, AstNode::new_ref(NodeClass::Paragraph));
    }

    // THEN no section lies inside a section with the same marker
    assert_sections_unnested(&tree, &mut Vec::new());

    // AND the "=" sections are all children of the document
    let top: Vec<Option<String>> = tree.children.iter().map(marker_of).collect();
    assert_eq!(top, vec![Some("=".to_string()), Some("=".to_string()), Some("=".to_string())]);
}

#[test]
fn a_section_root_takes_a_new_section_when_it_is_the_current_node() {
    let mut root = section_with_marker("=");

    let path = AstNode::push_section_ref(&mut root, &[], section_with_marker("="));

    assert_eq!(path, vec![0]);
    assert_eq!(root.children.len(), 1);
    assert_eq!(root.children[0].class, NodeClass::Section);
}
