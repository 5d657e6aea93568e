use rstu::doctree::{allows_child, is_any_of, validate_element_shape, validate_tree, DocTreeNode, ValidationError};
use rstu::elements::{ContentModel, ElementCategory, ElementKind};

fn node(kind: ElementKind) -> DocTreeNode {
    DocTreeNode::new_ref(kind)
}

fn with(mut parent: DocTreeNode, children: Vec<DocTreeNode>) -> DocTreeNode {
    for child in children {
        assert!(DocTreeNode::push_child(&mut parent, child).is_ok());
    }
    parent
}

#[test]
fn element_kinds_have_their_categories_and_content_models() {
    assert_eq!(ElementKind::Field.categories(), vec![ElementCategory::Bibliographic, ElementCategory::BodySub]);
    assert!(ElementKind::Section.has_category(ElementCategory::Structure));
    assert!(!ElementKind::Paragraph.has_category(ElementCategory::Inline));
    assert_eq!(ElementKind::Paragraph.content_model(), ContentModel::TextOrInline);
    assert_eq!(ElementKind::Comment.content_model(), ContentModel::TextOnly);
    assert_eq!(ElementKind::Image.content_model(), ContentModel::Empty);
    assert_eq!(ElementKind::BulletList.content_model(), ContentModel::ChildrenOnly);
}

#[test]
fn allowed_children_follow_the_rules() {
    assert!(allows_child(ElementKind::Document, ElementKind::Section));
    assert!(allows_child(ElementKind::Section, ElementKind::Paragraph));
    assert!(allows_child(ElementKind::BulletList, ElementKind::ListItem));
    assert!(!allows_child(ElementKind::BulletList, ElementKind::Paragraph));
    assert!(allows_child(ElementKind::Paragraph, ElementKind::Emphasis));
    assert!(!allows_child(ElementKind::Paragraph, ElementKind::Paragraph));
    assert!(!allows_child(ElementKind::Image, ElementKind::Paragraph));
    assert!(is_any_of(ElementKind::Title, &[ElementKind::Title, ElementKind::Subtitle]));
    assert!(!is_any_of(ElementKind::Topic, &[ElementKind::Title]));
}

#[test]
fn a_well_formed_tree_validates() {
    let mut title = node(ElementKind::Title);
    title.with_text("Heading");
    let mut paragraph = node(ElementKind::Paragraph);
    paragraph.with_text("text");
    let section = with(node(ElementKind::Section), vec![title, paragraph]);
    let document = with(node(ElementKind::Document), vec![section]);
    assert!(validate_tree(&document).is_ok());
}

#[test]
fn a_section_without_a_title_is_refused() {
    let section = with(node(ElementKind::Section), vec![node(ElementKind::Paragraph)]);
    let error = validate_element_shape(&section).unwrap_err();
    assert_eq!(error.message, "section must start with a title");
    assert_eq!(error.parent, None);
    assert_eq!(error.node, ElementKind::Section);
    let document = with(node(ElementKind::Document), vec![section]);
    assert_eq!(validate_tree(&document).unwrap_err().message, "section must start with a title");
}

#[test]
fn tables_need_a_tgroup_and_tgroups_a_colspec() {
    let table = node(ElementKind::Table);
    assert_eq!(validate_element_shape(&table).unwrap_err().message, "table must contain a tgroup child");
    let tgroup = node(ElementKind::Tgroup);
    assert_eq!(
        validate_element_shape(&tgroup).unwrap_err().message,
        "tgroup must contain at least one colspec child"
    );
    let sidebar = with(node(ElementKind::Sidebar), vec![node(ElementKind::Subtitle)]);
    assert_eq!(
        validate_element_shape(&sidebar).unwrap_err().message,
        "sidebar subtitle requires a preceding title"
    );
}

#[test]
fn a_child_that_may_not_stand_there_is_reported_with_its_parent() {
    let list = with(node(ElementKind::BulletList), vec![node(ElementKind::Paragraph)]);
    let document = with(node(ElementKind::Document), vec![list]);
    let error = validate_tree(&document).unwrap_err();
    assert_eq!(error.message, "invalid child Paragraph inside BulletList");
    assert_eq!(error.parent, Some(ElementKind::BulletList));
    assert_eq!(error.node, ElementKind::Paragraph);
    assert_eq!(error.to_text(), "invalid child Paragraph inside BulletList (node: Paragraph, parent: BulletList)");
}

#[test]
fn text_where_only_children_may_stand_is_refused() {
    let mut list = node(ElementKind::BulletList);
    list.with_text("stray");
    let document = with(node(ElementKind::Document), vec![list]);
    let error = validate_tree(&document).unwrap_err();
    assert_eq!(error.message, "BulletList must not carry text");
    assert_eq!(error.parent, Some(ElementKind::Document));
    let comment = with(node(ElementKind::Comment), vec![node(ElementKind::Emphasis)]);
    let error = validate_tree(&comment).unwrap_err();
    assert_eq!(error.message, "Comment must not have children");
    assert_eq!(error.to_text(), "Comment must not have children (node: Comment)");
}

#[test]
fn attributes_and_errors_are_plain_values() {
    let mut image = node(ElementKind::Image);
    image.with_attr("uri", "picture.png");
    assert_eq!(image.attributes.get("uri").and_then(|v| v.as_str()), Some("picture.png"));
    let error = ValidationError::new("message", None, ElementKind::Note);
    assert_eq!(error.to_text(), "message (node: Note)");
}

#[test]
fn in_a_tree_that_validates_every_child_may_stand_under_its_parent() {
    let mut title = node(ElementKind::Title);
    title.with_text("Heading");
    let mut paragraph = node(ElementKind::Paragraph);
    paragraph.with_text("text");
    let section = with(node(ElementKind::Section), vec![title, paragraph]);
    let document = with(node(ElementKind::Document), vec![section]);
    assert!(validate_tree(&document).is_ok());

    for child in &document.children {
        assert!(allows_child(document.kind, child.kind));
        for grandchild in &child.children {
            assert!(allows_child(child.kind, grandchild.kind));
        }
    }
}
