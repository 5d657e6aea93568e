//! A document tree of typed elements, the rules that say which element may
//! hold which, and the validation of a whole tree against them.

use crate::ast::{AttrView, AttributeType, Attributes};
use crate::elements::{
    spec_categories, spec_content_model, spec_kind_name, ContentModel, ElementCategory, ElementKind,
};
use vstd::prelude::*;

verus! {

/// Why a tree is not valid: a message, the element it is about and, where it
/// was checked under a parent, the parent's kind.
#[derive(Debug, Clone, PartialEq, Eq)]
pub struct ValidationError {
    pub message: String,
    pub parent: Option<ElementKind>,
    pub node: ElementKind,
}

/// The mathematical value of a validation error.
pub struct ErrorView {
    pub message: Seq<char>,
    pub parent: Option<ElementKind>,
    pub node: ElementKind,
}

impl View for ValidationError {
    type V = ErrorView;

    open spec fn view(&self) -> ErrorView {
        ErrorView { message: self.message@, parent: self.parent, node: self.node }
    }
}

/// The text of an error: its message, then the node's kind and, where there
/// is one, the parent's kind.
pub open spec fn error_text(e: ErrorView) -> Seq<char> {
    match e.parent {
        Some(p) => e.message + " (node: "@ + spec_kind_name(e.node) + ", parent: "@ + spec_kind_name(p) + ")"@,
        None => e.message + " (node: "@ + spec_kind_name(e.node) + ")"@,
    }
}

impl ValidationError {
    /// An error with the given message, parent kind and node kind.
    pub fn new(message: &str, parent: Option<ElementKind>, node: ElementKind) -> (e: ValidationError)
        ensures
            e@ == (ErrorView { message: message@, parent, node }),
    {
        ValidationError { message: message.to_owned(), parent, node }
    }

    /// The error as text.
    pub fn to_text(&self) -> (s: String)
        ensures
            s@ == error_text(self@),
    {
        let mut s = String::new();
        s.append(self.message.as_str());
        s.append(" (node: ");
        s.append(self.node.name());
        match self.parent {
            Some(p) => {
                s.append(", parent: ");
                s.append(p.name());
                s.append(")");
            },
            None => {
                s.append(")");
            },
        }
        s
    }
}

/// A node of the document tree.
pub struct DocTreeNode {
    pub kind: ElementKind,
    pub attributes: Attributes,
    pub text: Option<String>,
    pub children: Vec<DocTreeNode>,
}

/// The mathematical value of a node and its subtree.
pub struct DocView {
    pub kind: ElementKind,
    pub attributes: Map<Seq<char>, AttrView>,
    pub text: Option<Seq<char>>,
    pub children: Seq<DocView>,
}

/// The value of a node.
pub open spec fn doc_view(n: DocTreeNode) -> DocView
    decreases n, 1int,
{
    DocView {
        kind: n.kind,
        attributes: n.attributes@,
        text: match n.text {
            Some(t) => Some(t@),
            None => None,
        },
        children: docs_view(n.children@),
    }
}

/// The values of a sequence of nodes.
pub open spec fn docs_view(s: Seq<DocTreeNode>) -> Seq<DocView>
    decreases s, 0int,
{
    if s.len() == 0 {
        Seq::empty()
    } else {
        docs_view(s.drop_last()).push(doc_view(s.last()))
    }
}

impl View for DocTreeNode {
    type V = DocView;

    open spec fn view(&self) -> DocView {
        doc_view(*self)
    }
}

pub proof fn lemma_docs_view(s: Seq<DocTreeNode>)
    ensures
        docs_view(s).len() == s.len(),
        forall|i: int| 0 <= i < s.len() ==> docs_view(s)[i] == doc_view(#[trigger] s[i]),
    decreases s.len(),
{
    if s.len() > 0 {
        let p = s.drop_last();
        lemma_docs_view(p);
        assert forall|i: int| 0 <= i < s.len() implies docs_view(s)[i] == doc_view(#[trigger] s[i]) by {
            if i < s.len() - 1 {
                assert(s[i] == p[i]);
            }
        }
    }
}

/// A node of kind `kind` with no attributes, text or children.
pub open spec fn empty_doc(kind: ElementKind) -> DocView {
    DocView { kind, attributes: Map::empty(), text: None, children: Seq::empty() }
}

impl DocTreeNode {
    /// A node of kind `kind` with no attributes, text or children.
    pub fn new_ref(kind: ElementKind) -> (n: DocTreeNode)
        ensures
            n@ == empty_doc(kind),
    {
        let n = DocTreeNode { kind, attributes: Attributes::new(), text: None, children: Vec::new() };
        assert(n@.children =~= Seq::<DocView>::empty());
        n
    }

    /// Sets the text of the node.
    pub fn with_text(&mut self, text: &str)
        ensures
            final(self)@ == (DocView { text: Some(text@), ..old(self)@ }),
    {
        self.text = Some(text.to_owned());
    }

    /// Sets the attribute `key` of the node to the text `value`.
    pub fn with_attr(&mut self, key: &str, value: &str)
        ensures
            final(self)@ == (DocView {
                attributes: old(self)@.attributes.insert(key@, AttrView::Str(value@)),
                ..old(self)@
            }),
    {
        self.attributes.insert(key, AttributeType::from_str(value));
    }

    /// Appends `child` to the children of `parent`; this always succeeds.
    pub fn push_child(parent: &mut DocTreeNode, child: DocTreeNode) -> (r: Result<(), ValidationError>)
        ensures
            r is Ok,
            final(parent)@ == (DocView { children: old(parent)@.children.push(child@), ..old(parent)@ }),
    {
        let ghost before = parent.children@;
        parent.children.push(child);
        assert(parent.children@.drop_last() =~= before);
        Ok(())
    }
}

/// Whether `kind` is one of `allowed`.
pub fn is_any_of<const N: usize>(kind: ElementKind, allowed: &[ElementKind; N]) -> (r: bool)
    ensures
        r == allowed@.contains(kind),
{
    let mut i: usize = 0;
    while i < N
        invariant
            i <= N,
            allowed@.len() == N,
            forall|j: int| 0 <= j < i ==> allowed@[j] != kind,
        decreases N - i,
    {
        if allowed[i] == kind {
            assert(allowed@[i as int] == kind);
            return true;
        }
        i = i + 1;
    }
    false
}

/// Whether `child` has the category `c`.
pub open spec fn has_cat(child: ElementKind, c: ElementCategory) -> bool {
    spec_categories(child).contains(c)
}

/// Whether an element of kind `parent` may hold one of kind `child`.
pub open spec fn spec_allows_child(parent: ElementKind, child: ElementKind) -> bool {
    match parent {
        ElementKind::Document | ElementKind::Section => has_cat(child, ElementCategory::Structure) || has_cat(
            child,
            ElementCategory::StructuralSub,
        ) || has_cat(child, ElementCategory::Body),
        ElementKind::Sidebar => (child == ElementKind::Title || child == ElementKind::Subtitle || child == ElementKind::Topic)
            || has_cat(child, ElementCategory::Body),
        ElementKind::Topic | ElementKind::Admonition => child == ElementKind::Title || has_cat(
            child,
            ElementCategory::Body,
        ),
        ElementKind::Decoration => (child == ElementKind::Header || child == ElementKind::Footer),
        ElementKind::Docinfo => has_cat(child, ElementCategory::Bibliographic),
        ElementKind::Authors => (child == ElementKind::Author || child == ElementKind::Organization || child == ElementKind::Address || child == ElementKind::Contact),
        ElementKind::BlockQuote
        | ElementKind::Compound
        | ElementKind::Container
        | ElementKind::Definition
        | ElementKind::Description
        | ElementKind::Entry
        | ElementKind::FieldBody
        | ElementKind::Footer
        | ElementKind::Footnote
        | ElementKind::Header
        | ElementKind::Hint
        | ElementKind::Important
        | ElementKind::Legend
        | ElementKind::ListItem
        | ElementKind::Note
        | ElementKind::SystemMessage
        | ElementKind::Tip
        | ElementKind::Warning
        | ElementKind::Attention
        | ElementKind::Caution
        | ElementKind::Danger
        | ElementKind::Error
        | ElementKind::Citation => has_cat(child, ElementCategory::Body) || (child == ElementKind::Attribution || child == ElementKind::Label || child == ElementKind::Title),
        ElementKind::BulletList | ElementKind::EnumeratedList => child == ElementKind::ListItem,
        ElementKind::DefinitionList => child == ElementKind::DefinitionListItem,
        ElementKind::DefinitionListItem => (child == ElementKind::Term || child == ElementKind::Classifier || child == ElementKind::Definition),
        ElementKind::FieldList => child == ElementKind::Field,
        ElementKind::Field => (child == ElementKind::FieldName || child == ElementKind::FieldBody),
        ElementKind::Figure => (child == ElementKind::Image || child == ElementKind::Reference || child == ElementKind::Caption || child == ElementKind::Legend),
        ElementKind::LineBlock => (child == ElementKind::Line || child == ElementKind::LineBlock),
        ElementKind::OptionList => child == ElementKind::OptionListItem,
        ElementKind::OptionListItem => (child == ElementKind::OptionGroup || child == ElementKind::Description),
        ElementKind::OptionGroup => child == ElementKind::Option,
        ElementKind::Option => (child == ElementKind::OptionString || child == ElementKind::OptionArgument),
        ElementKind::Table => (child == ElementKind::Title || child == ElementKind::Tgroup),
        ElementKind::Tgroup => (child == ElementKind::Colspec || child == ElementKind::Thead || child == ElementKind::Tbody),
        ElementKind::Thead | ElementKind::Tbody => child == ElementKind::Row,
        ElementKind::Row => child == ElementKind::Entry,
        ElementKind::Paragraph
        | ElementKind::Rubric
        | ElementKind::Title
        | ElementKind::Subtitle
        | ElementKind::Emphasis
        | ElementKind::Strong
        | ElementKind::Literal
        | ElementKind::Reference
        | ElementKind::Inline
        | ElementKind::Subscript
        | ElementKind::Superscript
        | ElementKind::Abbreviation
        | ElementKind::Acronym
        | ElementKind::Generated
        | ElementKind::Problematic
        | ElementKind::SubstitutionReference
        | ElementKind::SubstitutionDefinition
        | ElementKind::TitleReference
        | ElementKind::Address
        | ElementKind::Author
        | ElementKind::Contact
        | ElementKind::Copyright
        | ElementKind::Date
        | ElementKind::DoctestBlock
        | ElementKind::FieldName
        | ElementKind::Line
        | ElementKind::LiteralBlock
        | ElementKind::Organization
        | ElementKind::Revision
        | ElementKind::Status
        | ElementKind::Term
        | ElementKind::Version => has_cat(child, ElementCategory::Inline),
        _ => false,
    }
}

/// Whether an element of kind `parent` may hold one of kind `child`.
pub fn allows_child(parent: ElementKind, child: ElementKind) -> (r: bool)
    ensures
        r == spec_allows_child(parent, child),
{
    match parent {
        ElementKind::Document | ElementKind::Section => {
            child.has_category(ElementCategory::Structure) || child.has_category(ElementCategory::StructuralSub)
                || child.has_category(ElementCategory::Body)
        },
        ElementKind::Sidebar => {
            is_any_of(child, &[ElementKind::Title, ElementKind::Subtitle, ElementKind::Topic])
                || child.has_category(ElementCategory::Body)
        },
        ElementKind::Topic | ElementKind::Admonition => {
            is_any_of(child, &[ElementKind::Title]) || child.has_category(ElementCategory::Body)
        },
        ElementKind::Decoration => is_any_of(child, &[ElementKind::Header, ElementKind::Footer]),
        ElementKind::Docinfo => child.has_category(ElementCategory::Bibliographic),
        ElementKind::Authors => is_any_of(
            child,
            &[ElementKind::Author, ElementKind::Organization, ElementKind::Address, ElementKind::Contact],
        ),
        ElementKind::BlockQuote
        | ElementKind::Compound
        | ElementKind::Container
        | ElementKind::Definition
        | ElementKind::Description
        | ElementKind::Entry
        | ElementKind::FieldBody
        | ElementKind::Footer
        | ElementKind::Footnote
        | ElementKind::Header
        | ElementKind::Hint
        | ElementKind::Important
        | ElementKind::Legend
        | ElementKind::ListItem
        | ElementKind::Note
        | ElementKind::SystemMessage
        | ElementKind::Tip
        | ElementKind::Warning
        | ElementKind::Attention
        | ElementKind::Caution
        | ElementKind::Danger
        | ElementKind::Error
        | ElementKind::Citation => {
            child.has_category(ElementCategory::Body) || is_any_of(
                child,
                &[ElementKind::Attribution, ElementKind::Label, ElementKind::Title],
            )
        },
        ElementKind::BulletList | ElementKind::EnumeratedList => is_any_of(child, &[ElementKind::ListItem]),
        ElementKind::DefinitionList => is_any_of(child, &[ElementKind::DefinitionListItem]),
        ElementKind::DefinitionListItem => is_any_of(
            child,
            &[ElementKind::Term, ElementKind::Classifier, ElementKind::Definition],
        ),
        ElementKind::FieldList => is_any_of(child, &[ElementKind::Field]),
        ElementKind::Field => is_any_of(child, &[ElementKind::FieldName, ElementKind::FieldBody]),
        ElementKind::Figure => is_any_of(
            child,
            &[ElementKind::Image, ElementKind::Reference, ElementKind::Caption, ElementKind::Legend],
        ),
        ElementKind::LineBlock => is_any_of(child, &[ElementKind::Line, ElementKind::LineBlock]),
        ElementKind::OptionList => is_any_of(child, &[ElementKind::OptionListItem]),
        ElementKind::OptionListItem => is_any_of(child, &[ElementKind::OptionGroup, ElementKind::Description]),
        ElementKind::OptionGroup => is_any_of(child, &[ElementKind::Option]),
        ElementKind::Option => is_any_of(child, &[ElementKind::OptionString, ElementKind::OptionArgument]),
        ElementKind::Table => is_any_of(child, &[ElementKind::Title, ElementKind::Tgroup]),
        ElementKind::Tgroup => is_any_of(child, &[ElementKind::Colspec, ElementKind::Thead, ElementKind::Tbody]),
        ElementKind::Thead | ElementKind::Tbody => is_any_of(child, &[ElementKind::Row]),
        ElementKind::Row => is_any_of(child, &[ElementKind::Entry]),
        ElementKind::Paragraph
        | ElementKind::Rubric
        | ElementKind::Title
        | ElementKind::Subtitle
        | ElementKind::Emphasis
        | ElementKind::Strong
        | ElementKind::Literal
        | ElementKind::Reference
        | ElementKind::Inline
        | ElementKind::Subscript
        | ElementKind::Superscript
        | ElementKind::Abbreviation
        | ElementKind::Acronym
        | ElementKind::Generated
        | ElementKind::Problematic
        | ElementKind::SubstitutionReference
        | ElementKind::SubstitutionDefinition
        | ElementKind::TitleReference
        | ElementKind::Address
        | ElementKind::Author
        | ElementKind::Contact
        | ElementKind::Copyright
        | ElementKind::Date
        | ElementKind::DoctestBlock
        | ElementKind::FieldName
        | ElementKind::Line
        | ElementKind::LiteralBlock
        | ElementKind::Organization
        | ElementKind::Revision
        | ElementKind::Status
        | ElementKind::Term
        | ElementKind::Version => child.has_category(ElementCategory::Inline),
        _ => false,
    }
}

/// Whether one of `children` has kind `kind`.
pub open spec fn has_child_kind(children: Seq<DocView>, kind: ElementKind) -> bool {
    exists|i: int| 0 <= i < children.len() && children[i].kind == kind
}

/// Why the shape of a node is wrong: a section that does not start with a
/// title, a sidebar that starts with a subtitle, a table without a tgroup, a
/// tgroup without a colspec.
pub open spec fn shape_error(n: DocView) -> Option<Seq<char>> {
    match n.kind {
        ElementKind::Section => if n.children.len() > 0 && n.children[0].kind == ElementKind::Title {
            None
        } else {
            Some("section must start with a title"@)
        },
        ElementKind::Sidebar => if n.children.len() > 0 && n.children[0].kind == ElementKind::Subtitle {
            Some("sidebar subtitle requires a preceding title"@)
        } else {
            None
        },
        ElementKind::Table => if has_child_kind(n.children, ElementKind::Tgroup) {
            None
        } else {
            Some("table must contain a tgroup child"@)
        },
        ElementKind::Tgroup => if has_child_kind(n.children, ElementKind::Colspec) {
            None
        } else {
            Some("tgroup must contain at least one colspec child"@)
        },
        _ => None,
    }
}

/// Why the content of a node breaks its content model: text where only
/// children (or nothing) may stand, children where only text may.
pub open spec fn content_error(n: DocView, parent: Option<ElementKind>) -> Option<ErrorView> {
    match spec_content_model(n.kind) {
        ContentModel::Empty | ContentModel::ChildrenOnly => if n.text is Some {
            Some(ErrorView { message: spec_kind_name(n.kind) + " must not carry text"@, parent, node: n.kind })
        } else {
            None
        },
        ContentModel::TextOnly => if n.children.len() > 0 {
            Some(ErrorView { message: spec_kind_name(n.kind) + " must not have children"@, parent, node: n.kind })
        } else {
            None
        },
        ContentModel::TextOrInline => None,
    }
}

/// The first error in the tree `n`, checked under `parent`: the node's
/// shape, then its content, then each child in turn (whether it may stand
/// there, then its own subtree).
pub open spec fn tree_error(n: DocView, parent: Option<ElementKind>) -> Option<ErrorView>
    decreases n, 0int,
{
    match shape_error(n) {
        Some(m) => Some(ErrorView { message: m, parent: None, node: n.kind }),
        None => match content_error(n, parent) {
            Some(e) => Some(e),
            None => children_error(n.kind, n.children, 0),
        },
    }
}

/// The first error among `children[i..]` of a node of kind `kind`.
pub open spec fn children_error(kind: ElementKind, children: Seq<DocView>, i: int) -> Option<ErrorView>
    decreases children, children.len() - i,
{
    if i < 0 || i >= children.len() {
        None
    } else if !spec_allows_child(kind, children[i].kind) {
        Some(
            ErrorView {
                message: "invalid child "@ + spec_kind_name(children[i].kind) + " inside "@ + spec_kind_name(kind),
                parent: Some(kind),
                node: children[i].kind,
            },
        )
    } else {
        match tree_error(children[i], Some(kind)) {
            Some(e) => Some(e),
            None => children_error(kind, children, i + 1),
        }
    }
}

/// Whether `r` reports `e`: success where there is no error, the error
/// where there is one.
pub open spec fn reports(r: Result<(), ValidationError>, e: Option<ErrorView>) -> bool {
    match r {
        Ok(()) => e is None,
        Err(err) => e == Some(err@),
    }
}

/// Whether one of `children` has kind `kind`.
fn any_child_of_kind(children: &Vec<DocTreeNode>, kind: ElementKind) -> (r: bool)
    ensures
        r == has_child_kind(docs_view(children@), kind),
{
    proof {
        lemma_docs_view(children@);
    }
    let mut i: usize = 0;
    while i < children.len()
        invariant
            i <= children@.len(),
            docs_view(children@).len() == children@.len(),
            forall|j: int| 0 <= j < children@.len() ==> docs_view(children@)[j] == doc_view(#[trigger] children@[j]),
            forall|j: int| 0 <= j < i ==> docs_view(children@)[j].kind != kind,
        decreases children@.len() - i,
    {
        if children[i].kind == kind {
            assert(docs_view(children@)[i as int].kind == kind);
            return true;
        }
        i = i + 1;
    }
    false
}

/// Checks the shape of a node: a section starts with a title, a sidebar
/// does not start with a subtitle, a table holds a tgroup and a tgroup a
/// colspec.
pub fn validate_element_shape(node: &DocTreeNode) -> (r: Result<(), ValidationError>)
    ensures
        reports(
            r,
            match shape_error(node@) {
                Some(m) => Some(ErrorView { message: m, parent: None, node: node.kind }),
                None => None,
            },
        ),
{
    proof {
        lemma_docs_view(node.children@);
    }
    match node.kind {
        ElementKind::Section => {
            if !(node.children.len() > 0 && node.children[0].kind == ElementKind::Title) {
                return Err(ValidationError::new("section must start with a title", None, node.kind));
            }
        },
        ElementKind::Sidebar => {
            if node.children.len() > 0 && node.children[0].kind == ElementKind::Subtitle {
                return Err(ValidationError::new("sidebar subtitle requires a preceding title", None, node.kind));
            }
        },
        ElementKind::Table => {
            if !any_child_of_kind(&node.children, ElementKind::Tgroup) {
                return Err(ValidationError::new("table must contain a tgroup child", None, node.kind));
            }
        },
        ElementKind::Tgroup => {
            if !any_child_of_kind(&node.children, ElementKind::Colspec) {
                return Err(ValidationError::new("tgroup must contain at least one colspec child", None, node.kind));
            }
        },
        _ => {},
    }
    Ok(())
}

/// The name of `kind` followed by `suffix`.
fn kind_message(kind: ElementKind, suffix: &str) -> (s: String)
    ensures
        s@ == spec_kind_name(kind) + suffix@,
{
    let mut s = String::new();
    s.append(kind.name());
    s.append(suffix);
    s
}

/// Validates the subtree of `node`, checked under `parent`.
fn validate_node(node: &DocTreeNode, parent: Option<ElementKind>) -> (r: Result<(), ValidationError>)
    ensures
        reports(r, tree_error(node@, parent)),
    decreases node,
{
    match validate_element_shape(node) {
        Err(e) => {
            return Err(e);
        },
        Ok(()) => {},
    }
    proof {
        lemma_docs_view(node.children@);
    }
    match node.kind.content_model() {
        ContentModel::Empty | ContentModel::ChildrenOnly => {
            if node.text.is_some() {
                return Err(
                    ValidationError { message: kind_message(node.kind, " must not carry text"), parent, node: node.kind },
                );
            }
        },
        ContentModel::TextOnly => {
            if node.children.len() > 0 {
                return Err(
                    ValidationError {
                        message: kind_message(node.kind, " must not have children"),
                        parent,
                        node: node.kind,
                    },
                );
            }
        },
        ContentModel::TextOrInline => {},
    }
    let kind = node.kind;
    assert(tree_error(node@, parent) == children_error(kind, node@.children, 0));
    let mut i: usize = 0;
    while i < node.children.len()
        invariant
            i <= node.children@.len(),
            kind == node.kind,
            node@.children == docs_view(node.children@),
            docs_view(node.children@).len() == node.children@.len(),
            forall|j: int|
                0 <= j < node.children@.len() ==> docs_view(node.children@)[j] == doc_view(
                    #[trigger] node.children@[j],
                ),
            tree_error(node@, parent) == children_error(kind, node@.children, i as int),
        decreases node.children@.len() - i,
    {
        let child = &node.children[i];
        assert(node@.children[i as int] == child@);
        if !allows_child(kind, child.kind) {
            let mut message = String::new();
            message.append("invalid child ");
            message.append(child.kind.name());
            message.append(" inside ");
            message.append(kind.name());
            return Err(ValidationError { message, parent: Some(kind), node: child.kind });
        }
        match validate_node(child, Some(kind)) {
            Err(e) => {
                return Err(e);
            },
            Ok(()) => {},
        }
        i = i + 1;
    }
    Ok(())
}

/// Validates a whole tree: the first error found, node by node in document
/// order, or success.
pub fn validate_tree(node: &DocTreeNode) -> (r: Result<(), ValidationError>)
    ensures
        reports(r, tree_error(node@, None)),
{
    validate_node(node, None)
}

proof fn lemma_children_error_none(kind: ElementKind, children: Seq<DocView>, i: int, j: int)
    requires
        0 <= i <= j < children.len(),
        children_error(kind, children, i) is None,
    ensures
        spec_allows_child(kind, children[j].kind),
        tree_error(children[j], Some(kind)) is None,
    decreases j - i,
{
    if i < j {
        lemma_children_error_none(kind, children, i + 1, j);
    }
}

proof fn lemma_children_error_iff(kind: ElementKind, children: Seq<DocView>, i: int)
    requires
        0 <= i,
    ensures
        children_error(kind, children, i) is None <==> forall|j: int|
            i <= j < children.len() ==> spec_allows_child(kind, children[j].kind) && (#[trigger] tree_error(
                children[j],
                Some(kind),
            )) is None,
    decreases children.len() - i,
{
    if i < children.len() {
        lemma_children_error_iff(kind, children, i + 1);
        if forall|j: int|
            i <= j < children.len() ==> spec_allows_child(kind, children[j].kind) && (#[trigger] tree_error(
                children[j],
                Some(kind),
            )) is None {
            assert(tree_error(children[i], Some(kind)) is None);
            assert(spec_allows_child(kind, children[i].kind));
            assert(children_error(kind, children, i + 1) is None);
        }
        if children_error(kind, children, i) is None {
            assert forall|j: int| i <= j < children.len() implies spec_allows_child(kind, children[j].kind) && (
            #[trigger] tree_error(children[j], Some(kind))) is None by {
                lemma_children_error_none(kind, children, i, j);
            }
        }
    }
}

/// Whether every node of the tree `n`, checked under `parent`, keeps the
/// rules: its shape, its content model, and that each child may stand under
/// it.
pub open spec fn tree_valid(n: DocView, parent: Option<ElementKind>) -> bool
    decreases n,
{
    &&& shape_error(n) is None
    &&& content_error(n, parent) is None
    &&& forall|i: int|
        0 <= i < n.children.len() ==> spec_allows_child(n.kind, n.children[i].kind) && tree_valid(
            #[trigger] n.children[i],
            Some(n.kind),
        )
}

/// A tree validates exactly where every node of it keeps the rules: a
/// section starts with a title, a sidebar does not start with a subtitle, a
/// table holds a tgroup and a tgroup a colspec, text stands only where the
/// content model lets it, children only where they may, and every child may
/// stand under its parent.
pub proof fn law_tree_validates_iff_every_node_keeps_the_rules(n: DocView, parent: Option<ElementKind>)
    ensures
        tree_error(n, parent) is None <==> tree_valid(n, parent),
    decreases n,
{
    assert forall|i: int| 0 <= i < n.children.len() implies (tree_error(#[trigger] n.children[i], Some(n.kind)) is None
        <==> tree_valid(n.children[i], Some(n.kind))) by {
        law_tree_validates_iff_every_node_keeps_the_rules(n.children[i], Some(n.kind));
    }
    lemma_children_error_iff(n.kind, n.children, 0);
    if shape_error(n) is None && content_error(n, parent) is None {
        assert(tree_error(n, parent) == children_error(n.kind, n.children, 0));
        if tree_valid(n, parent) {
            assert forall|j: int| 0 <= j < n.children.len() implies spec_allows_child(n.kind, n.children[j].kind) && (
            #[trigger] tree_error(n.children[j], Some(n.kind))) is None by {
                assert(tree_valid(n.children[j], Some(n.kind)));
            }
        }
        if tree_error(n, parent) is None {
            assert forall|i: int| 0 <= i < n.children.len() implies spec_allows_child(n.kind, n.children[i].kind)
                && tree_valid(#[trigger] n.children[i], Some(n.kind)) by {
                assert(tree_error(n.children[i], Some(n.kind)) is None);
            }
            assert(tree_valid(n, parent));
        }
    } else {
        assert(!tree_valid(n, parent));
        assert(tree_error(n, parent) is Some);
    }
}

/// A list, bullet or enumerated, admits list items and nothing else; the
/// two kinds of list admit the same children.
pub proof fn law_lists_admit_exactly_list_items(child: ElementKind)
    ensures
        spec_allows_child(ElementKind::BulletList, child) <==> child == ElementKind::ListItem,
        spec_allows_child(ElementKind::EnumeratedList, child) <==> child == ElementKind::ListItem,
        spec_allows_child(ElementKind::EnumeratedList, child) == spec_allows_child(ElementKind::BulletList, child),
{
}

/// Validity is inherited: in a tree that validates, every child may stand
/// under its parent and its own subtree validates under that parent.
pub proof fn law_valid_tree_children(n: DocView, parent: Option<ElementKind>)
    requires
        tree_error(n, parent) is None,
    ensures
        forall|i: int|
            0 <= i < n.children.len() ==> spec_allows_child(n.kind, #[trigger] n.children[i].kind) && tree_error(
                n.children[i],
                Some(n.kind),
            ) is None,
{
    assert forall|i: int| 0 <= i < n.children.len() implies spec_allows_child(n.kind, #[trigger] n.children[i].kind)
        && tree_error(n.children[i], Some(n.kind)) is None by {
        lemma_children_error_none(n.kind, n.children, 0, i);
    }
}

} // verus!
