//! The element kinds of the document tree, their categories and what
//! content each may hold.

use vstd::prelude::*;

verus! {

/// What an element may contain.
#[derive(Debug, Clone, Copy, PartialEq, Eq, Structural)]
pub enum ContentModel {
    Empty,
    TextOnly,
    TextOrInline,
    ChildrenOnly,
}

/// The groups that elements belong to.
#[derive(Debug, Clone, Copy, PartialEq, Eq, Hash, Structural)]
pub enum ElementCategory {
    Root,
    Structure,
    StructuralSub,
    Decorative,
    Bibliographic,
    Body,
    BodySub,
    Inline,
}

/// The kinds of elements of a document tree.
#[derive(Debug, Clone, Copy, PartialEq, Eq, Hash, Structural)]
pub enum ElementKind {
    Abbreviation,
    Acronym,
    Address,
    Admonition,
    Attention,
    Attribution,
    Author,
    Authors,
    BlockQuote,
    BulletList,
    Caption,
    Caution,
    Citation,
    CitationReference,
    Classifier,
    Colspec,
    Comment,
    Compound,
    Contact,
    Container,
    Copyright,
    Danger,
    Date,
    Decoration,
    Definition,
    DefinitionList,
    DefinitionListItem,
    Description,
    Docinfo,
    DoctestBlock,
    Document,
    Emphasis,
    Entry,
    EnumeratedList,
    Error,
    Field,
    FieldBody,
    FieldList,
    FieldName,
    Figure,
    Footer,
    Footnote,
    FootnoteReference,
    Generated,
    Header,
    Hint,
    Image,
    Important,
    Inline,
    Label,
    Legend,
    Line,
    LineBlock,
    ListItem,
    Literal,
    LiteralBlock,
    Math,
    MathBlock,
    Meta,
    Note,
    Option,
    OptionArgument,
    OptionGroup,
    OptionList,
    OptionListItem,
    OptionString,
    Organization,
    Paragraph,
    Pending,
    Problematic,
    Raw,
    Reference,
    Revision,
    Row,
    Rubric,
    Section,
    Sidebar,
    Status,
    Strong,
    Subscript,
    SubstitutionDefinition,
    SubstitutionReference,
    Subtitle,
    Superscript,
    SystemMessage,
    Table,
    Target,
    Tbody,
    Term,
    Tgroup,
    Thead,
    Tip,
    Title,
    TitleReference,
    Topic,
    Transition,
    Version,
    Warning,
}

/// The categories of an element kind, in the order they are listed.
pub open spec fn spec_categories(kind: ElementKind) -> Seq<ElementCategory> {
    match kind {
        ElementKind::Abbreviation
        | ElementKind::Acronym
        | ElementKind::CitationReference
        | ElementKind::Emphasis
        | ElementKind::FootnoteReference
        | ElementKind::Generated
        | ElementKind::Inline
        | ElementKind::Literal
        | ElementKind::Math
        | ElementKind::Problematic
        | ElementKind::Strong
        | ElementKind::Subscript
        | ElementKind::SubstitutionReference
        | ElementKind::Superscript
        | ElementKind::TitleReference => seq![ElementCategory::Inline],
        ElementKind::Address
        | ElementKind::Author
        | ElementKind::Authors
        | ElementKind::Contact
        | ElementKind::Copyright
        | ElementKind::Date
        | ElementKind::Organization
        | ElementKind::Revision
        | ElementKind::Status
        | ElementKind::Version => seq![ElementCategory::Bibliographic],
        ElementKind::Admonition
        | ElementKind::Attention
        | ElementKind::BlockQuote
        | ElementKind::BulletList
        | ElementKind::Caution
        | ElementKind::Citation
        | ElementKind::Comment
        | ElementKind::Compound
        | ElementKind::Container
        | ElementKind::Danger
        | ElementKind::DefinitionList
        | ElementKind::DoctestBlock
        | ElementKind::EnumeratedList
        | ElementKind::Error
        | ElementKind::FieldList
        | ElementKind::Figure
        | ElementKind::Footnote
        | ElementKind::Hint
        | ElementKind::Important
        | ElementKind::LineBlock
        | ElementKind::LiteralBlock
        | ElementKind::MathBlock
        | ElementKind::Note
        | ElementKind::OptionList
        | ElementKind::Paragraph
        | ElementKind::Pending
        | ElementKind::Rubric
        | ElementKind::SubstitutionDefinition
        | ElementKind::SystemMessage
        | ElementKind::Table
        | ElementKind::Tip
        | ElementKind::Warning => seq![ElementCategory::Body],
        ElementKind::Attribution
        | ElementKind::Caption
        | ElementKind::Classifier
        | ElementKind::Colspec
        | ElementKind::Definition
        | ElementKind::DefinitionListItem
        | ElementKind::Description
        | ElementKind::Entry
        | ElementKind::FieldBody
        | ElementKind::FieldName
        | ElementKind::Label
        | ElementKind::Legend
        | ElementKind::Line
        | ElementKind::ListItem
        | ElementKind::Option
        | ElementKind::OptionArgument
        | ElementKind::OptionGroup
        | ElementKind::OptionListItem
        | ElementKind::OptionString
        | ElementKind::Row
        | ElementKind::Tbody
        | ElementKind::Term
        | ElementKind::Tgroup
        | ElementKind::Thead => seq![ElementCategory::BodySub],
        ElementKind::Decoration
        | ElementKind::Docinfo
        | ElementKind::Meta
        | ElementKind::Subtitle
        | ElementKind::Transition => seq![ElementCategory::StructuralSub],
        ElementKind::Document => seq![ElementCategory::Root],
        ElementKind::Field => seq![ElementCategory::Bibliographic, ElementCategory::BodySub],
        ElementKind::Footer
        | ElementKind::Header => seq![ElementCategory::Decorative],
        ElementKind::Image
        | ElementKind::Raw
        | ElementKind::Reference
        | ElementKind::Target => seq![ElementCategory::Body, ElementCategory::Inline],
        ElementKind::Section
        | ElementKind::Sidebar
        | ElementKind::Topic => seq![ElementCategory::Structure],
        ElementKind::Title => seq![ElementCategory::StructuralSub, ElementCategory::BodySub],
    }
}

/// The content model of an element kind.
pub open spec fn spec_content_model(kind: ElementKind) -> ContentModel {
    match kind {
        ElementKind::Abbreviation
        | ElementKind::Acronym
        | ElementKind::Address
        | ElementKind::Attribution
        | ElementKind::Author
        | ElementKind::Caption
        | ElementKind::Classifier
        | ElementKind::Contact
        | ElementKind::Copyright
        | ElementKind::Date
        | ElementKind::DoctestBlock
        | ElementKind::Emphasis
        | ElementKind::FieldName
        | ElementKind::Generated
        | ElementKind::Inline
        | ElementKind::Line
        | ElementKind::Literal
        | ElementKind::LiteralBlock
        | ElementKind::Organization
        | ElementKind::Paragraph
        | ElementKind::Problematic
        | ElementKind::Reference
        | ElementKind::Revision
        | ElementKind::Rubric
        | ElementKind::Status
        | ElementKind::Strong
        | ElementKind::Subscript
        | ElementKind::SubstitutionDefinition
        | ElementKind::SubstitutionReference
        | ElementKind::Subtitle
        | ElementKind::Superscript
        | ElementKind::Term
        | ElementKind::Title
        | ElementKind::TitleReference
        | ElementKind::Version => ContentModel::TextOrInline,
        ElementKind::Admonition
        | ElementKind::Attention
        | ElementKind::Authors
        | ElementKind::BlockQuote
        | ElementKind::BulletList
        | ElementKind::Caution
        | ElementKind::Citation
        | ElementKind::Compound
        | ElementKind::Container
        | ElementKind::Danger
        | ElementKind::Decoration
        | ElementKind::Definition
        | ElementKind::DefinitionList
        | ElementKind::DefinitionListItem
        | ElementKind::Description
        | ElementKind::Docinfo
        | ElementKind::Document
        | ElementKind::Entry
        | ElementKind::EnumeratedList
        | ElementKind::Error
        | ElementKind::Field
        | ElementKind::FieldBody
        | ElementKind::FieldList
        | ElementKind::Figure
        | ElementKind::Footer
        | ElementKind::Footnote
        | ElementKind::Header
        | ElementKind::Hint
        | ElementKind::Important
        | ElementKind::Legend
        | ElementKind::LineBlock
        | ElementKind::ListItem
        | ElementKind::MathBlock
        | ElementKind::Note
        | ElementKind::Option
        | ElementKind::OptionGroup
        | ElementKind::OptionList
        | ElementKind::OptionListItem
        | ElementKind::Row
        | ElementKind::Section
        | ElementKind::Sidebar
        | ElementKind::SystemMessage
        | ElementKind::Table
        | ElementKind::Tbody
        | ElementKind::Tgroup
        | ElementKind::Thead
        | ElementKind::Tip
        | ElementKind::Topic
        | ElementKind::Warning => ContentModel::ChildrenOnly,
        ElementKind::CitationReference
        | ElementKind::Comment
        | ElementKind::FootnoteReference
        | ElementKind::Label
        | ElementKind::Math
        | ElementKind::OptionArgument
        | ElementKind::OptionString
        | ElementKind::Raw
        | ElementKind::Target => ContentModel::TextOnly,
        ElementKind::Colspec
        | ElementKind::Image
        | ElementKind::Meta
        | ElementKind::Pending
        | ElementKind::Transition => ContentModel::Empty,
    }
}

/// The name of an element kind, as written in its declaration.
pub open spec fn spec_kind_name(kind: ElementKind) -> Seq<char> {
    match kind {
        ElementKind::Abbreviation => "Abbreviation"@,
        ElementKind::Acronym => "Acronym"@,
        ElementKind::Address => "Address"@,
        ElementKind::Admonition => "Admonition"@,
        ElementKind::Attention => "Attention"@,
        ElementKind::Attribution => "Attribution"@,
        ElementKind::Author => "Author"@,
        ElementKind::Authors => "Authors"@,
        ElementKind::BlockQuote => "BlockQuote"@,
        ElementKind::BulletList => "BulletList"@,
        ElementKind::Caption => "Caption"@,
        ElementKind::Caution => "Caution"@,
        ElementKind::Citation => "Citation"@,
        ElementKind::CitationReference => "CitationReference"@,
        ElementKind::Classifier => "Classifier"@,
        ElementKind::Colspec => "Colspec"@,
        ElementKind::Comment => "Comment"@,
        ElementKind::Compound => "Compound"@,
        ElementKind::Contact => "Contact"@,
        ElementKind::Container => "Container"@,
        ElementKind::Copyright => "Copyright"@,
        ElementKind::Danger => "Danger"@,
        ElementKind::Date => "Date"@,
        ElementKind::Decoration => "Decoration"@,
        ElementKind::Definition => "Definition"@,
        ElementKind::DefinitionList => "DefinitionList"@,
        ElementKind::DefinitionListItem => "DefinitionListItem"@,
        ElementKind::Description => "Description"@,
        ElementKind::Docinfo => "Docinfo"@,
        ElementKind::DoctestBlock => "DoctestBlock"@,
        ElementKind::Document => "Document"@,
        ElementKind::Emphasis => "Emphasis"@,
        ElementKind::Entry => "Entry"@,
        ElementKind::EnumeratedList => "EnumeratedList"@,
        ElementKind::Error => "Error"@,
        ElementKind::Field => "Field"@,
        ElementKind::FieldBody => "FieldBody"@,
        ElementKind::FieldList => "FieldList"@,
        ElementKind::FieldName => "FieldName"@,
        ElementKind::Figure => "Figure"@,
        ElementKind::Footer => "Footer"@,
        ElementKind::Footnote => "Footnote"@,
        ElementKind::FootnoteReference => "FootnoteReference"@,
        ElementKind::Generated => "Generated"@,
        ElementKind::Header => "Header"@,
        ElementKind::Hint => "Hint"@,
        ElementKind::Image => "Image"@,
        ElementKind::Important => "Important"@,
        ElementKind::Inline => "Inline"@,
        ElementKind::Label => "Label"@,
        ElementKind::Legend => "Legend"@,
        ElementKind::Line => "Line"@,
        ElementKind::LineBlock => "LineBlock"@,
        ElementKind::ListItem => "ListItem"@,
        ElementKind::Literal => "Literal"@,
        ElementKind::LiteralBlock => "LiteralBlock"@,
        ElementKind::Math => "Math"@,
        ElementKind::MathBlock => "MathBlock"@,
        ElementKind::Meta => "Meta"@,
        ElementKind::Note => "Note"@,
        ElementKind::Option => "Option"@,
        ElementKind::OptionArgument => "OptionArgument"@,
        ElementKind::OptionGroup => "OptionGroup"@,
        ElementKind::OptionList => "OptionList"@,
        ElementKind::OptionListItem => "OptionListItem"@,
        ElementKind::OptionString => "OptionString"@,
        ElementKind::Organization => "Organization"@,
        ElementKind::Paragraph => "Paragraph"@,
        ElementKind::Pending => "Pending"@,
        ElementKind::Problematic => "Problematic"@,
        ElementKind::Raw => "Raw"@,
        ElementKind::Reference => "Reference"@,
        ElementKind::Revision => "Revision"@,
        ElementKind::Row => "Row"@,
        ElementKind::Rubric => "Rubric"@,
        ElementKind::Section => "Section"@,
        ElementKind::Sidebar => "Sidebar"@,
        ElementKind::Status => "Status"@,
        ElementKind::Strong => "Strong"@,
        ElementKind::Subscript => "Subscript"@,
        ElementKind::SubstitutionDefinition => "SubstitutionDefinition"@,
        ElementKind::SubstitutionReference => "SubstitutionReference"@,
        ElementKind::Subtitle => "Subtitle"@,
        ElementKind::Superscript => "Superscript"@,
        ElementKind::SystemMessage => "SystemMessage"@,
        ElementKind::Table => "Table"@,
        ElementKind::Target => "Target"@,
        ElementKind::Tbody => "Tbody"@,
        ElementKind::Term => "Term"@,
        ElementKind::Tgroup => "Tgroup"@,
        ElementKind::Thead => "Thead"@,
        ElementKind::Tip => "Tip"@,
        ElementKind::Title => "Title"@,
        ElementKind::TitleReference => "TitleReference"@,
        ElementKind::Topic => "Topic"@,
        ElementKind::Transition => "Transition"@,
        ElementKind::Version => "Version"@,
        ElementKind::Warning => "Warning"@,
    }
}

impl ElementKind {
    /// The categories of the element kind.
    pub fn categories(self) -> (r: Vec<ElementCategory>)
        ensures
            r@ == spec_categories(self),
    {
        match self {
            ElementKind::Abbreviation
            | ElementKind::Acronym
            | ElementKind::CitationReference
            | ElementKind::Emphasis
            | ElementKind::FootnoteReference
            | ElementKind::Generated
            | ElementKind::Inline
            | ElementKind::Literal
            | ElementKind::Math
            | ElementKind::Problematic
            | ElementKind::Strong
            | ElementKind::Subscript
            | ElementKind::SubstitutionReference
            | ElementKind::Superscript
            | ElementKind::TitleReference => vec![ElementCategory::Inline],
            ElementKind::Address
            | ElementKind::Author
            | ElementKind::Authors
            | ElementKind::Contact
            | ElementKind::Copyright
            | ElementKind::Date
            | ElementKind::Organization
            | ElementKind::Revision
            | ElementKind::Status
            | ElementKind::Version => vec![ElementCategory::Bibliographic],
            ElementKind::Admonition
            | ElementKind::Attention
            | ElementKind::BlockQuote
            | ElementKind::BulletList
            | ElementKind::Caution
            | ElementKind::Citation
            | ElementKind::Comment
            | ElementKind::Compound
            | ElementKind::Container
            | ElementKind::Danger
            | ElementKind::DefinitionList
            | ElementKind::DoctestBlock
            | ElementKind::EnumeratedList
            | ElementKind::Error
            | ElementKind::FieldList
            | ElementKind::Figure
            | ElementKind::Footnote
            | ElementKind::Hint
            | ElementKind::Important
            | ElementKind::LineBlock
            | ElementKind::LiteralBlock
            | ElementKind::MathBlock
            | ElementKind::Note
            | ElementKind::OptionList
            | ElementKind::Paragraph
            | ElementKind::Pending
            | ElementKind::Rubric
            | ElementKind::SubstitutionDefinition
            | ElementKind::SystemMessage
            | ElementKind::Table
            | ElementKind::Tip
            | ElementKind::Warning => vec![ElementCategory::Body],
            ElementKind::Attribution
            | ElementKind::Caption
            | ElementKind::Classifier
            | ElementKind::Colspec
            | ElementKind::Definition
            | ElementKind::DefinitionListItem
            | ElementKind::Description
            | ElementKind::Entry
            | ElementKind::FieldBody
            | ElementKind::FieldName
            | ElementKind::Label
            | ElementKind::Legend
            | ElementKind::Line
            | ElementKind::ListItem
            | ElementKind::Option
            | ElementKind::OptionArgument
            | ElementKind::OptionGroup
            | ElementKind::OptionListItem
            | ElementKind::OptionString
            | ElementKind::Row
            | ElementKind::Tbody
            | ElementKind::Term
            | ElementKind::Tgroup
            | ElementKind::Thead => vec![ElementCategory::BodySub],
            ElementKind::Decoration
            | ElementKind::Docinfo
            | ElementKind::Meta
            | ElementKind::Subtitle
            | ElementKind::Transition => vec![ElementCategory::StructuralSub],
            ElementKind::Document => vec![ElementCategory::Root],
            ElementKind::Field => vec![ElementCategory::Bibliographic, ElementCategory::BodySub],
            ElementKind::Footer
            | ElementKind::Header => vec![ElementCategory::Decorative],
            ElementKind::Image
            | ElementKind::Raw
            | ElementKind::Reference
            | ElementKind::Target => vec![ElementCategory::Body, ElementCategory::Inline],
            ElementKind::Section
            | ElementKind::Sidebar
            | ElementKind::Topic => vec![ElementCategory::Structure],
            ElementKind::Title => vec![ElementCategory::StructuralSub, ElementCategory::BodySub],
        }
    }

    /// The content model of the element kind.
    pub fn content_model(self) -> (r: ContentModel)
        ensures
            r == spec_content_model(self),
    {
        match self {
            ElementKind::Abbreviation
            | ElementKind::Acronym
            | ElementKind::Address
            | ElementKind::Attribution
            | ElementKind::Author
            | ElementKind::Caption
            | ElementKind::Classifier
            | ElementKind::Contact
            | ElementKind::Copyright
            | ElementKind::Date
            | ElementKind::DoctestBlock
            | ElementKind::Emphasis
            | ElementKind::FieldName
            | ElementKind::Generated
            | ElementKind::Inline
            | ElementKind::Line
            | ElementKind::Literal
            | ElementKind::LiteralBlock
            | ElementKind::Organization
            | ElementKind::Paragraph
            | ElementKind::Problematic
            | ElementKind::Reference
            | ElementKind::Revision
            | ElementKind::Rubric
            | ElementKind::Status
            | ElementKind::Strong
            | ElementKind::Subscript
            | ElementKind::SubstitutionDefinition
            | ElementKind::SubstitutionReference
            | ElementKind::Subtitle
            | ElementKind::Superscript
            | ElementKind::Term
            | ElementKind::Title
            | ElementKind::TitleReference
            | ElementKind::Version => ContentModel::TextOrInline,
            ElementKind::Admonition
            | ElementKind::Attention
            | ElementKind::Authors
            | ElementKind::BlockQuote
            | ElementKind::BulletList
            | ElementKind::Caution
            | ElementKind::Citation
            | ElementKind::Compound
            | ElementKind::Container
            | ElementKind::Danger
            | ElementKind::Decoration
            | ElementKind::Definition
            | ElementKind::DefinitionList
            | ElementKind::DefinitionListItem
            | ElementKind::Description
            | ElementKind::Docinfo
            | ElementKind::Document
            | ElementKind::Entry
            | ElementKind::EnumeratedList
            | ElementKind::Error
            | ElementKind::Field
            | ElementKind::FieldBody
            | ElementKind::FieldList
            | ElementKind::Figure
            | ElementKind::Footer
            | ElementKind::Footnote
            | ElementKind::Header
            | ElementKind::Hint
            | ElementKind::Important
            | ElementKind::Legend
            | ElementKind::LineBlock
            | ElementKind::ListItem
            | ElementKind::MathBlock
            | ElementKind::Note
            | ElementKind::Option
            | ElementKind::OptionGroup
            | ElementKind::OptionList
            | ElementKind::OptionListItem
            | ElementKind::Row
            | ElementKind::Section
            | ElementKind::Sidebar
            | ElementKind::SystemMessage
            | ElementKind::Table
            | ElementKind::Tbody
            | ElementKind::Tgroup
            | ElementKind::Thead
            | ElementKind::Tip
            | ElementKind::Topic
            | ElementKind::Warning => ContentModel::ChildrenOnly,
            ElementKind::CitationReference
            | ElementKind::Comment
            | ElementKind::FootnoteReference
            | ElementKind::Label
            | ElementKind::Math
            | ElementKind::OptionArgument
            | ElementKind::OptionString
            | ElementKind::Raw
            | ElementKind::Target => ContentModel::TextOnly,
            ElementKind::Colspec
            | ElementKind::Image
            | ElementKind::Meta
            | ElementKind::Pending
            | ElementKind::Transition => ContentModel::Empty,
        }
    }

    /// The name of the element kind.
    pub fn name(self) -> (r: &'static str)
        ensures
            r@ == spec_kind_name(self),
    {
        match self {
            ElementKind::Abbreviation => "Abbreviation",
            ElementKind::Acronym => "Acronym",
            ElementKind::Address => "Address",
            ElementKind::Admonition => "Admonition",
            ElementKind::Attention => "Attention",
            ElementKind::Attribution => "Attribution",
            ElementKind::Author => "Author",
            ElementKind::Authors => "Authors",
            ElementKind::BlockQuote => "BlockQuote",
            ElementKind::BulletList => "BulletList",
            ElementKind::Caption => "Caption",
            ElementKind::Caution => "Caution",
            ElementKind::Citation => "Citation",
            ElementKind::CitationReference => "CitationReference",
            ElementKind::Classifier => "Classifier",
            ElementKind::Colspec => "Colspec",
            ElementKind::Comment => "Comment",
            ElementKind::Compound => "Compound",
            ElementKind::Contact => "Contact",
            ElementKind::Container => "Container",
            ElementKind::Copyright => "Copyright",
            ElementKind::Danger => "Danger",
            ElementKind::Date => "Date",
            ElementKind::Decoration => "Decoration",
            ElementKind::Definition => "Definition",
            ElementKind::DefinitionList => "DefinitionList",
            ElementKind::DefinitionListItem => "DefinitionListItem",
            ElementKind::Description => "Description",
            ElementKind::Docinfo => "Docinfo",
            ElementKind::DoctestBlock => "DoctestBlock",
            ElementKind::Document => "Document",
            ElementKind::Emphasis => "Emphasis",
            ElementKind::Entry => "Entry",
            ElementKind::EnumeratedList => "EnumeratedList",
            ElementKind::Error => "Error",
            ElementKind::Field => "Field",
            ElementKind::FieldBody => "FieldBody",
            ElementKind::FieldList => "FieldList",
            ElementKind::FieldName => "FieldName",
            ElementKind::Figure => "Figure",
            ElementKind::Footer => "Footer",
            ElementKind::Footnote => "Footnote",
            ElementKind::FootnoteReference => "FootnoteReference",
            ElementKind::Generated => "Generated",
            ElementKind::Header => "Header",
            ElementKind::Hint => "Hint",
            ElementKind::Image => "Image",
            ElementKind::Important => "Important",
            ElementKind::Inline => "Inline",
            ElementKind::Label => "Label",
            ElementKind::Legend => "Legend",
            ElementKind::Line => "Line",
            ElementKind::LineBlock => "LineBlock",
            ElementKind::ListItem => "ListItem",
            ElementKind::Literal => "Literal",
            ElementKind::LiteralBlock => "LiteralBlock",
            ElementKind::Math => "Math",
            ElementKind::MathBlock => "MathBlock",
            ElementKind::Meta => "Meta",
            ElementKind::Note => "Note",
            ElementKind::Option => "Option",
            ElementKind::OptionArgument => "OptionArgument",
            ElementKind::OptionGroup => "OptionGroup",
            ElementKind::OptionList => "OptionList",
            ElementKind::OptionListItem => "OptionListItem",
            ElementKind::OptionString => "OptionString",
            ElementKind::Organization => "Organization",
            ElementKind::Paragraph => "Paragraph",
            ElementKind::Pending => "Pending",
            ElementKind::Problematic => "Problematic",
            ElementKind::Raw => "Raw",
            ElementKind::Reference => "Reference",
            ElementKind::Revision => "Revision",
            ElementKind::Row => "Row",
            ElementKind::Rubric => "Rubric",
            ElementKind::Section => "Section",
            ElementKind::Sidebar => "Sidebar",
            ElementKind::Status => "Status",
            ElementKind::Strong => "Strong",
            ElementKind::Subscript => "Subscript",
            ElementKind::SubstitutionDefinition => "SubstitutionDefinition",
            ElementKind::SubstitutionReference => "SubstitutionReference",
            ElementKind::Subtitle => "Subtitle",
            ElementKind::Superscript => "Superscript",
            ElementKind::SystemMessage => "SystemMessage",
            ElementKind::Table => "Table",
            ElementKind::Target => "Target",
            ElementKind::Tbody => "Tbody",
            ElementKind::Term => "Term",
            ElementKind::Tgroup => "Tgroup",
            ElementKind::Thead => "Thead",
            ElementKind::Tip => "Tip",
            ElementKind::Title => "Title",
            ElementKind::TitleReference => "TitleReference",
            ElementKind::Topic => "Topic",
            ElementKind::Transition => "Transition",
            ElementKind::Version => "Version",
            ElementKind::Warning => "Warning",
        }
    }

    /// Whether the element kind belongs to `category`.
    pub fn has_category(self, category: ElementCategory) -> (r: bool)
        ensures
            r == spec_categories(self).contains(category),
    {
        let cats = self.categories();
        let mut i: usize = 0;
        while i < cats.len()
            invariant
                i <= cats@.len(),
                cats@ == spec_categories(self),
                forall|j: int| 0 <= j < i ==> cats@[j] != category,
            decreases cats@.len() - i,
        {
            if cats[i] == category {
                return true;
            }
            i = i + 1;
        }
        false
    }
}

} // verus!
