use rstu::ast::{AstNode, NodeClass};
use rstu::literal_block::parse_literal_block;
use rstu::parse;
use rstu::parser_errors::ParserError;
use rstu::token::{Token, TokenKind};
use rstu::token_stream::TokenStream;

fn text_of<'a>(node: &'a AstNode, key: &str) -> Option<&'a str> {
    node.attributes.get(key).and_then(|v| v.as_str())
}

fn classes(node: &AstNode) -> Vec<NodeClass> {
    node.children.iter().map(|c| c.class).collect()
}

#[test]
fn a_single_line_is_one_paragraph_of_plain_text() {
    let doc = parse("Hello\n").unwrap();
    assert_eq!(doc.class, NodeClass::Document);
    assert_eq!(classes(&doc), vec![NodeClass::Paragraph]);
    let paragraph = &doc.children[0];
    assert_eq!(classes(paragraph), vec![NodeClass::PlainText]);
    assert_eq!(text_of(&paragraph.children[0], "text"), Some("Hello\n"));
}

#[test]
fn a_title_with_an_underline_opens_a_section() {
    let doc = parse("Title\n=====\n\nText\n").unwrap();
    assert_eq!(classes(&doc), vec![NodeClass::Section]);
    let section = &doc.children[0];
    assert_eq!(text_of(section, "section_marker"), Some("="));
    assert_eq!(section.attributes.get("marker_len").map(|v| format!("{:?}", v)), Some("Usize(5)".to_string()));
    assert_eq!(classes(section), vec![NodeClass::Title, NodeClass::Paragraph]);
    assert_eq!(text_of(&section.children[0], "text"), Some("Title"));
}

#[test]
fn sections_nest_by_their_markers() {
    let doc = parse("A\n====\n\nB\n----\n\nC\n====\n").unwrap();
    assert_eq!(classes(&doc), vec![NodeClass::Section, NodeClass::Section]);
    assert_eq!(classes(&doc.children[0]), vec![NodeClass::Title, NodeClass::Section]);
    assert_eq!(text_of(&doc.children[0].children[1], "section_marker"), Some("-"));
    assert_eq!(text_of(&doc.children[1].children[0], "text"), Some("C"));
}

fn assert_no_section_in_same_marker(node: &AstNode, above: &mut Vec<String>) {
    let own = if node.class == NodeClass::Section { text_of(node, "section_marker").map(str::to_owned) } else { None };
    if let Some(m) = &own {
        assert!(!above.contains(m), "a section marked {m} lies inside a section with the same marker");
        above.push(m.clone());
    } else {
        assert!(text_of(node, "section_marker").is_none(), "only sections carry a marker");
    }
    for child in &node.children {
        assert_no_section_in_same_marker(child, above);
    }
    if own.is_some() {
        above.pop();
    }
}

#[test]
fn no_section_lies_inside_a_section_with_its_marker() {
    let input = "A\n====\n\nB\n----\n\n- item\n\nC\n~~~~\n\nD\n----\n\n.. note:: x\n\nE\n====\n\nF\n~~~~\n\nText\n";
    let doc = parse(input).unwrap();
    assert_no_section_in_same_marker(&doc, &mut Vec::new());
    assert_eq!(classes(&doc), vec![NodeClass::Section, NodeClass::Section]);
    assert_eq!(classes(&doc.children[0]), vec![NodeClass::Title, NodeClass::Section, NodeClass::Section]);
}

#[test]
fn an_overline_must_match_the_underline() {
    let doc = parse("====\nTitle\n====\n").unwrap();
    assert_eq!(classes(&doc), vec![NodeClass::Section]);
    assert_eq!(
        doc.children[0].attributes.get("marker_len_opening").map(|v| format!("{:?}", v)),
        Some("Usize(1)".to_string())
    );
    match parse("====\nTitle\n----\n") {
        Err(ParserError::SectionTitleUnbalancedStyle { opening_style, closing_style, .. }) => {
            assert_eq!(opening_style, "=");
            assert_eq!(closing_style, "-");
        },
        other => panic!("expected an unbalanced style error, got {:?}", other.map(|d| d.class)),
    }
}

#[test]
fn an_overline_without_an_underline_is_refused() {
    match parse("====\nTitle\n\nText\n") {
        Err(ParserError::SectionTitleMissingClosingAfterOpening { .. }) => {},
        other => panic!("expected a missing closing error, got {:?}", other.map(|d| d.class)),
    }
}

#[test]
fn a_bullet_list_holds_one_item_per_marker() {
    let doc = parse("- a\n- b\n").unwrap();
    assert_eq!(classes(&doc), vec![NodeClass::BulletList]);
    let list = &doc.children[0];
    assert_eq!(classes(list), vec![NodeClass::BulletListItem, NodeClass::BulletListItem]);
    assert_eq!(text_of(&list.children[0], "marker"), Some("-"));
    let block = &list.children[1].children[0];
    assert_eq!(block.class, NodeClass::Block);
    assert_eq!(classes(block), vec![NodeClass::Paragraph]);
    assert_eq!(text_of(&block.children[0].children[0], "text"), Some("b\n"));
}

#[test]
fn a_bullet_list_refuses_a_second_marker_style() {
    match parse("- a\n+ b\n") {
        Err(ParserError::ListStyleError { marker, conflicting_marker }) => {
            assert_eq!(marker, "-");
            assert_eq!(conflicting_marker, "+");
        },
        other => panic!("expected a list style error, got {:?}", other.map(|d| d.class)),
    }
}

#[test]
fn an_enumerated_list_numbers_its_items() {
    let doc = parse("1. a\n2. b\n").unwrap();
    assert_eq!(classes(&doc), vec![NodeClass::EnumeratedList]);
    let list = &doc.children[0];
    assert_eq!(text_of(list, "enumtype"), Some("arabic"));
    assert_eq!(text_of(list, "prefix"), Some(""));
    assert_eq!(text_of(list, "suffix"), Some("."));
    assert_eq!(list.children.len(), 2);
    assert_eq!(text_of(&list.children[1], "raw_value"), Some("2"));
    assert_eq!(list.children[1].attributes.get("number").map(|v| format!("{:?}", v)), Some("Usize(2)".to_string()));
}

#[test]
fn a_field_list_names_its_items() {
    let doc = parse(":name: value\n").unwrap();
    assert_eq!(classes(&doc), vec![NodeClass::FieldList]);
    let item = &doc.children[0].children[0];
    assert_eq!(item.class, NodeClass::FieldListItem);
    assert_eq!(text_of(item, "fieldname"), Some("name"));
}

#[test]
fn a_comment_keeps_its_text() {
    let doc = parse(".. a comment\n").unwrap();
    assert_eq!(classes(&doc), vec![NodeClass::Comment]);
    assert_eq!(text_of(&doc.children[0], "text"), Some("a comment\n"));
}

#[test]
fn a_directive_has_a_type_arguments_and_a_body() {
    let doc = parse(".. note:: arg\n   body\n").unwrap();
    assert_eq!(classes(&doc), vec![NodeClass::Directive]);
    let directive = &doc.children[0];
    assert_eq!(text_of(directive, "directive_type"), Some("note"));
    assert_eq!(text_of(directive, "directive_arguments"), Some("arg"));
    assert_eq!(classes(directive), vec![NodeClass::Block]);
    assert_eq!(text_of(&directive.children[0].children[0].children[0], "text"), Some("body\n"));
}

#[test]
fn inline_markup_and_references_split_a_paragraph() {
    let doc = parse("Some **bold** text\n").unwrap();
    let paragraph = &doc.children[0];
    assert_eq!(classes(paragraph), vec![NodeClass::PlainText, NodeClass::InlineMarkup, NodeClass::PlainText]);
    assert_eq!(text_of(&paragraph.children[1], "markup"), Some("strong"));
    assert_eq!(text_of(&paragraph.children[1], "text"), Some("bold"));
    assert_eq!(text_of(&paragraph.children[2], "text"), Some(" text\n"));

    let doc = parse("see ref_ here\n").unwrap();
    let reference = &doc.children[0].children[1];
    assert_eq!(reference.class, NodeClass::Reference);
    assert_eq!(text_of(reference, "text"), Some("ref"));
    assert_eq!(text_of(reference, "type"), Some("simple_ref"));
}

#[test]
fn unclosed_inline_markup_is_refused() {
    match parse("Some **bold text\n") {
        Err(ParserError::InlineMissingClosing { markup, .. }) => assert_eq!(markup, "strong"),
        other => panic!("expected a missing closing error, got {:?}", other.map(|d| d.class)),
    }
}

fn literal(tokens: Vec<Token>) -> Result<AstNode, ParserError> {
    let mut stream = TokenStream::new(tokens);
    parse_literal_block(&mut stream)
}

#[test]
fn an_indented_literal_block_keeps_its_text() {
    let block = literal(vec![
        Token::new(TokenKind::DoubleColon, "::"),
        Token::new(TokenKind::NewLine, "\n"),
        Token::new(TokenKind::BlankLine, "\n"),
        Token::new(TokenKind::Indent, "   "),
        Token::new(TokenKind::Word, "code"),
        Token::new(TokenKind::Dedent, "   "),
    ])
    .unwrap();
    assert_eq!(block.class, NodeClass::LiteralBlock);
    assert_eq!(text_of(&block, "xml:space"), Some("preserve"));
    assert_eq!(text_of(&block.children[0], "text"), Some("code\n"));
}

#[test]
fn a_quoted_literal_block_keeps_its_lines() {
    let block = literal(vec![
        Token::new(TokenKind::DoubleColon, "::"),
        Token::new(TokenKind::NewLine, "\n"),
        Token::new(TokenKind::BlankLine, "\n"),
        Token::new(TokenKind::Punctuation, ">"),
        Token::new(TokenKind::Spaces, " "),
        Token::new(TokenKind::Word, "q"),
        Token::new(TokenKind::NewLine, "\n"),
    ])
    .unwrap();
    assert_eq!(text_of(&block.children[0], "text"), Some("> q\n"));
}

#[test]
fn literal_blocks_refuse_malformed_text() {
    let no_blank = literal(vec![
        Token::new(TokenKind::DoubleColon, "::"),
        Token::new(TokenKind::NewLine, "\n"),
        Token::new(TokenKind::Indent, "   "),
        Token::new(TokenKind::Word, "code"),
    ]);
    assert_eq!(
        no_blank.err(),
        Some(ParserError::LiteralBlockError { message: "literal block requires a blank line".to_string() })
    );
    let unquoted = literal(vec![
        Token::new(TokenKind::DoubleColon, "::"),
        Token::new(TokenKind::NewLine, "\n"),
        Token::new(TokenKind::BlankLine, "\n"),
        Token::new(TokenKind::Word, "q"),
    ]);
    assert_eq!(
        unquoted.err(),
        Some(ParserError::LiteralBlockError { message: "inconsistent quoted literal block".to_string() })
    );
    let empty = literal(vec![Token::new(TokenKind::DoubleColon, "::")]);
    assert_eq!(
        empty.err(),
        Some(ParserError::LiteralBlockError { message: "literal block expected after literal marker".to_string() })
    );
}
