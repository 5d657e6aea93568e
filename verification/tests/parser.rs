use rstu::parser::{parse, Block};

#[test]
fn parses_heading_comment_and_directive() {
    let input = "Heading\n=======\n\n.. comment one\n\n.. note:: body\n   one line.\n   two line.\n";

    let document = parse(input).expect("expected valid parse");
    assert_eq!(document.blocks.len(), 3);

    assert!(matches!(document.blocks[0], Block::Heading(_)));
    assert!(matches!(document.blocks[1], Block::Comment(_)));
    assert!(matches!(document.blocks[2], Block::Directive(_)));
}

#[test]
fn parser_rejects_directive_without_indented_block() {
    let input = ".. note:: body\nnot indented\n";

    let result = parse(input);
    assert!(result.is_err());
}

#[test]
fn parses_heading_into_doctree() {
    let input = "Title Line\n==========\n\n";

    let document = parse(input).expect("expected valid heading");
    assert_eq!(document.blocks.len(), 1);

    let Block::Heading(heading) = &document.blocks[0] else {
        panic!("expected heading block");
    };

    assert_eq!(heading.title.text, "Title Line");
    assert_eq!(heading.underline, "==========");
}

#[test]
fn parses_comment_into_doctree() {
    let input = ".. comment text.\n";

    let document = parse(input).expect("expected valid comment");
    assert_eq!(document.blocks.len(), 1);

    let Block::Comment(comment) = &document.blocks[0] else {
        panic!("expected comment block");
    };

    assert_eq!(comment.text.text, "comment text.");
}

#[test]
fn parses_directive_with_indented_block_into_doctree() {
    let input = ".. note:: short arg\n   first line.\n   second line.\n";

    let document = parse(input).expect("expected valid directive");
    assert_eq!(document.blocks.len(), 1);

    let Block::Directive(directive) = &document.blocks[0] else {
        panic!("expected directive block");
    };

    assert_eq!(directive.name, "note");
    assert_eq!(directive.argument.as_ref().map(|s| s.text.as_str()), Some(" short arg"));
    assert_eq!(directive.body.indent, "   ");
    assert_eq!(directive.body.lines.len(), 2);
    assert_eq!(directive.body.lines[0].text, "first line.");
    assert_eq!(directive.body.lines[1].text, "second line.");
}

#[test]
fn test_doctree_parser_rejects_directive_without_indented_block() {
    let input = ".. note:: arg\nnot indented\n";

    let result = parse(input);
    assert!(result.is_err());
}

#[test]
fn test_doctree_parser_parses_heading_comment_and_directive_sequence() {
    let input = "Heading\n=======\n\n.. comment one\n\n.. note:: body\n   one line.\n";

    let document = parse(input).expect("expected valid sequence");
    assert_eq!(document.blocks.len(), 3);
    assert!(matches!(document.blocks[0], Block::Heading(_)));
    assert!(matches!(document.blocks[1], Block::Comment(_)));
    assert!(matches!(document.blocks[2], Block::Directive(_)));
}

#[test]
fn parses_comment_into_ast() {
    let input = ".. comment text.\n";

    let document = parse(input).expect("expected valid comment");
    assert_eq!(document.blocks.len(), 1);

    let Block::Comment(comment) = &document.blocks[0] else {
        panic!("expected comment block");
    };

    assert_eq!(comment.text.text, "comment text.");
}

#[test]
fn parses_directive_with_indented_block_into_ast() {
    let input = ".. note:: short arg\n   first line.\n   second line.\n";

    let document = parse(input).expect("expected valid directive");
    assert_eq!(document.blocks.len(), 1);

    let Block::Directive(directive) = &document.blocks[0] else {
        panic!("expected directive block");
    };

    assert_eq!(directive.name, "note");
    assert_eq!(directive.argument.as_ref().map(|s| s.text.as_str()), Some(" short arg"));
    assert_eq!(directive.body.indent, "   ");
    assert_eq!(directive.body.lines.len(), 2);
    assert_eq!(directive.body.lines[0].text, "first line.");
    assert_eq!(directive.body.lines[1].text, "second line.");
}

#[test]
fn directive_rejects_directive_without_indented_block() {
    let input = ".. note:: arg\nnot indented\n";

    let result = parse(input);
    assert!(result.is_err());
}

#[test]
fn parses_heading_into_ast() {
    let input = "Title Line\n==========\n\n";

    let document = parse(input).expect("expected valid heading");
    assert_eq!(document.blocks.len(), 1);

    let Block::Heading(heading) = &document.blocks[0] else {
        panic!("expected heading block");
    };

    assert_eq!(heading.title.text, "Title Line");
    assert_eq!(heading.underline, "==========");
}

#[test]
fn sequence_parses_heading_comment_and_directive_sequence() {
    let input = "Heading\n=======\n\n.. comment one\n\n.. note:: body\n   one line.\n";

    let document = parse(input).expect("expected valid sequence");
    assert_eq!(document.blocks.len(), 3);
    assert!(matches!(document.blocks[0], Block::Heading(_)));
    assert!(matches!(document.blocks[1], Block::Comment(_)));
    assert!(matches!(document.blocks[2], Block::Directive(_)));
}

#[test]
fn parser_reports_the_position_of_a_missing_body() {
    let result = parse(".. note:: arg\nnot indented\n");
    match result {
        Err(e) => assert_eq!(e.message, "expected indented block after directive"),
        Ok(_) => panic!("expected an error"),
    }
}

#[test]
fn parser_refuses_an_unknown_block() {
    let result = parse("- item\n");
    match result {
        Err(e) => assert_eq!(e.message, "unexpected token sequence"),
        Ok(_) => panic!("expected an error"),
    }
}

#[test]
fn an_indentation_of_the_block_width_continues_the_indented_block() {
    let document = parse(".. note:: body\n   one\n      two\n").expect("expected a directive");
    assert_eq!(document.blocks.len(), 1);
    let Block::Directive(directive) = &document.blocks[0] else {
        panic!("expected a directive");
    };
    assert_eq!(directive.body.indent, "   ");
    let lines: Vec<&str> = directive.body.lines.iter().map(|l| l.text.as_str()).collect();
    assert_eq!(lines, vec!["one", "two"]);
}

#[test]
fn a_directive_body_holds_at_least_one_line_and_needs_indentation() {
    let document = parse(".. note:: body\n   only\n").expect("expected a directive");
    let Block::Directive(directive) = &document.blocks[0] else {
        panic!("expected a directive");
    };
    assert_eq!(directive.body.lines.len(), 1);

    match parse(".. note:: body\nflat\n") {
        Err(error) => assert_eq!(error.message, "expected indented block after directive"),
        Ok(_) => panic!("expected the missing indentation to be refused"),
    }
}
