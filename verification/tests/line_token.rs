use rstu::line_token::TokenKind;


#[test]
fn heading_underline_matches() {
    assert!(TokenKind::HeadingUnderline.is_match("====\n"));
}

#[test]
fn heading_underline_non_matching() {
    assert!(!TokenKind::HeadingUnderline.is_match("==a=\n"));
}

#[test]
fn directive_matches() {
    assert!(TokenKind::Directive.is_match(".. note::"));
}

#[test]
fn directive_non_matching() {
    assert!(!TokenKind::Directive.is_match(".. note:"));
}

#[test]
fn comment_matches() {
    assert!(TokenKind::Comment.is_match(".. this is a comment"));
}

#[test]
fn comment_non_matching() {
    assert!(!TokenKind::Comment.is_match(".. warning::"));
}

