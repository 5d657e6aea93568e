use rstu::line_token::TokenKind as LineKind;
use rstu::token::{lexeme_of_match, TokenCategory, TokenKind as TK};


#[test]
fn match_token_uses_centralized_token_list() {
    let (kind, lexeme) = TK::match_token("\nHello\n").unwrap();

    assert_eq!(kind, TK::Word);
    assert_eq!(lexeme, "Hello");
}

#[test]
fn transition_matches() {
    assert!(TK::Separator.is_match("\n====\n"));
    assert!(!TK::Separator.is_match("\n==a=\n"));
    assert!(!TK::Separator.is_match("\n===\n"));
}

#[test]
fn token_indent_matches() {
    assert!(TK::Indent.is_match("\n \t  W"));
    assert!(LineKind::Indent.is_match(" \t  "));
}

#[test]
fn token_indent_non_matching() {
    assert!(!TK::Indent.is_match("abc"));
    assert!(!LineKind::Indent.is_match("abc"));
}

#[test]
fn spaces_matches() {
    assert!(TK::Spaces.is_match("x \t x"));
}

#[test]
fn spaces_non_matching() {
    assert!(!TK::Spaces.is_match("xabcx"));
}

#[test]
fn strong_matches() {
    assert!(TK::StrongStart.is_match(" **x"));
    assert!(TK::StrongEnd.is_match("x** "));
    assert!(!TK::StrongStart.is_match("*"));
    assert!(!TK::StrongEnd.is_match("*"));
}

#[test]
fn inline_markup_tokens_match_common_delimiters() {
    assert!(TK::EmphasisStart.is_match(" *x"));
    assert!(TK::EmphasisEnd.is_match("x* "));
    assert!(TK::BackquoteStart.is_match(" `x"));
    assert!(TK::BackquoteEnd.is_match("x` "));
    assert!(TK::InlineLiteralStart.is_match(" ``x"));
    assert!(TK::InlineLiteralEnd.is_match("x`` "));
}

#[test]
fn inline_references() {
    assert!(TK::SubstitutionReference.is_match(" |x| "));
    assert!(TK::HyperlinkReferenceEnd.is_match("x_ "));
    assert!(TK::HyperlinkReferenceEnd.is_match("x`_ "));
    assert!(TK::FootnoteReference.is_match(" [x]_ "));
    assert_eq!(
        TK::SimpleHyperlinkReference.find_lexeme(" simple_ref_ text"),
        Some("simple_ref_")
    );
}

#[test]
fn emphasis_non_matching_for_strong_delimiters() {
    assert!(!TK::EmphasisStart.is_match("**"));
}

#[test]
fn interpreted_text_non_matching_for_double_backticks() {
    assert!(!TK::BackquoteStart.is_match("``"));
}

#[test]
fn doublecolon_matches() {
    assert!(TK::DoubleColon.is_match("e::\n"));
}

#[test]
fn doublecolon_non_matching() {
    assert!(!TK::DoubleColon.is_match("e:\n"));
}

#[test]
fn doubledot_matches() {
    assert!(TK::DoubleDot.is_match("\n.. this is a comment\n"));
}

#[test]
fn doubledot_non_matching() {
    assert!(!TK::DoubleDot.is_match("\nwarning...\n"));
}

#[test]
fn bullet_list_marker_matches() {
    assert!(TK::BulletListMarker.is_match("\n- item\n"));
    assert!(TK::BulletListMarker.is_match("\n+ item\n"));
}

#[test]
fn bullet_list_marker_non_matching() {
    assert!(!TK::BulletListMarker.is_match("x-y"));
}

#[test]
fn token_table_horizontal_matches() {
    assert!(TK::TableHorizontal.is_match("\n==== =====\n"));
    assert!(LineKind::TableHorizontal.is_match("==== ====="));
}

#[test]
fn token_table_horizontal_non_matching() {
    assert!(!TK::TableHorizontal.is_match("\n========\n"));
    assert!(!LineKind::TableHorizontal.is_match("========"));
}

#[test]
fn blank_line_matches_empty() {
    assert!(TK::BlankLine.is_match("\n\n\n"));
}

#[test]
fn blank_line_matches_whitespace_only() {
    assert!(TK::BlankLine.is_match("\n \t\n\n"));
}

#[test]
fn blank_line_non_matching_text() {
    assert!(!TK::BlankLine.is_match("text"));
}

#[test]
fn word_matches_alphanumeric_and_underscore() {
    assert!(TK::Word.is_match(" alpha_123 "));
}

#[test]
fn word_matches_with_newline_boundary() {
    assert!(TK::Word.is_match("\nalpha_123\n"));
}

#[test]
fn word_non_matching_without_word_chars() {
    assert!(!TK::Word.is_match("---\n***"));
}

#[test]
fn punctuation_matches_ascii_non_alphanumeric() {
    assert!(TK::Punctuation.is_match("x,x"));
    assert!(TK::Punctuation.is_match("x!x"));
    assert!(TK::Punctuation.is_match("x_x"));
}

#[test]
fn punctuation_non_matching_for_alphanumeric() {
    assert!(!TK::Punctuation.is_match("xax"));
    assert!(!TK::Punctuation.is_match("x1x"));
}

#[test]
fn kind_is_matches_category_membership() {
    assert!(TK::StrongStart.is(TokenCategory::INLINE_MARKER));
    assert!(TK::Word.is(TokenCategory::PLAIN));
    assert!(TK::Punctuation.is(TokenCategory::PLAIN));
    assert!(!TK::Separator.is(TokenCategory::PLAIN));
}

#[test]
fn field_token() {
    assert_eq!(TK::Field.find_lexeme("\n:field1:\n"), Some(":field1:"));
    assert_eq!(TK::Field.find_lexeme(" :F_2: Some value"), Some(":F_2:"));
    assert_eq!(TK::Field.find_lexeme(" :F_2:Some value"), None);
    assert_eq!(TK::Field.find_lexeme("\n:F$x: "), None);
}

#[test]
fn token_as_tuple_gives_kind_and_text() {
    let token = rstu::token::Token::new(TK::Word, "hello");

    assert_eq!(token.as_tuple(), (TK::Word, "hello"));
}

#[test]
fn field_names_use_ascii_letters_digits_and_underscores_only() {
    assert_eq!(TK::Field.find_lexeme(" :name_1: x"), Some(":name_1:"));
    assert_eq!(TK::Field.find_lexeme(" :näme: x"), None);
    assert_eq!(TK::Field.find_lexeme(" :fé: x"), None);
}

#[test]
fn a_lexeme_is_the_match_without_its_context_characters() {
    assert_eq!(lexeme_of_match(" :F_2: rest", " :F_2: "), Some(":F_2:"));
    assert_eq!(lexeme_of_match("ab", "ab"), Some(""));
    assert_eq!(lexeme_of_match(" x ", "xyz"), None);
    assert_eq!(lexeme_of_match("abc", "abcd"), None);
    assert_eq!(lexeme_of_match("abc", "a"), None);
}
