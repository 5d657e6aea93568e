use rstu::lexer::tokenize;
use rstu::token::{Token, TokenKind, TokenKind as TK};

#[test]
fn tokenize_spaces_words() {
    let input = "Hello World\n";
    let expected = vec![
        Token::new(TK::BlankLine, "\n"),
        Token::new(TK::Word, "Hello"),
        Token::new(TK::Spaces, " "),
        Token::new(TK::Word, "World"),
        Token::new(TK::NewLine, "\n"),
        Token::new(TK::BlankLine, "\n"),
    ];

    assert_eq!(tokenize(input), expected);
}

#[test]
fn tokenize_treats_unmatched_input_as_literal_string() {
    let input = "abc\x07def\n";
    let expected = vec![
        Token::new(TK::BlankLine, "\n"),
        Token::new(TK::Word, "abc"),
        Token::new(TK::LiteralChar, "\x07"),
        Token::new(TK::Word, "def"),
        Token::new(TK::NewLine, "\n"),
        Token::new(TK::BlankLine, "\n"),
    ];

    assert_eq!(tokenize(input), expected);
}

#[test]
fn tokenize_converts_indents_to_relative_indents_and_dedents() {
    let input = "line_1\n    nested\n  dedented\n";
    let tokens = tokenize(input);
    let actual: Vec<(TokenKind, &str)> = tokens
        .iter()
        .map(|token| (token.kind, token.lexeme.as_str()))
        .collect();

    assert_eq!(
        actual,
        vec![
            (TK::BlankLine, "\n"),
            (TK::Word, "line_1"),
            (TK::NewLine, "\n"),
            (TK::Indent, "    "),
            (TK::Word, "nested"),
            (TK::NewLine, "\n"),
            (TK::Dedent, "  "),
            (TK::Word, "dedented"),
            (TK::NewLine, "\n"),
            (TK::BlankLine, "\n"),
            (TK::Dedent, "  ")
        ]
    );
}

#[test]
fn tokenize_emits_dedent_when_indented_block_returns_to_zero_indent() {
    let input = "line_1\n    nested\nplain\n";
    let tokens = tokenize(input);
    let actual: Vec<(TokenKind, &str)> = tokens
        .iter()
        .map(|token| (token.kind, token.lexeme.as_str()))
        .collect();

    assert_eq!(
        actual,
        vec![
            (TK::BlankLine, "\n"),
            (TK::Word, "line_1"),
            (TK::NewLine, "\n"),
            (TK::Indent, "    "),
            (TK::Word, "nested"),
            (TK::NewLine, "\n"),
            (TK::Dedent, "    "),
            (TK::Word, "plain"),
            (TK::NewLine, "\n"),
            (TK::BlankLine, "\n"),
        ]
    );
}

#[test]
fn tokenize_keeps_indentation_balanced_and_lexemes_nonempty() {
    // GIVEN text that indents twice and comes back in two steps
    let input = "a\n  b\n      c\n  d\ne\n";
    let tokens = tokenize(input);

    // THEN the indentation never drops below column zero and ends there
    let mut depth: i64 = 0;
    for token in &tokens {
        match token.kind {
            TK::Indent => depth += token.lexeme.chars().count() as i64,
            TK::Dedent => depth -= token.lexeme.chars().count() as i64,
            _ => {},
        }
        assert!(depth >= 0);
    }
    assert_eq!(depth, 0);

    // AND no token is empty
    assert!(tokens.iter().all(|token| !token.lexeme.is_empty()));
}
