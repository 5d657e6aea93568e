use rstu::token::{Token, TokenKind};
use rstu::token_slice::{find_next_kind, skip_kinds, tokens_to_text, tokens_without_kinds, TokenSliceExt};

#[test]
fn token_slice_kind_at_returns_eof_past_the_end() {
    let tokens = [Token::new(TokenKind::Word, "title")];

    assert_eq!(tokens.kind_at(0), TokenKind::Word);
    assert_eq!(tokens.kind_at(1), TokenKind::Eof);
}

#[test]
fn token_at_returns_none_past_the_end() {
    let tokens = [Token::new(TokenKind::Word, "title")];

    assert!(tokens.token_at(0).is_some());
    assert!(tokens.token_at(1).is_none());
}

#[test]
fn token_slice_find_next_kind_matches_any_requested_kind() {
    let tokens = vec![
        Token::new(TokenKind::Word, "title"),
        Token::new(TokenKind::Spaces, " "),
        Token::new(TokenKind::NewLine, "\n"),
    ];

    let found = find_next_kind(
        &tokens,
        &[TokenKind::BlankLine, TokenKind::NewLine],
        0,
        None,
    );

    assert_eq!(found, Ok(2));
}

#[test]
fn find_next_kind_skips_the_requested_index() {
    let tokens = vec![
        Token::new(TokenKind::Word, "one"),
        Token::new(TokenKind::Spaces, " "),
        Token::new(TokenKind::Word, "two"),
        Token::new(TokenKind::BlankLine, "\n"),
    ];

    let found = find_next_kind(
        &tokens,
        &[TokenKind::BlankLine, TokenKind::Word],
        1,
        Some(2),
    );

    assert_eq!(found, Ok(3));
}

#[test]
fn skip_kinds_returns_first_non_matching_token_index() {
    let tokens = vec![
        Token::new(TokenKind::Spaces, " "),
        Token::new(TokenKind::NewLine, "\n"),
        Token::new(TokenKind::Word, "title"),
    ];

    let found = skip_kinds(&tokens, &[TokenKind::Spaces, TokenKind::NewLine], 0);

    assert_eq!(found, 2);
}

#[test]
fn skip_kinds_fails_when_remaining_tokens_all_match() {
    let tokens = vec![
        Token::new(TokenKind::Spaces, " "),
        Token::new(TokenKind::NewLine, "\n"),
    ];

    let next_index = skip_kinds(&tokens, &[TokenKind::Spaces, TokenKind::NewLine], 0);

    assert_eq!(next_index, 2);
}

#[test]
fn token_slice_tokens_without_kinds_removes_requested_token_kinds() {
    let tokens = vec![
        Token::new(TokenKind::Indent, "   "),
        Token::new(TokenKind::Word, "hello"),
        Token::new(TokenKind::Indent, "   "),
        Token::new(TokenKind::Punctuation, "."),
    ];

    let filtered = tokens_without_kinds(&tokens, &[TokenKind::Indent]);

    assert_eq!(
        filtered,
        vec![
            Token::new(TokenKind::Word, "hello"),
            Token::new(TokenKind::Punctuation, "."),
        ]
    );
}

#[test]
fn the_text_of_joined_tokens_is_their_texts_joined() {
    let a = vec![Token::new(TokenKind::Word, "one"), Token::new(TokenKind::Spaces, " ")];
    let b = vec![Token::new(TokenKind::Word, "two")];
    let joined: Vec<Token> = a.iter().chain(b.iter()).cloned().collect();

    assert_eq!(tokens_to_text(&[]), "");
    assert_eq!(tokens_to_text(&joined), tokens_to_text(&a) + &tokens_to_text(&b));
    assert_eq!(tokens_to_text(&b), "two");
}
