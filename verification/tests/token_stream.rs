use rstu::token::{Token, TokenKind};
use rstu::token_stream::{tokens_without_kinds, TokenStream};

#[test]
fn token_stream_kind_at_returns_eof_past_the_end() {
    let stream = TokenStream::new(vec![Token::new(TokenKind::Word, "title")]);

    assert_eq!(stream.kind_at(0), TokenKind::Word);
    assert_eq!(stream.kind_at(1), TokenKind::EoF);
}

#[test]
fn token_stream_find_next_kind_matches_any_requested_kind() {
    let stream = TokenStream::new(vec![
        Token::new(TokenKind::Word, "title"),
        Token::new(TokenKind::Spaces, " "),
        Token::new(TokenKind::NewLine, "\n"),
    ]);

    let found = stream.find_next_kind_from(&[TokenKind::BlankLine, TokenKind::NewLine], 0);

    assert_eq!(found, Ok(2));
}

#[test]
fn token_stream_tokens_without_kinds_removes_requested_token_kinds() {
    let tokens = vec![
        Token::new(TokenKind::Indent, "   "),
        Token::new(TokenKind::Word, "hello"),
        Token::new(TokenKind::Indent, "   "),
        Token::new(TokenKind::Punctuation, "."),
    ];

    let filtered = tokens_without_kinds(&tokens, &[TokenKind::Indent]);

    assert_eq!(
        filtered,
        vec![
            Token::new(TokenKind::Word, "hello"),
            Token::new(TokenKind::Punctuation, "."),
        ]
    );
}

#[test]
fn kind_at_cursor_returns_eof_past_the_end() {
    let mut stream = TokenStream::new(vec![Token::new(TokenKind::Word, "title")]);

    assert_eq!(stream.kind_at_cursor(), TokenKind::Word);

    stream.consume_n(1);
    assert_eq!(stream.kind_at_cursor(), TokenKind::EoF);
}

#[test]
fn kind_peek_relative_looks_ahead_of_the_cursor() {
    let stream = TokenStream::new(vec![
        Token::new(TokenKind::Word, "title"),
        Token::new(TokenKind::NewLine, "\n"),
    ]);

    assert_eq!(stream.kind_peek_relative(1), TokenKind::NewLine);
    assert_eq!(stream.kind_peek_relative(5), TokenKind::EoF);
}

#[test]
fn kind_at_nextline_returns_the_kind_after_the_next_newline() {
    let stream = TokenStream::new(vec![
        Token::new(TokenKind::Word, "title"),
        Token::new(TokenKind::NewLine, "\n"),
        Token::new(TokenKind::Indent, "  "),
    ]);

    assert_eq!(stream.kind_at_nextline(), TokenKind::Indent);
}

#[test]
fn kind_at_nextline_returns_eof_when_no_newline_remains() {
    let stream = TokenStream::new(vec![Token::new(TokenKind::Word, "title")]);

    assert_eq!(stream.kind_at_nextline(), TokenKind::EoF);
}

#[test]
fn consume_returns_the_token_and_advances_the_cursor() {
    let mut stream = TokenStream::new(vec![
        Token::new(TokenKind::Word, "title"),
        Token::new(TokenKind::NewLine, "\n"),
    ]);

    assert_eq!(stream.consume(), Token::new(TokenKind::Word, "title"));
    assert_eq!(stream.cursor(), 1);
    assert_eq!(stream.consume(), Token::new(TokenKind::NewLine, "\n"));
    assert_eq!(stream.cursor(), 2);
    assert!(stream.is_at_end());

    // Consuming past the end stays at the boundary and yields a synthetic EoF token.
    assert_eq!(stream.consume(), Token::new(TokenKind::EoF, ""));
    assert_eq!(stream.cursor(), 2);
}

#[test]
fn consume_n_advances_the_cursor_by_n_and_saturates() {
    let mut stream = TokenStream::new(vec![
        Token::new(TokenKind::Word, "title"),
        Token::new(TokenKind::NewLine, "\n"),
    ]);

    stream.consume_n(1);
    assert_eq!(stream.cursor(), 1);

    stream.consume_n(10);
    assert_eq!(stream.cursor(), 2);
}

#[test]
fn take_at_undoes_insert_at() {
    let mut stream = TokenStream::new(vec![
        Token::new(TokenKind::Word, "a"),
        Token::new(TokenKind::Spaces, " "),
        Token::new(TokenKind::Word, "b"),
    ]);
    stream.set_cursor(2);

    stream.insert_at(1, Token::new(TokenKind::Indent, "  "));
    assert_eq!(stream.cursor(), 3);
    assert_eq!(stream.kind_at(1), TokenKind::Indent);

    let taken = stream.take_at(1);
    assert_eq!(taken, Token::new(TokenKind::Indent, "  "));
    assert_eq!(stream.cursor(), 2);
    assert_eq!(
        stream.tokens(),
        &[
            Token::new(TokenKind::Word, "a"),
            Token::new(TokenKind::Spaces, " "),
            Token::new(TokenKind::Word, "b"),
        ]
    );
}

#[test]
fn token_stream_token_at_nextline_gives_the_first_token_of_the_next_line() {
    let stream = TokenStream::new(vec![
        Token::new(TokenKind::Word, "first"),
        Token::new(TokenKind::NewLine, "\n"),
        Token::new(TokenKind::Word, "second"),
    ]);

    assert_eq!(stream.token_at_nextline(), Token::new(TokenKind::Word, "second"));
}

#[test]
fn token_stream_token_at_nextline_gives_end_of_input_on_the_last_line() {
    let stream = TokenStream::new(vec![
        Token::new(TokenKind::Word, "only"),
        Token::new(TokenKind::Spaces, " "),
    ]);

    assert_eq!(stream.token_at_nextline(), Token::new(TokenKind::EoF, ""));
}
