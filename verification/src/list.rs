//! Preparing the stream for a list item: after the marker the item's text is
//! given the indentation tokens that make it a block of its own.

use vstd::prelude::*;

use crate::lexer::spaces_seq;
use crate::lexer::spaces;
use crate::parser_errors::{ErrorKind, ParserError};
use crate::token::{Token, TokenKind};
use crate::token_slice::view_kind;
use crate::token_stream::{first_of_kinds, lemma_first_of_kinds_bound, lemma_weight_insert, lemma_weight_remove, weight, TokenSeq, TokenStream};

verus! {

/// The kinds of the line after a one-line item that end the item: another
/// list marker or field, a blank line, a dedent, the end of input.
pub open spec fn item_end_kind(k: TokenKind) -> bool {
    k == TokenKind::Field || k == TokenKind::BulletListMarker || k == TokenKind::EnumeratedListMarker
        || k == TokenKind::EoF || k == TokenKind::Dedent || k == TokenKind::BlankLine
}

/// Where the indented text of an item starts, if it has one: on the next
/// line, or on the line after a blank line.
pub open spec fn indent_ahead(ts: TokenSeq, next_line: int) -> Option<int> {
    if view_kind(ts, next_line) == TokenKind::Indent {
        Some(next_line)
    } else if view_kind(ts, next_line) == TokenKind::BlankLine && view_kind(ts, next_line + 1) == TokenKind::Indent {
        Some(next_line + 1)
    } else {
        None
    }
}

/// How the stream is prepared for the item whose text starts at `c`, where
/// the item's body is indented by `dedent_len` relative to the list:
/// - where the item goes on in indented lines, their indentation token is
///   moved to the cursor; an indentation deeper than `dedent_len` is split
///   into one of `dedent_len` at the cursor and one of the rest where the
///   indented lines start;
/// - where the item is one line long and the next line ends the item, an
///   indentation of `dedent_len` is put at the cursor and a dedent of the
///   same width at the start of the next line;
/// - otherwise the list is not closed properly.
/// The cursor stays where it was.
pub open spec fn spec_prepare(ts: TokenSeq, c: int, dedent_len: usize) -> (Result<(), ErrorKind>, TokenSeq, int) {
    match first_of_kinds(ts, seq![TokenKind::NewLine], c) {
        None => (Err(ErrorKind::UnexpectedBlockEndError), ts, c),
        Some(nl) => {
            let next_line = nl + 1;
            match indent_ahead(ts, next_line) {
                Some(ii) => {
                    let it = ts[ii];
                    let ts1 = ts.remove(ii);
                    if it.1.len() <= dedent_len {
                        (Ok(()), ts1.insert(c, it), c)
                    } else {
                        (
                            Ok(()),
                            ts1.insert(c, (TokenKind::Indent, spaces_seq(dedent_len as nat))).insert(
                                ii + 1,
                                (TokenKind::Indent, spaces_seq((it.1.len() - dedent_len) as nat)),
                            ),
                            c,
                        )
                    }
                },
                None => if item_end_kind(view_kind(ts, next_line)) {
                    (
                        Ok(()),
                        ts.insert(c, (TokenKind::Indent, spaces_seq(dedent_len as nat))).insert(
                            next_line + 1,
                            (TokenKind::Dedent, spaces_seq(dedent_len as nat)),
                        ),
                        c,
                    )
                } else {
                    (Err(ErrorKind::ListEndError), ts, c)
                },
            }
        },
    }
}

/// Preparing an item adds at most two indentation tokens' weight to what is
/// left to read.
pub proof fn lemma_prepare_weight(ts: TokenSeq, c: int, dedent_len: usize)
    requires
        0 <= c,
    ensures
        weight(spec_prepare(ts, c, dedent_len).1, spec_prepare(ts, c, dedent_len).2) <= weight(ts, c) + 2,
{
    lemma_first_of_kinds_bound(ts, seq![TokenKind::NewLine], c);
    match first_of_kinds(ts, seq![TokenKind::NewLine], c) {
        None => {},
        Some(nl) => {
            let next_line = nl + 1;
            match indent_ahead(ts, next_line) {
                Some(ii) => {
                    let it = ts[ii];
                    let ts1 = ts.remove(ii);
                    lemma_weight_remove(ts, c, ii);
                    if it.1.len() <= dedent_len {
                        lemma_weight_insert(ts1, c, c, it);
                    } else {
                        let t1 = (TokenKind::Indent, spaces_seq(dedent_len as nat));
                        lemma_weight_insert(ts1, c, c, t1);
                        lemma_weight_insert(
                            ts1.insert(c, t1),
                            c,
                            ii + 1,
                            (TokenKind::Indent, spaces_seq((it.1.len() - dedent_len) as nat)),
                        );
                    }
                },
                None => if item_end_kind(view_kind(ts, next_line)) {
                    let t1 = (TokenKind::Indent, spaces_seq(dedent_len as nat));
                    if c <= ts.len() {
                        lemma_weight_insert(ts, c, c, t1);
                        if next_line + 1 <= ts.len() + 1 {
                            lemma_weight_insert(
                                ts.insert(c, t1),
                                c,
                                next_line + 1,
                                (TokenKind::Dedent, spaces_seq(dedent_len as nat)),
                            );
                        }
                    }
                },
            }
        },
    }
}

/// Prepares the stream for the list item whose text starts at the cursor.
pub fn prepare_item_block(stream: &mut TokenStream, dedent_len: usize) -> (r: Result<(), ParserError>)
    ensures
        ({
            let expected = spec_prepare(old(stream).spec_tokens(), old(stream).spec_cursor() as int, dedent_len);
            &&& final(stream).spec_tokens() == expected.1
            &&& final(stream).spec_cursor() == expected.2
            &&& match r {
                Ok(()) => expected.0 is Ok,
                Err(e) => expected.0 == Err::<(), ErrorKind>(e@),
            }
        }),
{
    let ghost ts = stream.spec_tokens();
    let newline = vec![TokenKind::NewLine];
    assert(newline@ == seq![TokenKind::NewLine]);
    let nl = match stream.find_next_kind(newline.as_slice()) {
        Ok(i) => i,
        Err(_) => {
            return Err(ParserError::UnexpectedBlockEndError);
        },
    };
    proof {
        lemma_first_of_kinds_bound(ts, seq![TokenKind::NewLine], stream.spec_cursor() as int);
    }
    let total = stream.tokens().len();
    let next_line = nl + 1;
    let indent_index = if stream.kind_at(next_line) == TokenKind::Indent {
        Some(next_line)
    } else if stream.kind_at(next_line) == TokenKind::BlankLine && stream.kind_at(next_line + 1) == TokenKind::Indent {
        Some(next_line + 1)
    } else {
        None
    };
    match indent_index {
        Some(ii) => {
            let indent_token = stream.take_at(ii);
            let cursor = stream.cursor();
            let width = indent_token.lexeme.as_str().unicode_len();
            if width <= dedent_len {
                stream.insert_at(cursor, indent_token);
            } else {
                stream.insert_at(cursor, Token::from_string(TokenKind::Indent, spaces(dedent_len)));
                stream.insert_at(ii + 1, Token::from_string(TokenKind::Indent, spaces(width - dedent_len)));
            }
            stream.set_cursor(cursor);
        },
        None => {
            let k = stream.kind_at(next_line);
            if k == TokenKind::Field || k == TokenKind::BulletListMarker || k == TokenKind::EnumeratedListMarker
                || k == TokenKind::EoF || k == TokenKind::Dedent || k == TokenKind::BlankLine {
                let cursor = stream.cursor();
                stream.insert_at(cursor, Token::from_string(TokenKind::Indent, spaces(dedent_len)));
                stream.set_cursor(cursor);
                let grown = stream.tokens().len();
                stream.insert_at(next_line + 1, Token::from_string(TokenKind::Dedent, spaces(dedent_len)));
            } else {
                return Err(ParserError::ListEndError);
            }
        },
    }
    Ok(())
}

} // verus!
