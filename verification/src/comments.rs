//! Comments: a `..` line that is not a directive, with the indented lines
//! that follow it.

use vstd::prelude::*;

use crate::ast::{empty_node, lemma_attribute_keys, unmarked, AstNode, AttrView, AttributeType, NodeClass, NodeView};
use crate::paragraph::{outcome, text_between, Parsed};
use crate::parser_errors::{ErrorKind, ParserError};
use crate::token::{Token, TokenKind};
use crate::token_slice::{view_kind, tokens_text_between};
use crate::token_stream::{TokenSeq, first_of_kinds, lemma_first_of_kinds_bound, lemma_first_of_kinds_first, lemma_weight_advance, lemma_weight_mono, lemma_weight_remove, weight, TokenStream};

verus! {

/// The comment that starts at the `..` at `c`: its text runs from after the
/// marker and the space to the end of its first line or, where the next line
/// is indented, to the end of the indented lines; the indentation token goes
/// out of the stream and its width becomes the `indent` attribute.
pub open spec fn spec_comment(ts: TokenSeq, c: int) -> Parsed {
    match first_of_kinds(ts, seq![TokenKind::NewLine], c) {
        None => (Err(ErrorKind::UnexpectedBlockEndError), ts, c),
        Some(i) => if view_kind(ts, i + 1) == TokenKind::Indent {
            let ts1 = ts.remove(i + 1);
            match first_of_kinds(ts1, seq![TokenKind::Dedent], c) {
                None => (Err(ErrorKind::UnexpectedBlockEndError), ts1, c),
                Some(j) => (
                    Ok(
                        NodeView {
                            attributes: Map::empty().insert(
                                "indent"@,
                                AttrView::Usize(ts[i + 1].1.len() as usize),
                            ).insert("text"@, AttrView::Str(text_between(ts1, c + 2, j + 1))),
                            ..empty_node(NodeClass::Comment)
                        },
                    ),
                    ts1,
                    j + 1,
                ),
            }
        } else {
            (
                Ok(
                    NodeView {
                        attributes: Map::empty().insert("text"@, AttrView::Str(text_between(ts, c + 2, i + 1))),
                        ..empty_node(NodeClass::Comment)
                    },
                ),
                ts,
                i + 1,
            )
        },
    }
}

/// Parses the comment that starts at the `..` at the cursor.
pub fn parse_comment(stream: &mut TokenStream) -> (r: Result<AstNode, ParserError>)
    ensures
        outcome(
            r,
            final(stream).spec_tokens(),
            final(stream).spec_cursor() as int,
            spec_comment(old(stream).spec_tokens(), old(stream).spec_cursor() as int),
        ),
{
    let ghost ts = stream.spec_tokens();
    let c = stream.cursor();
    let newline = vec![TokenKind::NewLine];
    assert(newline@ == seq![TokenKind::NewLine]);
    let mut index = match stream.find_next_kind(newline.as_slice()) {
        Ok(i) => i,
        Err(_) => {
            return Err(ParserError::UnexpectedBlockEndError);
        },
    };
    proof {
        lemma_first_of_kinds_bound(ts, seq![TokenKind::NewLine], c as int);
    }
    let mut comment = AstNode::new_ref(NodeClass::Comment);
    let total = stream.tokens().len();
    if stream.kind_at(index + 1) == TokenKind::Indent {
        let indent_token = stream.take_at(index + 1);
        comment.with_attr("indent", AttributeType::Usize(indent_token.lexeme.as_str().unicode_len()));
        let dedent = vec![TokenKind::Dedent];
        assert(dedent@ == seq![TokenKind::Dedent]);
        index = match stream.find_next_kind(dedent.as_slice()) {
            Ok(i) => i,
            Err(_) => {
                return Err(ParserError::UnexpectedBlockEndError);
            },
        };
        proof {
            lemma_first_of_kinds_bound(stream.spec_tokens(), seq![TokenKind::Dedent], c as int);
        }
    }
    let total = stream.tokens().len();
    let text = if c < index {
        tokens_text_between(stream.tokens(), c + 2, index + 1)
    } else {
        String::new()
    };
    comment.with_attr("text", AttributeType::String(text));
    stream.set_cursor(index + 1);
    Ok(comment)
}

/// A comment's text is everything it reads after the `..` and the space:
/// it ends at the end of its first line or, where the next line is
/// indented, at the first dedent after it, so every indented line belongs to
/// it.
pub proof fn law_comment_text_is_what_it_reads(ts: TokenSeq, c: int)
    requires
        0 <= c,
    ensures
        spec_comment(ts, c).0 matches Ok(n) ==> {
            let ts2 = spec_comment(ts, c).1;
            let c2 = spec_comment(ts, c).2;
            &&& c < c2 <= ts2.len()
            &&& n.attributes.contains_key("text"@)
            &&& n.attributes["text"@] == AttrView::Str(text_between(ts2, c + 2, c2))
            &&& (ts2[c2 - 1].0 == TokenKind::NewLine || ts2[c2 - 1].0 == TokenKind::Dedent)
            &&& (ts2[c2 - 1].0 == TokenKind::Dedent ==> forall|k: int| c <= k < c2 - 1 ==> #[trigger] ts2[k].0 != TokenKind::Dedent)
            &&& forall|i: int|
                c <= i < ts.len() && #[trigger] ts[i].0 == TokenKind::NewLine && (forall|k: int|
                    c <= k < i ==> ts[k].0 != TokenKind::NewLine) ==> if view_kind(ts, i + 1) == TokenKind::Indent {
                    ts2[c2 - 1].0 == TokenKind::Dedent && ts2 == ts.remove(i + 1)
                } else {
                    c2 == i + 1 && ts2 == ts
                }
        },
{
    lemma_first_of_kinds_first(ts, seq![TokenKind::NewLine], c);
    if let Some(i) = first_of_kinds(ts, seq![TokenKind::NewLine], c) {
        assert forall|i2: int|
            c <= i2 < ts.len() && #[trigger] ts[i2].0 == TokenKind::NewLine && (forall|k: int|
                c <= k < i2 ==> ts[k].0 != TokenKind::NewLine) implies i2 == i by {
            if i2 < i {
                assert(!seq![TokenKind::NewLine].contains(ts[i2].0));
                assert(seq![TokenKind::NewLine][0] == TokenKind::NewLine);
            } else if i2 > i {
                assert(seq![TokenKind::NewLine].contains(ts[i].0));
                assert(ts[i].0 == TokenKind::NewLine);
            }
        }
        if view_kind(ts, i + 1) == TokenKind::Indent {
            let ts1 = ts.remove(i + 1);
            lemma_first_of_kinds_first(ts1, seq![TokenKind::Dedent], c);
            if let Some(j) = first_of_kinds(ts1, seq![TokenKind::Dedent], c) {
                assert forall|k: int| c <= k < j implies #[trigger] ts1[k].0 != TokenKind::Dedent by {
                    assert(!seq![TokenKind::Dedent].contains(ts1[k].0));
                    if ts1[k].0 == TokenKind::Dedent {
                        assert(seq![TokenKind::Dedent][0] == TokenKind::Dedent);
                    }
                }
                assert(seq![TokenKind::Dedent].contains(ts1[j].0));
            }
        } else {
            assert(seq![TokenKind::NewLine].contains(ts[i].0));
        }
    }
}

/// No node of a comment carries a section marker.
pub proof fn lemma_comment_unmarked(ts: TokenSeq, c: int)
    ensures
        spec_comment(ts, c).0 matches Ok(n) ==> unmarked(n),
{
    lemma_attribute_keys();
}

/// A comment that starts inside the tokens leaves less weight to read.
pub proof fn lemma_comment_progress(ts: TokenSeq, c: int)
    requires
        0 <= c < ts.len(),
    ensures
        spec_comment(ts, c).0 is Ok ==> weight(spec_comment(ts, c).1, spec_comment(ts, c).2) < weight(ts, c),
{
    lemma_first_of_kinds_bound(ts, seq![TokenKind::NewLine], c);
    match first_of_kinds(ts, seq![TokenKind::NewLine], c) {
        None => {},
        Some(i) => if view_kind(ts, i + 1) == TokenKind::Indent {
            let ts1 = ts.remove(i + 1);
            lemma_first_of_kinds_bound(ts1, seq![TokenKind::Dedent], c);
            lemma_weight_remove(ts, c, i + 1);
            match first_of_kinds(ts1, seq![TokenKind::Dedent], c) {
                None => {},
                Some(j) => {
                    lemma_weight_advance(ts1, c, j + 1);
                },
            }
        } else {
            lemma_weight_advance(ts, c, i + 1);
        },
    }
}

} // verus!
