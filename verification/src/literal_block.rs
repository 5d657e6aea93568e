//! Literal blocks: the text after a `::` marker, either indented or quoted
//! line by line with `>`.

use vstd::prelude::*;

use crate::ast::{lemma_attribute_keys, lemma_unmarked_with_child, unmarked, with_child, AstNode, AttrView, AttributeType, NodeClass, NodeView};
use crate::paragraph::{after_consume, lexeme_at, node_with, outcome, text_between, Parsed};
use crate::parser_errors::{ErrorKind, ParserError};
use crate::text::ends_with_char;
use crate::token::{Token, TokenKind};
use crate::token_slice::{view_kind, tokens_text_between};
use crate::token_stream::{TokenSeq, first_of_kinds, lemma_first_of_kinds_bound, lemma_first_of_kinds_first, lemma_weight_advance, weight, TokenStream};

verus! {

/// Where indented literal text that starts at `c` ends: at the first blank
/// line, dedent or end of input.
pub open spec fn indented_end(ts: TokenSeq, c: int) -> int {
    match first_of_kinds(ts, seq![TokenKind::BlankLine, TokenKind::Dedent, TokenKind::EoF], c) {
        Some(i) => i,
        None => if c < ts.len() {
            ts.len() as int
        } else {
            c
        },
    }
}

/// `text` with a newline added where it does not end with one.
pub open spec fn newline_terminated(text: Seq<char>) -> Seq<char> {
    if text.len() > 0 && text.last() == '\n' {
        text
    } else {
        text.push('\n')
    }
}

/// Reads quoted literal lines from `c` on, where `at_line_start` says
/// whether `c` starts a line: each line must start with `>` and not be
/// indented. Gives where the text ends (at a blank line or the end of
/// input), or the message of the first fault and where it lies.
pub open spec fn quoted_scan(ts: TokenSeq, c: int, at_line_start: bool) -> (Option<Seq<char>>, int)
    decreases ts.len() - c,
{
    let k = view_kind(ts, c);
    if k == TokenKind::BlankLine || k == TokenKind::EoF || c < 0 {
        (None, c)
    } else if at_line_start && k == TokenKind::Indent {
        (Some("unexpected indentation in quoted literal block"@), c)
    } else if at_line_start && lexeme_at(ts, c) != ">"@ {
        (Some("inconsistent quoted literal block"@), c)
    } else {
        quoted_scan(ts, c + 1, k == TokenKind::NewLine)
    }
}

/// The message for a literal marker with no text after it.
pub open spec fn missing_text() -> ErrorKind {
    ErrorKind::LiteralBlockError { message: "literal block expected after literal marker"@ }
}

/// The literal block that the `::` marker at `c` opens. A marker escaped by
/// a backslash, or followed by indented text without a blank line in
/// between, is refused.
pub open spec fn spec_literal_block(ts: TokenSeq, c: int) -> Parsed {
    let before = if c >= 1 {
        c - 1
    } else {
        0
    };
    let l = lexeme_at(ts, before);
    if l.len() > 0 && l.last() == '\\' {
        (Err(ErrorKind::LiteralBlockError { message: "escaped literal marker"@ }), ts, c)
    } else {
        let c1 = after_consume(ts, c);
        let c2 = if view_kind(ts, c1) == TokenKind::Spaces {
            after_consume(ts, c1)
        } else {
            c1
        };
        let c3 = if view_kind(ts, c2) == TokenKind::NewLine {
            after_consume(ts, c2)
        } else {
            c2
        };
        if view_kind(ts, c3) == TokenKind::Indent {
            (Err(ErrorKind::LiteralBlockError { message: "literal block requires a blank line"@ }), ts, c3)
        } else {
            let c4 = if view_kind(ts, c3) == TokenKind::BlankLine {
                after_consume(ts, c3)
            } else {
                c3
            };
            let base = node_with(NodeClass::LiteralBlock, "xml:space"@, "preserve"@);
            if view_kind(ts, c4) == TokenKind::Indent {
                let c5 = after_consume(ts, c4);
                let node = NodeView {
                    attributes: base.attributes.insert("indent"@, AttrView::Usize(lexeme_at(ts, c4).len() as usize)),
                    ..base
                };
                let e = indented_end(ts, c5);
                let text = text_between(ts, c5, e);
                if text.len() == 0 {
                    (Err(missing_text()), ts, e)
                } else {
                    (Ok(with_child(node, node_with(NodeClass::PlainText, "text"@, newline_terminated(text)))), ts, e)
                }
            } else if view_kind(ts, c4) != TokenKind::EoF {
                match quoted_scan(ts, c4, true) {
                    (Some(m), p) => (Err(ErrorKind::LiteralBlockError { message: m }), ts, p),
                    (None, e) => {
                        let text = text_between(ts, c4, e);
                        if text.len() == 0 {
                            (Err(missing_text()), ts, e)
                        } else {
                            (Ok(with_child(base, node_with(NodeClass::PlainText, "text"@, text))), ts, e)
                        }
                    },
                }
            } else {
                (Err(missing_text()), ts, c4)
            }
        }
    }
}

/// Whether a token kind ends indented literal text: a blank line, a dedent
/// or the end of input.
pub open spec fn ends_literal(k: TokenKind) -> bool {
    k == TokenKind::BlankLine || k == TokenKind::Dedent || k == TokenKind::EoF
}

/// Indented literal text runs over line breaks: from `c` it ends only at
/// the first blank line, dedent or end of input.
pub proof fn law_indented_text_ends_at_blank_or_dedent(ts: TokenSeq, c: int)
    requires
        0 <= c <= ts.len(),
    ensures
        c <= indented_end(ts, c) <= ts.len(),
        forall|k: int| c <= k < indented_end(ts, c) ==> !ends_literal(#[trigger] ts[k].0),
        indented_end(ts, c) < ts.len() ==> ends_literal(ts[indented_end(ts, c)].0),
{
    let kinds = seq![TokenKind::BlankLine, TokenKind::Dedent, TokenKind::EoF];
    lemma_first_of_kinds_first(ts, kinds, c);
    assert forall|k: TokenKind| kinds.contains(k) <==> ends_literal(k) by {
        if ends_literal(k) {
            if k == TokenKind::BlankLine {
                assert(kinds[0] == k);
            } else if k == TokenKind::Dedent {
                assert(kinds[1] == k);
            } else {
                assert(kinds[2] == k);
            }
        }
    }
}

/// An indented literal block holds, as its text, every token after its
/// indentation token up to the first blank line, dedent or end of input:
/// all its lines, line breaks included, with a final line break.
pub proof fn law_indented_literal_block_holds_every_line(ts: TokenSeq, c: int)
    requires
        0 <= c,
    ensures
        spec_literal_block(ts, c).0 matches Ok(n) ==> (n.attributes.contains_key("indent"@) ==> {
            let e = spec_literal_block(ts, c).2;
            &&& spec_literal_block(ts, c).1 == ts
            &&& n.children.len() == 1
            &&& exists|s: int|
                c < s <= e && ts[s - 1].0 == TokenKind::Indent && n.children[0].attributes["text"@] == AttrView::Str(
                    newline_terminated(text_between(ts, s, e)),
                ) && forall|k: int| s <= k < e ==> !ends_literal(#[trigger] ts[k].0)
            &&& e < ts.len() ==> ends_literal(ts[e].0)
        }),
{
    reveal_strlit("indent");
    reveal_strlit("xml:space");
    let c1 = after_consume(ts, c);
    let c2 = if view_kind(ts, c1) == TokenKind::Spaces {
        after_consume(ts, c1)
    } else {
        c1
    };
    let c3 = if view_kind(ts, c2) == TokenKind::NewLine {
        after_consume(ts, c2)
    } else {
        c2
    };
    let c4 = if view_kind(ts, c3) == TokenKind::BlankLine {
        after_consume(ts, c3)
    } else {
        c3
    };
    if view_kind(ts, c4) == TokenKind::Indent {
        let c5 = after_consume(ts, c4);
        assert(c5 == c4 + 1);
        law_indented_text_ends_at_blank_or_dedent(ts, c5);
        assert(c < c5) by {
            assert(c <= c1 <= c2 <= c3 <= c4);
        }
        let e = indented_end(ts, c5);
        let text = text_between(ts, c5, e);
        assert(ts[c5 - 1].0 == TokenKind::Indent);
        let child = node_with(NodeClass::PlainText, "text"@, newline_terminated(text));
        assert(child.attributes["text"@] == AttrView::Str(newline_terminated(text)));
        assert(forall|k: int| c5 <= k < e ==> !ends_literal(#[trigger] ts[k].0));
        if let (Ok(n), ts2, e2) = spec_literal_block(ts, c) {
            assert(ts2 == ts && e2 == e);
            assert(n.children.len() == 1);
            assert(n.children[0] == child);
            assert(c < c5 <= e && ts[c5 - 1].0 == TokenKind::Indent && n.children[0].attributes["text"@]
                == AttrView::Str(newline_terminated(text_between(ts, c5, e))) && forall|k: int|
                c5 <= k < e ==> !ends_literal(#[trigger] ts[k].0));
        }
    } else if view_kind(ts, c4) != TokenKind::EoF {
        assert("indent"@.len() != "xml:space"@.len());
        assert(!node_with(NodeClass::LiteralBlock, "xml:space"@, "preserve"@).attributes.contains_key("indent"@));
    }
}

/// No node of a literal block carries a section marker.
pub proof fn lemma_literal_unmarked(ts: TokenSeq, c: int)
    ensures
        spec_literal_block(ts, c).0 matches Ok(n) ==> unmarked(n),
{
    lemma_attribute_keys();
    let c1 = after_consume(ts, c);
    let c2 = if view_kind(ts, c1) == TokenKind::Spaces {
        after_consume(ts, c1)
    } else {
        c1
    };
    let c3 = if view_kind(ts, c2) == TokenKind::NewLine {
        after_consume(ts, c2)
    } else {
        c2
    };
    let c4 = if view_kind(ts, c3) == TokenKind::BlankLine {
        after_consume(ts, c3)
    } else {
        c3
    };
    let base = node_with(NodeClass::LiteralBlock, "xml:space"@, "preserve"@);
    assert(unmarked(base));
    if view_kind(ts, c4) == TokenKind::Indent {
        let c5 = after_consume(ts, c4);
        let node = NodeView {
            attributes: base.attributes.insert("indent"@, AttrView::Usize(lexeme_at(ts, c4).len() as usize)),
            ..base
        };
        let text = text_between(ts, c5, indented_end(ts, c5));
        assert(unmarked(node));
        lemma_unmarked_with_child(node, node_with(NodeClass::PlainText, "text"@, newline_terminated(text)));
    } else {
        let e = quoted_scan(ts, c4, true).1;
        lemma_unmarked_with_child(base, node_with(NodeClass::PlainText, "text"@, text_between(ts, c4, e)));
    }
}

proof fn lemma_quoted_scan(ts: TokenSeq, c: int, at_line_start: bool)
    ensures
        quoted_scan(ts, c, at_line_start).1 >= c,
        0 <= c <= ts.len() ==> quoted_scan(ts, c, at_line_start).1 <= ts.len(),
    decreases ts.len() - c,
{
    let k = view_kind(ts, c);
    if k == TokenKind::BlankLine || k == TokenKind::EoF || c < 0 {
    } else if at_line_start && k == TokenKind::Indent {
    } else if at_line_start && lexeme_at(ts, c) != ">"@ {
    } else {
        lemma_quoted_scan(ts, c + 1, k == TokenKind::NewLine);
    }
}

fn literal_error(message: &str) -> (e: ParserError)
    ensures
        e@ == (ErrorKind::LiteralBlockError { message: message@ }),
{
    ParserError::LiteralBlockError { message: message.to_owned() }
}

/// Reads indented literal text up to a blank line, dedent or end of input
/// and adds it to `block`; the text ends with a newline.
fn append_indented_content(stream: &mut TokenStream, block: &mut AstNode) -> (r: Result<(), ParserError>)
    ensures
        final(stream).spec_tokens() == old(stream).spec_tokens(),
        final(stream).spec_cursor() == indented_end(old(stream).spec_tokens(), old(stream).spec_cursor() as int),
        ({
            let text = text_between(
                old(stream).spec_tokens(),
                old(stream).spec_cursor() as int,
                final(stream).spec_cursor() as int,
            );
            match r {
                Ok(()) => text.len() > 0 && final(block)@ == with_child(
                    old(block)@,
                    node_with(NodeClass::PlainText, "text"@, newline_terminated(text)),
                ),
                Err(e) => text.len() == 0 && e@ == missing_text(),
            }
        }),
{
    let ghost ts = stream.spec_tokens();
    let ghost c0 = stream.spec_cursor() as int;
    let ends = vec![TokenKind::BlankLine, TokenKind::Dedent, TokenKind::EoF];
    assert(ends@ == seq![TokenKind::BlankLine, TokenKind::Dedent, TokenKind::EoF]);
    let total = stream.tokens().len();
    let end = match stream.find_next_kind(ends.as_slice()) {
        Ok(i) => i,
        Err(_) => if stream.cursor() < total {
            total
        } else {
            stream.cursor()
        },
    };
    proof {
        lemma_first_of_kinds_bound(ts, ends@, c0);
    }
    let start = stream.cursor();
    let mut text = if start <= end && end <= total {
        tokens_text_between(stream.tokens(), start, end)
    } else {
        String::new()
    };
    let ghost raw = text@;
    assert(raw == text_between(ts, c0, end as int));
    stream.set_cursor(end);
    proof {
        reveal_strlit("literal block expected after literal marker");
    }
    if text.as_str().unicode_len() == 0 {
        return Err(literal_error("literal block expected after literal marker"));
    }
    if !ends_with_char(text.as_str(), '\n') {
        proof {
            reveal_strlit("\n");
        }
        text.append("\n");
        assert(text@ =~= raw.push('\n'));
    }
    assert(text@ == newline_terminated(raw));
    let content = {
        let mut n = AstNode::new_ref(NodeClass::PlainText);
        n.with_attr("text", AttributeType::String(text));
        n
    };
    AstNode::push_child(block, content);
    Ok(())
}

/// Reads quoted literal lines up to a blank line or the end of input and
/// adds their text to `block`.
fn append_quoted_content(stream: &mut TokenStream, block: &mut AstNode) -> (r: Result<(), ParserError>)
    ensures
        final(stream).spec_tokens() == old(stream).spec_tokens(),
        final(stream).spec_cursor() == quoted_scan(old(stream).spec_tokens(), old(stream).spec_cursor() as int, true).1,
        ({
            let scan = quoted_scan(old(stream).spec_tokens(), old(stream).spec_cursor() as int, true);
            let text = text_between(old(stream).spec_tokens(), old(stream).spec_cursor() as int, scan.1);
            match scan.0 {
                Some(m) => r matches Err(e) && e@ == (ErrorKind::LiteralBlockError { message: m }),
                None => match r {
                    Ok(()) => text.len() > 0 && final(block)@ == with_child(
                        old(block)@,
                        node_with(NodeClass::PlainText, "text"@, text),
                    ),
                    Err(e) => text.len() == 0 && e@ == missing_text(),
                },
            }
        }),
{
    let ghost ts = stream.spec_tokens();
    let ghost c0 = stream.spec_cursor() as int;
    let total = stream.tokens().len();
    let mut text = String::new();
    let mut at_line_start = true;
    proof {
        reveal_strlit("unexpected indentation in quoted literal block");
        reveal_strlit("inconsistent quoted literal block");
        reveal_strlit(">");
        if c0 <= ts.len() {
            assert(ts.subrange(c0, c0) =~= seq![]);
        }
    }
    while stream.kind_at_cursor() != TokenKind::BlankLine && stream.kind_at_cursor() != TokenKind::EoF
        invariant
            stream.spec_tokens() == ts,
            ts == old(stream).spec_tokens(),
            c0 == old(stream).spec_cursor(),
            total == ts.len(),
            0 <= c0,
            c0 <= stream.spec_cursor() <= ts.len() || stream.spec_cursor() == c0,
            quoted_scan(ts, c0, true) == quoted_scan(ts, stream.spec_cursor() as int, at_line_start),
            text@ == text_between(ts, c0, stream.spec_cursor() as int),
        decreases ts.len() - stream.spec_cursor(),
    {
        let c = stream.cursor();
        assert(c < ts.len());
        if at_line_start {
            if stream.kind_at_cursor() == TokenKind::Indent {
                return Err(literal_error("unexpected indentation in quoted literal block"));
            }
            if !crate::text::str_eq(stream.tokens()[c].lexeme.as_str(), ">") {
                return Err(literal_error("inconsistent quoted literal block"));
            }
        }
        let token = stream.consume();
        at_line_start = token.kind == TokenKind::NewLine;
        text.append(token.lexeme.as_str());
        proof {
            assert(ts.subrange(c0, c + 1) =~= ts.subrange(c0, c as int).push(ts[c as int]));
            assert(ts.subrange(c0, c + 1).drop_last() =~= ts.subrange(c0, c as int));
            assert(text_between(ts, c0, c + 1) == text_between(ts, c0, c as int) + ts[c as int].1);
        }
    }
    proof {
        reveal_strlit("literal block expected after literal marker");
    }
    if text.as_str().unicode_len() == 0 {
        return Err(literal_error("literal block expected after literal marker"));
    }
    let content = {
        let mut n = AstNode::new_ref(NodeClass::PlainText);
        n.with_attr("text", AttributeType::String(text));
        n
    };
    AstNode::push_child(block, content);
    Ok(())
}

/// Parses the literal block that the `::` marker at the cursor opens.
pub fn parse_literal_block(stream: &mut TokenStream) -> (r: Result<AstNode, ParserError>)
    ensures
        outcome(
            r,
            final(stream).spec_tokens(),
            final(stream).spec_cursor() as int,
            spec_literal_block(old(stream).spec_tokens(), old(stream).spec_cursor() as int),
        ),
{
    let ghost ts = stream.spec_tokens();
    let c = stream.cursor();
    let total = stream.tokens().len();
    let before = c.saturating_sub(1);
    proof {
        reveal_strlit("escaped literal marker");
        reveal_strlit("literal block requires a blank line");
        reveal_strlit("literal block expected after literal marker");
    }
    if before < total && ends_with_char(stream.tokens()[before].lexeme.as_str(), '\\') {
        return Err(literal_error("escaped literal marker"));
    }
    let _marker = stream.consume();
    let mut block = AstNode::new_ref(NodeClass::LiteralBlock);
    block.with_attr("xml:space", AttributeType::from_str("preserve"));
    if stream.kind_at_cursor() == TokenKind::Spaces {
        stream.consume();
    }
    if stream.kind_at_cursor() == TokenKind::NewLine {
        stream.consume();
    }
    if stream.kind_at_cursor() == TokenKind::BlankLine {
        stream.consume();
    } else if stream.kind_at_cursor() == TokenKind::Indent {
        return Err(literal_error("literal block requires a blank line"));
    }
    if stream.kind_at_cursor() == TokenKind::Indent {
        let indent = stream.consume().lexeme.as_str().unicode_len();
        block.with_attr("indent", AttributeType::Usize(indent));
        match append_indented_content(stream, &mut block) {
            Ok(()) => {},
            Err(e) => {
                return Err(e);
            },
        }
    } else if stream.kind_at_cursor() != TokenKind::EoF {
        match append_quoted_content(stream, &mut block) {
            Ok(()) => {},
            Err(e) => {
                return Err(e);
            },
        }
    } else {
        return Err(literal_error("literal block expected after literal marker"));
    }
    Ok(block)
}

/// A literal block that starts inside the tokens leaves less weight to read.
pub proof fn lemma_literal_progress(ts: TokenSeq, c: int)
    requires
        0 <= c < ts.len(),
    ensures
        spec_literal_block(ts, c).0 is Ok ==> spec_literal_block(ts, c).1 == ts && weight(
            ts,
            spec_literal_block(ts, c).2,
        ) < weight(ts, c),
{
    let r = spec_literal_block(ts, c);
    if r.0 is Ok {
        let c1 = after_consume(ts, c);
        let c2 = if view_kind(ts, c1) == TokenKind::Spaces {
            after_consume(ts, c1)
        } else {
            c1
        };
        let c3 = if view_kind(ts, c2) == TokenKind::NewLine {
            after_consume(ts, c2)
        } else {
            c2
        };
        let c4 = if view_kind(ts, c3) == TokenKind::BlankLine {
            after_consume(ts, c3)
        } else {
            c3
        };
        assert(c < c1 <= c2 <= c3 <= c4 <= ts.len());
        if view_kind(ts, c4) == TokenKind::Indent {
            let c5 = after_consume(ts, c4);
            lemma_first_of_kinds_bound(ts, seq![TokenKind::BlankLine, TokenKind::Dedent, TokenKind::EoF], c5);
            assert(indented_end(ts, c5) >= c5);
        } else {
            lemma_quoted_scan(ts, c4, true);
        }
        lemma_weight_advance(ts, c, r.2);
    }
}

} // verus!
