//! Blocks and the body elements inside them: paragraphs, comments,
//! directives, lists and literal blocks. The parsers here call one
//! another: a list item holds a block, a block holds lists and directives, a
//! directive holds a block.
//!
//! Each parser is stated as a function from the tokens and the cursor to its
//! result, the tokens afterwards (list items and blocks insert indentation
//! tokens) and the cursor. Termination rests on the weight of what is left
//! to read: every step that repeats reads more weight than it inserts.

use vstd::prelude::*;

use crate::ast::{
    empty_node, lemma_attribute_keys, lemma_unmarked_with_child, unmarked, with_child, AstNode, AttrView, AttributeType,
    NodeClass, NodeView,
};
use crate::comments::{lemma_comment_progress, lemma_comment_unmarked, parse_comment, spec_comment};
use crate::lexer::{spaces, spaces_seq};
use crate::list::{lemma_prepare_weight, prepare_item_block, spec_prepare};
use crate::list_enum_helpers::{
    enumerator_parts, enumerator_type, enumerator_value, resolve_enumerator_type, spec_enumerator_parts,
    spec_enumerator_type, spec_enumerator_value, spec_resolve_enumerator_type, EnumMarkerType,
};
use crate::literal_block::{lemma_literal_progress, lemma_literal_unmarked, parse_literal_block, spec_literal_block};
use crate::paragraph::{
    lemma_paragraph_progress, lemma_paragraph_unmarked, lexeme_at, node_with, outcome, parse_paragraph, spec_paragraph,
    text_between, Parsed,
};
use crate::parser_errors::{ErrorKind, ParserError};
use crate::text::spec_trim;
use crate::token::{spec_token_name, Token, TokenCategory, TokenKind};
use crate::token_slice::{tokens_text_between, view_kind};
use crate::token_stream::{
    first_of_kinds, lemma_first_of_kinds_bound, lemma_weight_advance, lemma_weight_insert, lemma_weight_mono, lemma_weight_step,
    line_end_at, weight, TokenSeq, TokenStream,
};

verus! {

/// `n` with the attribute `key` set to `value`.
pub open spec fn with_attr(n: NodeView, key: Seq<char>, value: AttrView) -> NodeView {
    NodeView { attributes: n.attributes.insert(key, value), ..n }
}

/// The kinds that open a body element inside a block.
pub open spec fn body_element_kinds() -> Seq<TokenKind> {
    seq![
        TokenKind::DoubleDot,
        TokenKind::BulletListMarker,
        TokenKind::EnumeratedListMarker,
        TokenKind::Field,
        TokenKind::DoubleColon,
    ]
}

/// The kinds that tell what a `..` line is.
pub open spec fn directive_like_kinds() -> Seq<TokenKind> {
    seq![
        TokenKind::NewLine,
        TokenKind::DoubleColon,
        TokenKind::FootnoteReference,
        TokenKind::HyperlinkReferenceEnd,
        TokenKind::SubstitutionReference,
    ]
}

/// The name of a numbering style as it is recorded on a list.
pub open spec fn enumtype_name(t: EnumMarkerType) -> Seq<char> {
    match t {
        EnumMarkerType::Arabic => "arabic"@,
        EnumMarkerType::Upperalpha => "upperalpha"@,
        EnumMarkerType::Loweralpha => "loweralpha"@,
        EnumMarkerType::Upperroman => "upperroman"@,
        EnumMarkerType::Lowerroman => "lowerroman"@,
    }
}

/// The name of a field marker `:name:`.
pub open spec fn field_name(l: Seq<char>) -> Option<Seq<char>> {
    if l.len() >= 2 && l[0] == ':' && l[l.len() - 1] == ':' {
        Some(l.subrange(1, l.len() - 1))
    } else {
        None
    }
}

/// `a + b`, or `usize::MAX` where that does not fit.
pub open spec fn add_capped(a: usize, b: int) -> usize {
    if a + b <= usize::MAX {
        (a + b) as usize
    } else {
        usize::MAX
    }
}

/// The result of a parser with `f` applied to the node where it succeeded.
pub open spec fn map_node(p: Parsed, f: spec_fn(NodeView) -> NodeView) -> Parsed {
    match p.0 {
        Ok(n) => (Ok(f(n)), p.1, p.2),
        Err(e) => (Err(e), p.1, p.2),
    }
}

/// The block that starts at `c`: an indentation token there opens it and
/// gives its `indent` attribute.
pub open spec fn spec_block(ts: TokenSeq, c: int) -> Parsed
    decreases weight(ts, c), 5int,
{
    if view_kind(ts, c) == TokenKind::Indent {
        let width = ts[c].1.len();
        let block = with_attr(empty_node(NodeClass::Block), "indent"@, AttrView::Usize(width as usize));
        proof {
            lemma_weight_step(ts, c);
        }
        block_loop(block, width, ts, c + 1)
    } else {
        block_loop(empty_node(NodeClass::Block), 0, ts, c)
    }
}

/// The rest of a block with indentation `indent`, from `c` on, where `block`
/// holds what was read so far. Paragraphs and body elements go into the
/// block, and blank lines before indented text or words are passed over; a
/// dedent ends it, and where
/// the dedent does not undo the block's indentation exactly, the difference
/// is put back into the stream as an indentation change for the enclosing
/// block. Anything else ends the block too.
pub open spec fn block_loop(block: NodeView, indent: nat, ts: TokenSeq, c: int) -> Parsed
    decreases weight(ts, c), 4int,
{
    let k = view_kind(ts, c);
    let next = view_kind(ts, line_end_at(ts, c) + 1);
    if c < 0 {
        (Ok(block), ts, c)
    } else if k == TokenKind::Word || k == TokenKind::NewLine {
        let (r, c2) = spec_paragraph(ts, c);
        match r {
            Err(e) => (Err(e), ts, c2),
            Ok(p) => {
                proof {
                    lemma_paragraph_progress(ts, c);
                    lemma_weight_advance(ts, c, c2);
                }
                block_loop(with_child(block, p), indent, ts, c2)
            },
        }
    } else if k == TokenKind::BlankLine && (next == TokenKind::Indent || next == TokenKind::Dedent || next
        == TokenKind::Word) {
        proof {
            lemma_weight_advance(ts, c, c + 1);
        }
        block_loop(block, indent, ts, c + 1)
    } else if k == TokenKind::Dedent {
        let d = ts[c].1.len();
        if d != indent {
            let kind = if d < indent {
                TokenKind::Indent
            } else {
                TokenKind::Dedent
            };
            let diff = if d < indent {
                (indent - d) as nat
            } else {
                (d - indent) as nat
            };
            (Ok(block), ts.insert(c + 1, (kind, spaces_seq(diff))), c + 1)
        } else {
            (Ok(block), ts, c + 1)
        }
    } else if body_element_kinds().contains(k) {
        let (r, ts2, c2) = spec_body(block, ts, c);
        match r {
            Err(e) => (Err(e), ts2, c2),
            Ok(b) => if weight(ts2, c2) < weight(ts, c) {
                block_loop(b, indent, ts2, c2)
            } else {
                (Ok(b), ts2, c2)
            },
        }
    } else {
        (Ok(block), ts, c)
    }
}

/// The body element that starts at `c`, appended to `block`.
pub open spec fn spec_body(block: NodeView, ts: TokenSeq, c: int) -> Parsed
    decreases weight(ts, c), 3int,
{
    let k = view_kind(ts, c);
    let element = if k == TokenKind::DoubleDot {
        spec_directive_like(ts, c)
    } else if k == TokenKind::BulletListMarker {
        spec_bullet_list(ts, c)
    } else if k == TokenKind::EnumeratedListMarker {
        spec_enumerated_list(ts, c)
    } else if k == TokenKind::Field {
        spec_field_list(ts, c)
    } else if k == TokenKind::DoubleColon {
        spec_literal_block(ts, c)
    } else {
        (
            Err(ErrorKind::UnexpectedToken { expected: "body element"@, found: spec_token_name(k), index: c as usize }),
            ts,
            c,
        )
    };
    map_node(element, |n: NodeView| with_child(block, n))
}

/// What the `..` at `c` opens: a comment where its line ends before any
/// `::`, a directive where a `::` comes first. Footnotes, targets and
/// substitution definitions are refused.
pub open spec fn spec_directive_like(ts: TokenSeq, c: int) -> Parsed
    decreases weight(ts, c), 2int,
{
    match first_of_kinds(ts, directive_like_kinds(), c) {
        None => (Err(ErrorKind::UnexpectedBlockEndError), ts, c),
        Some(i) => if ts[i].0 == TokenKind::NewLine {
            spec_comment(ts, c)
        } else if ts[i].0 == TokenKind::DoubleColon {
            spec_directive(ts, c, i)
        } else {
            (
                Err(
                    ErrorKind::UnexpectedToken {
                        expected: "comment or directive"@,
                        found: spec_token_name(ts[i].0),
                        index: i as usize,
                    },
                ),
                ts,
                c,
            )
        },
    }
}

/// The directive whose `..` is at `c` and whose `::` is at `colon`: its type
/// is the text between the two, trimmed; its arguments the rest of the line.
/// Where the next line is indented, a field list right after the
/// indentation gives its options, and the indented text its content block.
pub open spec fn spec_directive(ts: TokenSeq, c: int, colon: int) -> Parsed
    decreases weight(ts, c), 1int,
{
    if !(0 <= c <= colon) {
        (Err(ErrorKind::UnexpectedBlockEndError), ts, c)
    } else {
        match first_of_kinds(ts, seq![TokenKind::NewLine], colon) {
            None => (Err(ErrorKind::UnexpectedBlockEndError), ts, c),
            Some(fle) => {
                proof {
                    lemma_first_of_kinds_bound(ts, seq![TokenKind::NewLine], colon);
                }
                let n0 = node_with(NodeClass::Directive, "directive_type"@, spec_trim(text_between(ts, c + 1, colon)));
                let n1 = if fle > colon + 1 {
                    with_attr(n0, "directive_arguments"@, AttrView::Str(text_between(ts, colon + 2, fle)))
                } else {
                    n0
                };
                let c1 = fle + 1;
                if view_kind(ts, c1) != TokenKind::Indent {
                    (Ok(n1), ts, c1)
                } else {
                    let n2 = with_attr(n1, "indent"@, AttrView::Usize(ts[c1].1.len() as usize));
                    if view_kind(ts, c1 + 1) == TokenKind::Field {
                        proof {
                            lemma_weight_advance(ts, c, c1 + 1);
                        }
                        let (ro, ts2, c2) = spec_field_list(ts, c1 + 1);
                        match ro {
                            Err(e) => (Err(e), ts2, c2),
                            Ok(options) => {
                                let n3 = with_child(n2, options);
                                if view_kind(ts2, c2) != TokenKind::Dedent && view_kind(ts2, c2) != TokenKind::EoF
                                    && weight(ts2, c2) < weight(ts, c) {
                                    map_node(spec_block(ts2, c2), |b: NodeView| with_child(n3, b))
                                } else {
                                    (Ok(n3), ts2, c2)
                                }
                            },
                        }
                    } else {
                        proof {
                            lemma_weight_advance(ts, c, c1);
                        }
                        map_node(spec_block(ts, c1), |b: NodeView| with_child(n2, b))
                    }
                }
            },
        }
    }
}

/// The rest of a list item whose marker ended just before `c`: spaces after
/// the marker widen the item's indentation `dedent_len`; the stream is
/// prepared for the item's block, the block is read (any fault in it is a
/// fault of the list's end), and the item with its block goes into `list`; a
/// blank line that follows is passed over.
pub open spec fn spec_finish(list: NodeView, item: NodeView, dedent_len: usize, ts: TokenSeq, c: int) -> Parsed
    decreases weight(ts, c) + 3, 0int,
{
    let spaces = view_kind(ts, c) == TokenKind::Spaces;
    let d = if spaces {
        add_capped(dedent_len, ts[c].1.len() as int)
    } else {
        dedent_len
    };
    let c1 = if spaces {
        c + 1
    } else {
        c
    };
    if c < 0 {
        (Err(ErrorKind::UnexpectedBlockEndError), ts, c)
    } else {
        let (rp, ts2, c2) = spec_prepare(ts, c1, d);
        match rp {
            Err(e) => (Err(e), ts2, c2),
            Ok(()) => {
                proof {
                    lemma_prepare_weight(ts, c1, d);
                    lemma_weight_mono(ts, c, c1);
                }
                let (rb, ts3, c3) = spec_block(ts2, c2);
                match rb {
                    Err(_) => (Err(ErrorKind::ListEndError), ts3, c3),
                    Ok(b) => {
                        let l2 = with_child(list, with_child(item, b));
                        if view_kind(ts3, c3) == TokenKind::BlankLine {
                            (Ok(l2), ts3, c3 + 1)
                        } else {
                            (Ok(l2), ts3, c3)
                        }
                    },
                }
            },
        }
    }
}

/// The bullet list that starts at `c`.
pub open spec fn spec_bullet_list(ts: TokenSeq, c: int) -> Parsed
    decreases weight(ts, c), 2int,
{
    bullet_loop(empty_node(NodeClass::BulletList), None, ts, c)
}

/// The rest of a bullet list from `c` on, where `list` holds the items so
/// far and `marker` the marker they use: every item must use the same one.
pub open spec fn bullet_loop(list: NodeView, marker: Option<Seq<char>>, ts: TokenSeq, c: int) -> Parsed
    decreases weight(ts, c), 1int,
{
    if view_kind(ts, c) != TokenKind::BulletListMarker || c < 0 {
        (Ok(list), ts, c)
    } else {
        let m = ts[c].1;
        if marker is Some && marker != Some(m) {
            (Err(ErrorKind::ListStyleError { marker: marker.unwrap(), conflicting_marker: m }), ts, c + 1)
        } else {
            proof {
                lemma_weight_step(ts, c);
            }
            let (r, ts2, c2) = spec_finish(
                list,
                node_with(NodeClass::BulletListItem, "marker"@, m),
                1,
                ts,
                c + 1,
            );
            match r {
                Err(e) => (Err(e), ts2, c2),
                Ok(l2) => if weight(ts2, c2) < weight(ts, c) {
                    bullet_loop(l2, Some(m), ts2, c2)
                } else {
                    (Ok(l2), ts2, c2)
                },
            }
        }
    }
}

/// The enumerated list that starts at `c`: its first marker gives the
/// numbering style (an ambiguous letter counts as roman where it reads as
/// one), the prefix and the suffix that the list keeps.
pub open spec fn spec_enumerated_list(ts: TokenSeq, c: int) -> Parsed
    decreases weight(ts, c), 2int,
{
    let (prefix, value, suffix) = spec_enumerator_parts(lexeme_at(ts, c));
    match spec_enumerator_type(value) {
        None => (Err(ErrorKind::ListMarkerError { marker: value }), ts, c),
        Some(t) => {
            let et = spec_resolve_enumerator_type(t, None);
            let list = NodeView {
                attributes: Map::empty().insert("enumtype"@, AttrView::Str(enumtype_name(et))).insert(
                    "prefix"@,
                    AttrView::Str(prefix),
                ).insert("suffix"@, AttrView::Str(suffix)),
                ..empty_node(NodeClass::EnumeratedList)
            };
            enumerated_loop(list, prefix, suffix, et, 1, ts, c)
        },
    }
}

/// The style of an item with enumerator value `v` in a list of style `et`:
/// `#` continues the list; another value must read in some style.
pub open spec fn item_style(v: Seq<char>, et: EnumMarkerType) -> Result<EnumMarkerType, ErrorKind> {
    if v == "#"@ {
        Ok(et)
    } else {
        match spec_enumerator_type(v) {
            None => Err(ErrorKind::ListMarkerError { marker: v }),
            Some(t) => Ok(spec_resolve_enumerator_type(t, Some(et))),
        }
    }
}

/// The number of an item with enumerator value `v` in a list of style `et`,
/// where `next` is the number after the previous item.
pub open spec fn item_number(v: Seq<char>, et: EnumMarkerType, next: usize) -> Result<usize, ErrorKind> {
    if v == "#"@ {
        Ok(next)
    } else {
        match spec_enumerator_value(v, et) {
            Some(n) => Ok(n),
            None => Err(ErrorKind::ListMarkerError { marker: v }),
        }
    }
}

/// The rest of an enumerated list from `c` on. A marker with another
/// prefix, suffix or style ends the list and is left unread.
pub open spec fn enumerated_loop(
    list: NodeView,
    prefix: Seq<char>,
    suffix: Seq<char>,
    et: EnumMarkerType,
    next: usize,
    ts: TokenSeq,
    c: int,
) -> Parsed
    decreases weight(ts, c), 1int,
{
    if view_kind(ts, c) != TokenKind::EnumeratedListMarker || c < 0 {
        (Ok(list), ts, c)
    } else {
        let m = ts[c].1;
        let (ip, v, is) = spec_enumerator_parts(m);
        match item_style(v, et) {
            Err(e) => (Err(e), ts, c + 1),
            Ok(style) => if ip != prefix || is != suffix || style != et {
                (Ok(list), ts, c)
            } else {
                match item_number(v, et, next) {
                    Err(e) => (Err(e), ts, c + 1),
                    Ok(n) => {
                        let item = NodeView {
                            attributes: Map::empty().insert("raw_value"@, AttrView::Str(v)).insert(
                                "number"@,
                                AttrView::Usize(n),
                            ),
                            ..empty_node(NodeClass::EnumeratedListItem)
                        };
                        proof {
                            lemma_weight_step(ts, c);
                        }
                        let (r, ts2, c2) = spec_finish(list, item, m.len() as usize, ts, c + 1);
                        match r {
                            Err(e) => (Err(e), ts2, c2),
                            Ok(l2) => if weight(ts2, c2) < weight(ts, c) {
                                enumerated_loop(l2, prefix, suffix, et, add_capped(n, 1), ts2, c2)
                            } else {
                                (Ok(l2), ts2, c2)
                            },
                        }
                    },
                }
            },
        }
    }
}

/// The field list that starts at `c`.
pub open spec fn spec_field_list(ts: TokenSeq, c: int) -> Parsed
    decreases weight(ts, c), 2int,
{
    field_loop(empty_node(NodeClass::FieldList), ts, c)
}

/// The rest of a field list from `c` on: each field marker `:name:` opens an
/// item named by it, whose body is indented by the marker's width.
pub open spec fn field_loop(list: NodeView, ts: TokenSeq, c: int) -> Parsed
    decreases weight(ts, c), 1int,
{
    if view_kind(ts, c) != TokenKind::Field || c < 0 {
        (Ok(list), ts, c)
    } else {
        let l = ts[c].1;
        match field_name(l) {
            None => (Err(ErrorKind::ListMarkerError { marker: l }), ts, c + 1),
            Some(name) => {
                proof {
                    lemma_weight_step(ts, c);
                }
                let (r, ts2, c2) = spec_finish(
                    list,
                    node_with(NodeClass::FieldListItem, "fieldname"@, name),
                    l.len() as usize,
                    ts,
                    c + 1,
                );
                match r {
                    Err(e) => (Err(e), ts2, c2),
                    Ok(l2) => if weight(ts2, c2) < weight(ts, c) {
                        field_loop(l2, ts2, c2)
                    } else {
                        (Ok(l2), ts2, c2)
                    },
                }
            },
        }
    }
}

/// Whether a parser ended as `expected` says, and, where it succeeded,
/// left no more weight to read than `bound`.
pub open spec fn ended_as(
    r: Result<AstNode, ParserError>,
    stream: TokenStream,
    expected: Parsed,
) -> bool {
    outcome(r, stream.spec_tokens(), stream.spec_cursor() as int, expected)
}

/// The weight left to read in a stream.
pub open spec fn left(stream: TokenStream) -> nat {
    weight(stream.spec_tokens(), stream.spec_cursor() as int)
}

/// Parses the block that starts at the cursor.
pub fn parse_block(stream: &mut TokenStream) -> (r: Result<AstNode, ParserError>)
    ensures
        ended_as(r, *final(stream), spec_block(old(stream).spec_tokens(), old(stream).spec_cursor() as int)),
        r is Ok ==> left(*final(stream)) <= left(*old(stream)),
    decreases left(*old(stream)), 5int,
{
    let ghost ts0 = stream.spec_tokens();
    let ghost c0 = stream.spec_cursor() as int;
    let mut block = AstNode::new_ref(NodeClass::Block);
    let mut indent: usize = 0;
    if stream.kind_at_cursor() == TokenKind::Indent {
        let token = stream.consume();
        indent = token.lexeme.as_str().unicode_len();
        block.with_attr("indent", AttributeType::Usize(indent));
        proof {
            lemma_weight_step(ts0, c0);
        }
    }
    assert(TokenCategory::BODY_ELEMENTS@ == body_element_kinds());
    loop
        invariant
            ts0 == old(stream).spec_tokens(),
            c0 == old(stream).spec_cursor(),
            spec_block(ts0, c0) == block_loop(block@, indent as nat, stream.spec_tokens(), stream.spec_cursor() as int),
            left(*stream) <= weight(ts0, c0),
        decreases left(*stream),
    {
        let ghost ts = stream.spec_tokens();
        let ghost c = stream.spec_cursor() as int;
        let kind = stream.kind_at_cursor();
        let next = stream.kind_at_nextline();
        if kind == TokenKind::Word || kind == TokenKind::NewLine {
            match parse_paragraph(stream) {
                Ok(p) => {
                    proof {
                        lemma_paragraph_progress(ts, c);
                        lemma_weight_advance(ts, c, stream.spec_cursor() as int);
                    }
                    AstNode::push_child(&mut block, p);
                },
                Err(e) => {
                    return Err(e);
                },
            }
        } else if kind == TokenKind::BlankLine && (next == TokenKind::Indent || next == TokenKind::Dedent || next
            == TokenKind::Word) {
            stream.consume();
            proof {
                lemma_weight_advance(ts, c, c + 1);
            }
        } else if kind == TokenKind::Dedent {
            let dedent_token = stream.consume();
            let dedent = dedent_token.lexeme.as_str().unicode_len();
            proof {
                lemma_weight_step(ts, c);
            }
            if dedent != indent {
                let cursor = stream.cursor();
                let (rel_kind, diff) = if dedent < indent {
                    (TokenKind::Indent, indent - dedent)
                } else {
                    (TokenKind::Dedent, dedent - indent)
                };
                let total = stream.tokens().len();
                stream.insert_at(cursor, Token::from_string(rel_kind, spaces(diff)));
                stream.set_cursor(cursor);
                proof {
                    lemma_weight_insert(ts, c + 1, c + 1, (rel_kind, spaces_seq(diff as nat)));
                }
            }
            return Ok(block);
        } else if kind.is(TokenCategory::BODY_ELEMENTS) {
            match parse_body_elements(stream, &mut block) {
                Ok(()) => {},
                Err(e) => {
                    return Err(e);
                },
            }
        } else {
            return Ok(block);
        }
    }
}

/// Parses the body element that starts at the cursor and appends it to
/// `block`.
pub fn parse_body_elements(stream: &mut TokenStream, block: &mut AstNode) -> (r: Result<(), ParserError>)
    ensures
        ({
            let expected = spec_body(old(block)@, old(stream).spec_tokens(), old(stream).spec_cursor() as int);
            &&& final(stream).spec_tokens() == expected.1
            &&& final(stream).spec_cursor() == expected.2
            &&& match r {
                Ok(()) => expected.0 == Ok::<NodeView, ErrorKind>(final(block)@),
                Err(e) => expected.0 == Err::<NodeView, ErrorKind>(e@),
            }
        }),
        r is Ok ==> left(*final(stream)) < left(*old(stream)),
    decreases left(*old(stream)), 3int,
{
    let ghost ts = stream.spec_tokens();
    let ghost c = stream.spec_cursor() as int;
    let kind = stream.kind_at_cursor();
    let result = if kind == TokenKind::DoubleDot {
        parse_directive_like(stream)
    } else if kind == TokenKind::BulletListMarker {
        parse_bullet_list(stream)
    } else if kind == TokenKind::EnumeratedListMarker {
        parse_enumerated_list(stream)
    } else if kind == TokenKind::Field {
        parse_field_list(stream)
    } else if kind == TokenKind::DoubleColon {
        let r = parse_literal_block(stream);
        proof {
            lemma_literal_progress(ts, c);
        }
        r
    } else {
        proof {
            reveal_strlit("body element");
        }
        Err(
            ParserError::UnexpectedToken {
                expected: "body element".to_owned(),
                found: kind.name().to_owned(),
                index: stream.cursor(),
            },
        )
    };
    match result {
        Ok(n) => {
            AstNode::push_child(block, n);
            Ok(())
        },
        Err(e) => Err(e),
    }
}

/// Parses what the `..` at the cursor opens: a comment or a directive.
pub fn parse_directive_like(stream: &mut TokenStream) -> (r: Result<AstNode, ParserError>)
    ensures
        ended_as(r, *final(stream), spec_directive_like(old(stream).spec_tokens(), old(stream).spec_cursor() as int)),
        r is Ok ==> left(*final(stream)) < left(*old(stream)),
    decreases left(*old(stream)), 2int,
{
    let ghost ts = stream.spec_tokens();
    let ghost c = stream.spec_cursor() as int;
    let kinds = vec![
        TokenKind::NewLine,
        TokenKind::DoubleColon,
        TokenKind::FootnoteReference,
        TokenKind::HyperlinkReferenceEnd,
        TokenKind::SubstitutionReference,
    ];
    assert(kinds@ == directive_like_kinds());
    let index = match stream.find_next_kind(kinds.as_slice()) {
        Ok(i) => i,
        Err(_) => {
            return Err(ParserError::UnexpectedBlockEndError);
        },
    };
    proof {
        lemma_first_of_kinds_bound(ts, directive_like_kinds(), c);
    }
    let found = stream.tokens()[index].kind;
    if found == TokenKind::NewLine {
        let r = parse_comment(stream);
        proof {
            lemma_comment_progress(ts, c);
        }
        r
    } else if found == TokenKind::DoubleColon {
        parse_directive(stream, index)
    } else {
        proof {
            reveal_strlit("comment or directive");
        }
        Err(
            ParserError::UnexpectedToken {
                expected: "comment or directive".to_owned(),
                found: found.name().to_owned(),
                index,
            },
        )
    }
}

/// Parses the directive whose `..` is at the cursor and whose `::` is at
/// `colon`.
pub fn parse_directive(stream: &mut TokenStream, colon: usize) -> (r: Result<AstNode, ParserError>)
    requires
        old(stream).spec_cursor() <= colon < old(stream).spec_tokens().len(),
    ensures
        ended_as(r, *final(stream), spec_directive(old(stream).spec_tokens(), old(stream).spec_cursor() as int, colon as int)),
        r is Ok ==> left(*final(stream)) < left(*old(stream)),
    decreases left(*old(stream)), 1int,
{
    let ghost ts = stream.spec_tokens();
    let c = stream.cursor();
    let total = stream.tokens().len();
    let newline = vec![TokenKind::NewLine];
    assert(newline@ == seq![TokenKind::NewLine]);
    let fle = match stream.find_next_kind_from(newline.as_slice(), colon) {
        Ok(i) => i,
        Err(_) => {
            return Err(ParserError::UnexpectedBlockEndError);
        },
    };
    proof {
        lemma_first_of_kinds_bound(ts, seq![TokenKind::NewLine], colon as int);
    }
    let mut directive = AstNode::new_ref(NodeClass::Directive);
    let type_text = if c < colon {
        tokens_text_between(stream.tokens(), c + 1, colon)
    } else {
        String::new()
    };
    let directive_type = crate::text::trim(type_text.as_str());
    directive.with_attr("directive_type", AttributeType::from_str(directive_type));
    if fle > colon + 1 {
        let arguments = tokens_text_between(stream.tokens(), colon + 2, fle);
        directive.with_attr("directive_arguments", AttributeType::String(arguments));
    }
    stream.set_cursor(fle + 1);
    if stream.kind_at_cursor() != TokenKind::Indent {
        proof {
            lemma_weight_advance(ts, c as int, fle + 1);
        }
        return Ok(directive);
    }
    let width = stream.tokens()[fle + 1].lexeme.as_str().unicode_len();
    directive.with_attr("indent", AttributeType::Usize(width));
    if stream.kind_peek_relative(1) == TokenKind::Field {
        stream.consume_n(1);
        proof {
            lemma_weight_advance(ts, c as int, fle + 2);
        }
        match parse_field_list(stream) {
            Ok(options) => {
                AstNode::push_child(&mut directive, options);
            },
            Err(e) => {
                return Err(e);
            },
        }
        if stream.kind_at_cursor() != TokenKind::Dedent && stream.kind_at_cursor() != TokenKind::EoF {
            match parse_block(stream) {
                Ok(content) => {
                    AstNode::push_child(&mut directive, content);
                },
                Err(e) => {
                    return Err(e);
                },
            }
        }
    } else {
        proof {
            lemma_weight_advance(ts, c as int, fle + 1);
        }
        match parse_block(stream) {
            Ok(content) => {
                AstNode::push_child(&mut directive, content);
            },
            Err(e) => {
                return Err(e);
            },
        }
    }
    Ok(directive)
}

/// Finishes the list item whose marker was just read: reads its block,
/// appends the item to `list` and passes over a blank line after it.
pub fn finish_list_item(stream: &mut TokenStream, list: &mut AstNode, item: AstNode, dedent_len: usize) -> (r: Result<
    (),
    ParserError,
>)
    ensures
        ({
            let expected = spec_finish(
                old(list)@,
                item@,
                dedent_len,
                old(stream).spec_tokens(),
                old(stream).spec_cursor() as int,
            );
            &&& final(stream).spec_tokens() == expected.1
            &&& final(stream).spec_cursor() == expected.2
            &&& match r {
                Ok(()) => expected.0 == Ok::<NodeView, ErrorKind>(final(list)@),
                Err(e) => expected.0 == Err::<NodeView, ErrorKind>(e@),
            }
        }),
        r is Ok ==> left(*final(stream)) <= left(*old(stream)) + 2,
    decreases left(*old(stream)) + 3, 0int,
{
    let ghost ts = stream.spec_tokens();
    let ghost c = stream.spec_cursor() as int;
    let mut dedent_len = dedent_len;
    if stream.kind_at_cursor() == TokenKind::Spaces {
        let spaces_token = stream.consume();
        dedent_len = dedent_len.saturating_add(spaces_token.lexeme.as_str().unicode_len());
    }
    let ghost c1 = stream.spec_cursor() as int;
    match prepare_item_block(stream, dedent_len) {
        Ok(()) => {},
        Err(e) => {
            return Err(e);
        },
    }
    proof {
        lemma_prepare_weight(ts, c1, dedent_len);
        lemma_weight_mono(ts, c, c1);
    }
    let block = match parse_block(stream) {
        Ok(b) => b,
        Err(_) => {
            return Err(ParserError::ListEndError);
        },
    };
    let mut item = item;
    AstNode::push_child(&mut item, block);
    AstNode::push_child(list, item);
    if stream.kind_at_cursor() == TokenKind::BlankLine {
        let ghost c3 = stream.spec_cursor() as int;
        stream.consume();
        proof {
            lemma_weight_advance(stream.spec_tokens(), c3, c3 + 1);
        }
    }
    Ok(())
}

/// The text of an optional marker.
pub open spec fn marker_view(m: Option<String>) -> Option<Seq<char>> {
    match m {
        Some(s) => Some(s@),
        None => None,
    }
}

/// Parses the bullet list that starts at the cursor: its items as long as
/// bullet markers follow, each with the same marker.
pub fn parse_bullet_list(stream: &mut TokenStream) -> (r: Result<AstNode, ParserError>)
    ensures
        ended_as(r, *final(stream), spec_bullet_list(old(stream).spec_tokens(), old(stream).spec_cursor() as int)),
        r is Ok ==> left(*final(stream)) <= left(*old(stream)),
        r is Ok && view_kind(old(stream).spec_tokens(), old(stream).spec_cursor() as int)
            == TokenKind::BulletListMarker ==> left(*final(stream)) < left(*old(stream)),
    decreases left(*old(stream)), 2int,
{
    let ghost ts0 = stream.spec_tokens();
    let ghost c0 = stream.spec_cursor() as int;
    let mut list = AstNode::new_ref(NodeClass::BulletList);
    let mut marker: Option<String> = None;
    while stream.kind_at_cursor() == TokenKind::BulletListMarker
        invariant
            ts0 == old(stream).spec_tokens(),
            c0 == old(stream).spec_cursor(),
            spec_bullet_list(ts0, c0) == bullet_loop(
                list@,
                marker_view(marker),
                stream.spec_tokens(),
                stream.spec_cursor() as int,
            ),
            left(*stream) < weight(ts0, c0) || (stream.spec_tokens() == ts0 && stream.spec_cursor() == c0
                && marker is None),
        decreases left(*stream),
    {
        let ghost ts = stream.spec_tokens();
        let ghost c = stream.spec_cursor() as int;
        let marker_token = stream.consume();
        let mut item = AstNode::new_ref(NodeClass::BulletListItem);
        item.with_attr("marker", AttributeType::String(marker_token.lexeme.clone()));
        match &marker {
            Some(existing) => {
                if !crate::text::str_eq(existing.as_str(), marker_token.lexeme.as_str()) {
                    return Err(
                        ParserError::ListStyleError {
                            marker: existing.clone(),
                            conflicting_marker: marker_token.lexeme.clone(),
                        },
                    );
                }
            },
            None => {},
        }
        marker = Some(marker_token.lexeme.clone());
        proof {
            lemma_weight_step(ts, c);
        }
        match finish_list_item(stream, &mut list, item, 1) {
            Ok(()) => {},
            Err(e) => {
                return Err(e);
            },
        }
    }
    Ok(list)
}

/// The name of a numbering style as it is recorded on a list.
fn enumtype_str(t: EnumMarkerType) -> (r: &'static str)
    ensures
        r@ == enumtype_name(t),
{
    match t {
        EnumMarkerType::Arabic => "arabic",
        EnumMarkerType::Upperalpha => "upperalpha",
        EnumMarkerType::Loweralpha => "loweralpha",
        EnumMarkerType::Upperroman => "upperroman",
        EnumMarkerType::Lowerroman => "lowerroman",
    }
}

/// Parses the enumerated list that starts at the cursor. A marker with
/// another prefix, suffix or style ends the list and is left unread.
#[verifier::spinoff_prover]
#[verifier::rlimit(40)]
pub fn parse_enumerated_list(stream: &mut TokenStream) -> (r: Result<AstNode, ParserError>)
    ensures
        ended_as(r, *final(stream), spec_enumerated_list(old(stream).spec_tokens(), old(stream).spec_cursor() as int)),
        r is Ok ==> left(*final(stream)) <= left(*old(stream)),
        r is Ok && view_kind(old(stream).spec_tokens(), old(stream).spec_cursor() as int)
            == TokenKind::EnumeratedListMarker ==> left(*final(stream)) < left(*old(stream)),
    decreases left(*old(stream)), 2int,
{
    let ghost ts0 = stream.spec_tokens();
    let ghost c0 = stream.spec_cursor() as int;
    let total = stream.tokens().len();
    let first_marker: String = if stream.cursor() < total {
        stream.tokens()[stream.cursor()].lexeme.clone()
    } else {
        String::new()
    };
    assert(first_marker@ == lexeme_at(ts0, c0));
    let (prefix, first_value, suffix) = enumerator_parts(first_marker.as_str());
    let found = match enumerator_type(first_value) {
        Ok(t) => t,
        Err(e) => {
            return Err(e);
        },
    };
    let enumtype = resolve_enumerator_type(found, None);
    let mut list = AstNode::new_ref(NodeClass::EnumeratedList);
    list.with_attr("enumtype", AttributeType::from_str(enumtype_str(enumtype)));
    list.with_attr("prefix", AttributeType::from_str(prefix));
    list.with_attr("suffix", AttributeType::from_str(suffix));
    let mut next_number: usize = 1;
    proof {
        reveal_strlit("#");
    }
    while stream.kind_at_cursor() == TokenKind::EnumeratedListMarker
        invariant
            ts0 == old(stream).spec_tokens(),
            c0 == old(stream).spec_cursor(),
            spec_enumerator_parts(lexeme_at(ts0, c0)) == (prefix@, first_value@, suffix@),
            spec_enumerator_type(first_value@) == Some(found),
            enumtype == spec_resolve_enumerator_type(found, None),
            spec_enumerated_list(ts0, c0) == enumerated_loop(
                list@,
                prefix@,
                suffix@,
                enumtype,
                next_number,
                stream.spec_tokens(),
                stream.spec_cursor() as int,
            ),
            left(*stream) < weight(ts0, c0) || (stream.spec_tokens() == ts0 && stream.spec_cursor() == c0),
        decreases left(*stream),
    {
        let ghost ts = stream.spec_tokens();
        let ghost c = stream.spec_cursor() as int;
        let marker = stream.consume().lexeme;
        let (item_prefix, value, item_suffix) = enumerator_parts(marker.as_str());
        let is_auto = crate::text::str_eq(value, "#");
        let item_type = if is_auto {
            enumtype
        } else {
            match enumerator_type(value) {
                Ok(t) => resolve_enumerator_type(t, Some(enumtype)),
                Err(e) => {
                    return Err(e);
                },
            }
        };
        if !crate::text::str_eq(item_prefix, prefix) || !crate::text::str_eq(item_suffix, suffix) || item_type
            != enumtype {
            let cursor = stream.cursor();
            stream.set_cursor(cursor - 1);
            return Ok(list);
        }
        let mut item = AstNode::new_ref(NodeClass::EnumeratedListItem);
        item.with_attr("raw_value", AttributeType::from_str(value));
        let number = if is_auto {
            next_number
        } else {
            match enumerator_value(value, enumtype) {
                Ok(n) => n,
                Err(e) => {
                    return Err(e);
                },
            }
        };
        item.with_attr("number", AttributeType::Usize(number));
        next_number = number.saturating_add(1);
        let width = marker.as_str().unicode_len();
        proof {
            lemma_weight_step(ts, c);
        }
        match finish_list_item(stream, &mut list, item, width) {
            Ok(()) => {},
            Err(e) => {
                return Err(e);
            },
        }
    }
    Ok(list)
}

/// Parses the field list that starts at the cursor: an item for each field
/// marker `:name:` in a row.
pub fn parse_field_list(stream: &mut TokenStream) -> (r: Result<AstNode, ParserError>)
    ensures
        ended_as(r, *final(stream), spec_field_list(old(stream).spec_tokens(), old(stream).spec_cursor() as int)),
        r is Ok ==> left(*final(stream)) <= left(*old(stream)),
        r is Ok && view_kind(old(stream).spec_tokens(), old(stream).spec_cursor() as int) == TokenKind::Field
            ==> left(*final(stream)) < left(*old(stream)),
    decreases left(*old(stream)), 2int,
{
    let ghost ts0 = stream.spec_tokens();
    let ghost c0 = stream.spec_cursor() as int;
    let mut list = AstNode::new_ref(NodeClass::FieldList);
    while stream.kind_at_cursor() == TokenKind::Field
        invariant
            ts0 == old(stream).spec_tokens(),
            c0 == old(stream).spec_cursor(),
            spec_field_list(ts0, c0) == field_loop(list@, stream.spec_tokens(), stream.spec_cursor() as int),
            left(*stream) < weight(ts0, c0) || (stream.spec_tokens() == ts0 && stream.spec_cursor() == c0),
        decreases left(*stream),
    {
        let ghost ts = stream.spec_tokens();
        let ghost c = stream.spec_cursor() as int;
        let field_token = stream.consume();
        let lexeme = field_token.lexeme.as_str();
        let n = lexeme.unicode_len();
        if !(n >= 2 && lexeme.get_char(0) == ':' && lexeme.get_char(n - 1) == ':') {
            return Err(ParserError::ListMarkerError { marker: field_token.lexeme.clone() });
        }
        let mut item = AstNode::new_ref(NodeClass::FieldListItem);
        item.with_attr("fieldname", AttributeType::from_str(lexeme.substring_char(1, n - 1)));
        proof {
            lemma_weight_step(ts, c);
        }
        match finish_list_item(stream, &mut list, item, n) {
            Ok(()) => {},
            Err(e) => {
                return Err(e);
            },
        }
    }
    Ok(list)
}

/// The attributes of a bullet item with marker `m`.
pub open spec fn marker_attributes(m: Seq<char>) -> Map<Seq<char>, AttrView> {
    Map::empty().insert("marker"@, AttrView::Str(m))
}

/// Whether `list` is a bullet list whose items all carry the marker `m`.
pub open spec fn items_marked(list: NodeView, m: Seq<char>) -> bool {
    &&& list.class == NodeClass::BulletList
    &&& forall|i: int|
        0 <= i < list.children.len() ==> (#[trigger] list.children[i]).class == NodeClass::BulletListItem
            && list.children[i].attributes == marker_attributes(m)
}

proof fn lemma_finish_shape(list: NodeView, item: NodeView, dedent_len: usize, ts: TokenSeq, c: int)
    ensures
        spec_finish(list, item, dedent_len, ts, c).0 matches Ok(l2) ==> exists|b: NodeView|
            l2 == with_child(list, #[trigger] with_child(item, b)),
{
    let spaces = view_kind(ts, c) == TokenKind::Spaces;
    let d = if spaces {
        add_capped(dedent_len, ts[c].1.len() as int)
    } else {
        dedent_len
    };
    let c1 = if spaces {
        c + 1
    } else {
        c
    };
    if c >= 0 {
        let (rp, ts2, c2) = spec_prepare(ts, c1, d);
        if rp is Ok {
            let (rb, ts3, c3) = spec_block(ts2, c2);
            if let Ok(b) = rb {
                assert(with_child(item, b) == with_child(item, b));
            }
        }
    }
}

proof fn lemma_bullet_loop_marked(list: NodeView, marker: Option<Seq<char>>, ts: TokenSeq, c: int)
    requires
        list.class == NodeClass::BulletList,
        marker matches Some(m) ==> items_marked(list, m),
        marker is None ==> list.children.len() == 0,
    ensures
        bullet_loop(list, marker, ts, c).0 matches Ok(l) ==> l.class == NodeClass::BulletList && (l.children.len()
            == 0 || exists|m: Seq<char>| items_marked(l, m)),
    decreases weight(ts, c),
{
    if view_kind(ts, c) != TokenKind::BulletListMarker || c < 0 {
        if let Some(m) = marker {
            assert(items_marked(list, m));
        }
    } else {
        let m = ts[c].1;
        if marker is Some && marker != Some(m) {
        } else {
            lemma_weight_step(ts, c);
            let item = node_with(NodeClass::BulletListItem, "marker"@, m);
            let (r, ts2, c2) = spec_finish(list, item, 1, ts, c + 1);
            lemma_finish_shape(list, item, 1, ts, c + 1);
            if let Ok(l2) = r {
                let b = choose|b: NodeView| l2 == with_child(list, #[trigger] with_child(item, b));
                assert(items_marked(l2, m)) by {
                    assert forall|i: int| 0 <= i < l2.children.len() implies (#[trigger] l2.children[i]).class
                        == NodeClass::BulletListItem && l2.children[i].attributes == marker_attributes(m) by {
                        if i < list.children.len() {
                            assert(l2.children[i] == list.children[i]);
                        } else {
                            assert(l2.children[i] == with_child(item, b));
                        }
                    }
                }
                if weight(ts2, c2) < weight(ts, c) {
                    lemma_bullet_loop_marked(l2, Some(m), ts2, c2);
                }
            }
        }
    }
}

/// Every item of a bullet list carries the same marker: a list whose items
/// use different markers is refused.
pub proof fn law_bullet_items_share_marker(ts: TokenSeq, c: int)
    ensures
        spec_bullet_list(ts, c).0 matches Ok(list) ==> list.class == NodeClass::BulletList && forall|i: int|
            0 <= i < list.children.len() ==> (#[trigger] list.children[i]).class == NodeClass::BulletListItem
                && list.children[i].attributes == list.children[0].attributes,
{
    lemma_bullet_loop_marked(empty_node(NodeClass::BulletList), None, ts, c);
    if let Ok(list) = spec_bullet_list(ts, c).0 {
        if list.children.len() > 0 {
            let m = choose|m: Seq<char>| items_marked(list, m);
            assert(list.children[0].attributes == marker_attributes(m));
        }
    }
}

proof fn lemma_with_attr_unmarked(n: NodeView, key: Seq<char>, value: AttrView)
    requires
        unmarked(n),
        key != "section_marker"@,
    ensures
        unmarked(with_attr(n, key, value)),
{
    let w = with_attr(n, key, value);
    assert forall|i: int| 0 <= i < w.children.len() implies unmarked(#[trigger] w.children[i]) by {
        assert(w.children[i] == n.children[i]);
    }
}

/// No node of a block carries a section marker.
pub proof fn lemma_block_unmarked(ts: TokenSeq, c: int)
    ensures
        spec_block(ts, c).0 matches Ok(n) ==> unmarked(n),
    decreases weight(ts, c), 5int,
{
    lemma_attribute_keys();
    if view_kind(ts, c) == TokenKind::Indent {
        let width = ts[c].1.len();
        lemma_with_attr_unmarked(empty_node(NodeClass::Block), "indent"@, AttrView::Usize(width as usize));
        lemma_weight_step(ts, c);
        lemma_block_loop_unmarked(
            with_attr(empty_node(NodeClass::Block), "indent"@, AttrView::Usize(width as usize)),
            width,
            ts,
            c + 1,
        );
    } else {
        lemma_block_loop_unmarked(empty_node(NodeClass::Block), 0, ts, c);
    }
}

proof fn lemma_block_loop_unmarked(block: NodeView, indent: nat, ts: TokenSeq, c: int)
    requires
        unmarked(block),
    ensures
        block_loop(block, indent, ts, c).0 matches Ok(n) ==> unmarked(n),
    decreases weight(ts, c), 4int,
{
    let k = view_kind(ts, c);
    let next = view_kind(ts, line_end_at(ts, c) + 1);
    if c < 0 {
    } else if k == TokenKind::Word || k == TokenKind::NewLine {
        let (r, c2) = spec_paragraph(ts, c);
        if let Ok(p) = r {
            lemma_paragraph_progress(ts, c);
            lemma_weight_advance(ts, c, c2);
            lemma_paragraph_unmarked(ts, c);
            lemma_unmarked_with_child(block, p);
            lemma_block_loop_unmarked(with_child(block, p), indent, ts, c2);
        }
    } else if k == TokenKind::BlankLine && (next == TokenKind::Indent || next == TokenKind::Dedent || next
        == TokenKind::Word) {
        lemma_weight_advance(ts, c, c + 1);
        lemma_block_loop_unmarked(block, indent, ts, c + 1);
    } else if k == TokenKind::Dedent {
    } else if body_element_kinds().contains(k) {
        let (r, ts2, c2) = spec_body(block, ts, c);
        lemma_body_unmarked(block, ts, c);
        if let Ok(b) = r {
            if weight(ts2, c2) < weight(ts, c) {
                lemma_block_loop_unmarked(b, indent, ts2, c2);
            }
        }
    }
}

proof fn lemma_body_unmarked(block: NodeView, ts: TokenSeq, c: int)
    requires
        unmarked(block),
    ensures
        spec_body(block, ts, c).0 matches Ok(n) ==> unmarked(n),
    decreases weight(ts, c), 3int,
{
    let k = view_kind(ts, c);
    let element = if k == TokenKind::DoubleDot {
        lemma_directive_like_unmarked(ts, c);
        spec_directive_like(ts, c)
    } else if k == TokenKind::BulletListMarker {
        lemma_bullet_list_unmarked(ts, c);
        spec_bullet_list(ts, c)
    } else if k == TokenKind::EnumeratedListMarker {
        lemma_enumerated_list_unmarked(ts, c);
        spec_enumerated_list(ts, c)
    } else if k == TokenKind::Field {
        lemma_field_list_unmarked(ts, c);
        spec_field_list(ts, c)
    } else if k == TokenKind::DoubleColon {
        lemma_literal_unmarked(ts, c);
        spec_literal_block(ts, c)
    } else {
        (
            Err(ErrorKind::UnexpectedToken { expected: "body element"@, found: spec_token_name(k), index: c as usize }),
            ts,
            c,
        )
    };
    if let Ok(n) = element.0 {
        lemma_unmarked_with_child(block, n);
    }
}

/// No node of a comment or directive carries a section marker.
pub proof fn lemma_directive_like_unmarked(ts: TokenSeq, c: int)
    ensures
        spec_directive_like(ts, c).0 matches Ok(n) ==> unmarked(n),
    decreases weight(ts, c), 2int,
{
    if let Some(i) = first_of_kinds(ts, directive_like_kinds(), c) {
        if ts[i].0 == TokenKind::NewLine {
            lemma_comment_unmarked(ts, c);
        } else if ts[i].0 == TokenKind::DoubleColon {
            lemma_directive_unmarked(ts, c, i);
        }
    }
}

proof fn lemma_directive_unmarked(ts: TokenSeq, c: int, colon: int)
    ensures
        spec_directive(ts, c, colon).0 matches Ok(n) ==> unmarked(n),
    decreases weight(ts, c), 1int,
{
    lemma_attribute_keys();
    if 0 <= c <= colon {
        if let Some(fle) = first_of_kinds(ts, seq![TokenKind::NewLine], colon) {
            lemma_first_of_kinds_bound(ts, seq![TokenKind::NewLine], colon);
            let n0 = node_with(NodeClass::Directive, "directive_type"@, spec_trim(text_between(ts, c + 1, colon)));
            assert(unmarked(n0));
            let n1 = if fle > colon + 1 {
                lemma_with_attr_unmarked(n0, "directive_arguments"@, AttrView::Str(text_between(ts, colon + 2, fle)));
                with_attr(n0, "directive_arguments"@, AttrView::Str(text_between(ts, colon + 2, fle)))
            } else {
                n0
            };
            let c1 = fle + 1;
            if view_kind(ts, c1) == TokenKind::Indent {
                let n2 = with_attr(n1, "indent"@, AttrView::Usize(ts[c1].1.len() as usize));
                lemma_with_attr_unmarked(n1, "indent"@, AttrView::Usize(ts[c1].1.len() as usize));
                if view_kind(ts, c1 + 1) == TokenKind::Field {
                    lemma_weight_advance(ts, c, c1 + 1);
                    lemma_field_list_unmarked(ts, c1 + 1);
                    let (ro, ts2, c2) = spec_field_list(ts, c1 + 1);
                    if let Ok(options) = ro {
                        let n3 = with_child(n2, options);
                        lemma_unmarked_with_child(n2, options);
                        if view_kind(ts2, c2) != TokenKind::Dedent && view_kind(ts2, c2) != TokenKind::EoF && weight(
                            ts2,
                            c2,
                        ) < weight(ts, c) {
                            lemma_block_unmarked(ts2, c2);
                            if let Ok(b) = spec_block(ts2, c2).0 {
                                lemma_unmarked_with_child(n3, b);
                            }
                        }
                    }
                } else {
                    lemma_weight_advance(ts, c, c1);
                    lemma_block_unmarked(ts, c1);
                    if let Ok(b) = spec_block(ts, c1).0 {
                        lemma_unmarked_with_child(n2, b);
                    }
                }
            }
        }
    }
}

proof fn lemma_finish_unmarked(list: NodeView, item: NodeView, dedent_len: usize, ts: TokenSeq, c: int)
    requires
        unmarked(list),
        unmarked(item),
    ensures
        spec_finish(list, item, dedent_len, ts, c).0 matches Ok(n) ==> unmarked(n),
    decreases weight(ts, c) + 3, 0int,
{
    let spaces = view_kind(ts, c) == TokenKind::Spaces;
    let d = if spaces {
        add_capped(dedent_len, ts[c].1.len() as int)
    } else {
        dedent_len
    };
    let c1 = if spaces {
        c + 1
    } else {
        c
    };
    if c >= 0 {
        let (rp, ts2, c2) = spec_prepare(ts, c1, d);
        if rp is Ok {
            lemma_prepare_weight(ts, c1, d);
            lemma_weight_mono(ts, c, c1);
            lemma_block_unmarked(ts2, c2);
            if let Ok(b) = spec_block(ts2, c2).0 {
                lemma_unmarked_with_child(item, b);
                lemma_unmarked_with_child(list, with_child(item, b));
            }
        }
    }
}

/// No node of a bullet list carries a section marker.
pub proof fn lemma_bullet_list_unmarked(ts: TokenSeq, c: int)
    ensures
        spec_bullet_list(ts, c).0 matches Ok(n) ==> unmarked(n),
    decreases weight(ts, c), 2int,
{
    lemma_bullet_loop_unmarked(empty_node(NodeClass::BulletList), None, ts, c);
}

proof fn lemma_bullet_loop_unmarked(list: NodeView, marker: Option<Seq<char>>, ts: TokenSeq, c: int)
    requires
        unmarked(list),
    ensures
        bullet_loop(list, marker, ts, c).0 matches Ok(n) ==> unmarked(n),
    decreases weight(ts, c), 1int,
{
    if view_kind(ts, c) == TokenKind::BulletListMarker && c >= 0 {
        let m = ts[c].1;
        if !(marker is Some && marker != Some(m)) {
            lemma_attribute_keys();
            lemma_weight_step(ts, c);
            let item = node_with(NodeClass::BulletListItem, "marker"@, m);
            lemma_finish_unmarked(list, item, 1, ts, c + 1);
            let (r, ts2, c2) = spec_finish(list, item, 1, ts, c + 1);
            if let Ok(l2) = r {
                if weight(ts2, c2) < weight(ts, c) {
                    lemma_bullet_loop_unmarked(l2, Some(m), ts2, c2);
                }
            }
        }
    }
}

/// No node of an enumerated list carries a section marker.
pub proof fn lemma_enumerated_list_unmarked(ts: TokenSeq, c: int)
    ensures
        spec_enumerated_list(ts, c).0 matches Ok(n) ==> unmarked(n),
    decreases weight(ts, c), 2int,
{
    lemma_attribute_keys();
    let (prefix, value, suffix) = spec_enumerator_parts(lexeme_at(ts, c));
    if let Some(t) = spec_enumerator_type(value) {
        let et = spec_resolve_enumerator_type(t, None);
        let list = NodeView {
            attributes: Map::empty().insert("enumtype"@, AttrView::Str(enumtype_name(et))).insert(
                "prefix"@,
                AttrView::Str(prefix),
            ).insert("suffix"@, AttrView::Str(suffix)),
            ..empty_node(NodeClass::EnumeratedList)
        };
        assert(unmarked(list));
        lemma_enumerated_loop_unmarked(list, prefix, suffix, et, 1, ts, c);
    }
}

proof fn lemma_enumerated_loop_unmarked(
    list: NodeView,
    prefix: Seq<char>,
    suffix: Seq<char>,
    et: EnumMarkerType,
    next: usize,
    ts: TokenSeq,
    c: int,
)
    requires
        unmarked(list),
    ensures
        enumerated_loop(list, prefix, suffix, et, next, ts, c).0 matches Ok(n) ==> unmarked(n),
    decreases weight(ts, c), 1int,
{
    if view_kind(ts, c) == TokenKind::EnumeratedListMarker && c >= 0 {
        let m = ts[c].1;
        let (ip, v, is) = spec_enumerator_parts(m);
        if let Ok(style) = item_style(v, et) {
            if !(ip != prefix || is != suffix || style != et) {
                if let Ok(n) = item_number(v, et, next) {
                    lemma_attribute_keys();
                    let item = NodeView {
                        attributes: Map::empty().insert("raw_value"@, AttrView::Str(v)).insert(
                            "number"@,
                            AttrView::Usize(n),
                        ),
                        ..empty_node(NodeClass::EnumeratedListItem)
                    };
                    assert(unmarked(item));
                    lemma_weight_step(ts, c);
                    lemma_finish_unmarked(list, item, m.len() as usize, ts, c + 1);
                    let (r, ts2, c2) = spec_finish(list, item, m.len() as usize, ts, c + 1);
                    if let Ok(l2) = r {
                        if weight(ts2, c2) < weight(ts, c) {
                            lemma_enumerated_loop_unmarked(l2, prefix, suffix, et, add_capped(n, 1), ts2, c2);
                        }
                    }
                }
            }
        }
    }
}

/// No node of a field list carries a section marker.
pub proof fn lemma_field_list_unmarked(ts: TokenSeq, c: int)
    ensures
        spec_field_list(ts, c).0 matches Ok(n) ==> unmarked(n),
    decreases weight(ts, c), 2int,
{
    lemma_field_loop_unmarked(empty_node(NodeClass::FieldList), ts, c);
}

proof fn lemma_field_loop_unmarked(list: NodeView, ts: TokenSeq, c: int)
    requires
        unmarked(list),
    ensures
        field_loop(list, ts, c).0 matches Ok(n) ==> unmarked(n),
    decreases weight(ts, c), 1int,
{
    if view_kind(ts, c) == TokenKind::Field && c >= 0 {
        let l = ts[c].1;
        if let Some(name) = field_name(l) {
            lemma_attribute_keys();
            lemma_weight_step(ts, c);
            let item = node_with(NodeClass::FieldListItem, "fieldname"@, name);
            lemma_finish_unmarked(list, item, l.len() as usize, ts, c + 1);
            let (r, ts2, c2) = spec_finish(list, item, l.len() as usize, ts, c + 1);
            if let Ok(l2) = r {
                if weight(ts2, c2) < weight(ts, c) {
                    lemma_field_loop_unmarked(l2, ts2, c2);
                }
            }
        }
    }
}

} // verus!
