//! A reStructuredText toolkit: a lexer that turns text into tokens, token
//! cursors, and parsers that build a document tree from them.

pub mod ast;
pub mod block;
pub mod comments;
pub mod doctree;
pub mod elements;
pub mod lexer;
pub mod line_token;
pub mod list;
pub mod list_enum_helpers;
pub mod literal_block;
pub mod paragraph;
pub mod parser;
pub mod parser_errors;
pub mod text;
pub mod token;
pub mod token_slice;
pub mod token_stream;

use vstd::prelude::*;

use crate::ast::{
    child_count_at, descendants_unmarked, empty_node, lemma_attribute_keys, lemma_childless_unnested,
    lemma_children_unmarked, lemma_push_at_class, lemma_push_at_nowhere, lemma_push_keeps_unnested,
    lemma_section_parent_unmarked_above, lemma_unmarked_descendants, markers_on_sections, node_at, push_at,
    section_marker, section_parent, sections_unnested, unmarked, AstNode, AttrView, AttributeType, NodeClass,
    NodeView,
};
use crate::block::{
    lemma_bullet_list_unmarked, lemma_directive_like_unmarked, lemma_enumerated_list_unmarked,
    lemma_field_list_unmarked, parse_bullet_list, parse_directive_like, parse_enumerated_list, parse_field_list,
    spec_bullet_list, spec_directive_like, spec_enumerated_list, spec_field_list,
};
use crate::lexer::{spec_tokenize, token_views, tokenize};
use crate::paragraph::{
    inline_marker_kinds, inline_token_kinds, lemma_paragraph_progress, lemma_paragraph_unmarked, node_with,
    parse_paragraph, plain_kinds, spec_paragraph, text_between, Parsed,
};
use crate::parser_errors::{ErrorKind, ParserError};
use crate::token::{spec_token_name, Token, TokenCategory, TokenKind};
use crate::token_slice::{tokens_text_between, view_kind};
use crate::token_stream::{first_of_kinds, lemma_first_of_kinds_bound, lemma_weight_advance, weight, TokenSeq, TokenStream};

verus! {

/// The first character of `l`, empty where there is none.
pub open spec fn first_char(l: Seq<char>) -> Seq<char> {
    if l.len() > 0 {
        l.subrange(0, 1)
    } else {
        Seq::empty()
    }
}

/// The section whose header starts at `start`: an optional overline, the
/// title line and the underline. The underline must follow the title line,
/// and an overline must use the same character as the underline. The
/// section records its marker character, the underline's length and the
/// overline's marker length; its one child is the title. Also gives where
/// the text after the header starts (at most `usize::MAX`).
pub open spec fn spec_section_header(ts: TokenSeq, start: int) -> Result<(NodeView, int), ErrorKind> {
    let has_overline = view_kind(ts, start) == TokenKind::Separator;
    let title_start = if has_overline {
        start + 2
    } else {
        start
    };
    let missing = ErrorKind::SectionTitleMissingClosingAfterOpening { opening_index: start as usize };
    match first_of_kinds(ts, seq![TokenKind::NewLine], title_start) {
        None => Err(missing),
        Some(title_end) => {
            let closing = title_end + 1;
            if view_kind(ts, closing) != TokenKind::Separator {
                Err(missing)
            } else {
                let closing_style = first_char(ts[closing].1);
                let opening_style = first_char(ts[start].1);
                if has_overline && opening_style != closing_style {
                    Err(
                        ErrorKind::SectionTitleUnbalancedStyle {
                            opening_index: start as usize,
                            opening_style,
                            closing_style,
                        },
                    )
                } else {
                    let opening_len = if has_overline {
                        opening_style.len()
                    } else {
                        0
                    };
                    let title = node_with(NodeClass::Title, "text"@, text_between(ts, title_start, title_end));
                    let section = NodeView {
                        attributes: Map::empty().insert("section_marker"@, AttrView::Str(closing_style)).insert(
                            "marker_len"@,
                            AttrView::Usize(ts[closing].1.len() as usize),
                        ).insert("marker_len_opening"@, AttrView::Usize(opening_len as usize)),
                        children: seq![title],
                        ..empty_node(NodeClass::Section)
                    };
                    Ok(
                        (
                            section,
                            if closing + 2 <= usize::MAX {
                                closing + 2
                            } else {
                                usize::MAX as int
                            },
                        ),
                    )
                }
            }
        },
    }
}

/// The first newline at or after `from`.
fn first_newline(tokens: &[Token], from: usize) -> (r: Option<usize>)
    ensures
        match r {
            Some(i) => first_of_kinds(token_views(tokens@), seq![TokenKind::NewLine], from as int) == Some(i as int),
            None => first_of_kinds(token_views(tokens@), seq![TokenKind::NewLine], from as int) is None,
        },
{
    let ghost ts = token_views(tokens@);
    let mut i = from;
    while i < tokens.len()
        invariant
            from <= i,
            ts == token_views(tokens@),
            first_of_kinds(ts, seq![TokenKind::NewLine], from as int) == first_of_kinds(
                ts,
                seq![TokenKind::NewLine],
                i as int,
            ),
        decreases tokens@.len() - i,
    {
        assert(ts[i as int].0 == tokens@[i as int].kind);
        if tokens[i].kind == TokenKind::NewLine {
            assert(seq![TokenKind::NewLine].contains(ts[i as int].0)) by {
                assert(seq![TokenKind::NewLine][0] == TokenKind::NewLine);
            }
            return Some(i);
        }
        i = i + 1;
    }
    None
}

/// The first character of `s`.
fn first_char_of(s: &str) -> (r: &str)
    ensures
        r@ == first_char(s@),
{
    if s.unicode_len() > 0 {
        s.substring_char(0, 1)
    } else {
        proof {
            reveal_strlit("");
        }
        ""
    }
}

/// Reads the section header that starts at `start_at`, and gives the
/// section with its title and where the text after the header starts.
pub fn match_section_header(tokens: &[Token], start_at: usize) -> (r: Result<(AstNode, usize), ParserError>)
    ensures
        match r {
            Ok((section, next)) => spec_section_header(token_views(tokens@), start_at as int) == Ok::<
                (NodeView, int),
                ErrorKind,
            >((section@, next as int)),
            Err(e) => spec_section_header(token_views(tokens@), start_at as int) == Err::<(NodeView, int), ErrorKind>(
                e@,
            ),
        },
{
    let ghost ts = token_views(tokens@);
    let total = tokens.len();
    let has_overline = start_at < total && tokens[start_at].kind == TokenKind::Separator;
    let title_start = if has_overline {
        start_at.saturating_add(2)
    } else {
        start_at
    };
    assert(title_start as int != start_at + 2 && has_overline ==> first_of_kinds(
        ts,
        seq![TokenKind::NewLine],
        start_at + 2,
    ) is None && first_of_kinds(ts, seq![TokenKind::NewLine], title_start as int) is None);
    let title_end = match first_newline(tokens, title_start) {
        Some(i) => i,
        None => {
            return Err(ParserError::SectionTitleMissingClosingAfterOpening { opening_index: start_at });
        },
    };
    proof {
        lemma_first_of_kinds_bound(ts, seq![TokenKind::NewLine], title_start as int);
    }
    let closing_index = title_end + 1;
    if !(closing_index < total && tokens[closing_index].kind == TokenKind::Separator) {
        return Err(ParserError::SectionTitleMissingClosingAfterOpening { opening_index: start_at });
    }
    let closing_lexeme = tokens[closing_index].lexeme.as_str();
    let closing_style = first_char_of(closing_lexeme);
    let closing_len = closing_lexeme.unicode_len();
    let opening_len = if has_overline {
        let opening_style = first_char_of(tokens[start_at].lexeme.as_str());
        if !crate::text::str_eq(opening_style, closing_style) {
            return Err(
                ParserError::SectionTitleUnbalancedStyle {
                    opening_index: start_at,
                    opening_style: opening_style.to_owned(),
                    closing_style: closing_style.to_owned(),
                },
            );
        }
        opening_style.unicode_len()
    } else {
        0
    };
    let mut section = AstNode::new_ref(NodeClass::Section);
    section.with_attr("section_marker", AttributeType::from_str(closing_style));
    section.with_attr("marker_len", AttributeType::Usize(closing_len));
    section.with_attr("marker_len_opening", AttributeType::Usize(opening_len));
    let mut title = AstNode::new_ref(NodeClass::Title);
    let text = tokens_text_between(tokens, title_start, title_end);
    title.with_attr("text", AttributeType::String(text));
    AstNode::push_child(&mut section, title);
    assert(section@.children =~= seq![title@]);
    Ok((section, closing_index.saturating_add(2)))
}

/// The kinds that open a paragraph at document level: inline markup,
/// references and plain text.
pub open spec fn starts_paragraph(k: TokenKind) -> bool {
    inline_marker_kinds().contains(k) || inline_token_kinds().contains(k) || seq![
        TokenKind::Spaces,
        TokenKind::Word,
        TokenKind::Punctuation,
        TokenKind::LiteralChar,
    ].contains(k)
}

/// Parsing the document from `c` on, where `doc` holds what was read so far
/// and `current` is the path to the node that new elements go under (the
/// document or the current section). The kind at `c` and the kind that
/// starts the next line decide: a title with an underline (and perhaps an
/// overline) opens a section, which goes into the section hierarchy and
/// becomes current; comments, directives, lists and paragraphs go under the
/// current node; blank lines and indentation changes are passed over; the
/// end of input ends the document; anything else is refused. (A cursor
/// cannot lie past the last position a `usize` counts.)
pub open spec fn parse_loop(doc: NodeView, current: Seq<usize>, ts: TokenSeq, c: int) -> Result<NodeView, ErrorKind>
    decreases weight(ts, c),
{
    let k = view_kind(ts, c);
    let line_end = match first_of_kinds(ts, seq![TokenKind::NewLine], c) {
        Some(i) => i,
        None => ts.len() as int,
    };
    let next = view_kind(ts, line_end + 1);
    if c < 0 || c >= usize::MAX {
        Ok(doc)
    } else if (k == TokenKind::Separator && (next == TokenKind::Indent || next == TokenKind::Word)) || (k
        == TokenKind::Word && next == TokenKind::Separator) {
        match spec_section_header(ts, c) {
            Err(e) => Err(e),
            Ok((section, after)) => {
                let parent = section_parent(doc, current, section_marker(section));
                proof {
                    let title_start = if k == TokenKind::Separator {
                        c + 2
                    } else {
                        c
                    };
                    lemma_first_of_kinds_bound(ts, seq![TokenKind::NewLine], title_start);
                    lemma_weight_advance(ts, c, after);
                }
                parse_loop(
                    push_at(doc, parent, section),
                    parent.push(child_count_at(doc, parent) as usize),
                    ts,
                    after,
                )
            },
        }
    } else if k == TokenKind::DoubleDot || k == TokenKind::BulletListMarker || k == TokenKind::EnumeratedListMarker
        || k == TokenKind::Field {
        let element: Parsed = if k == TokenKind::DoubleDot {
            spec_directive_like(ts, c)
        } else if k == TokenKind::BulletListMarker {
            spec_bullet_list(ts, c)
        } else if k == TokenKind::EnumeratedListMarker {
            spec_enumerated_list(ts, c)
        } else {
            spec_field_list(ts, c)
        };
        match element.0 {
            Err(e) => Err(e),
            Ok(n) => if weight(element.1, element.2) < weight(ts, c) {
                parse_loop(push_at(doc, current, n), current, element.1, element.2)
            } else {
                Ok(push_at(doc, current, n))
            },
        }
    } else if k == TokenKind::BlankLine {
        proof {
            lemma_weight_advance(ts, c, c + 1);
        }
        parse_loop(doc, current, ts, c + 1)
    } else if k == TokenKind::Indent || k == TokenKind::Dedent {
        proof {
            lemma_weight_advance(ts, c, c + 1);
        }
        parse_loop(doc, current, ts, c + 1)
    } else if starts_paragraph(k) {
        let (r, c2) = spec_paragraph(ts, c);
        match r {
            Err(e) => Err(e),
            Ok(p) => {
                proof {
                    lemma_paragraph_progress(ts, c);
                    lemma_weight_advance(ts, c, c2);
                }
                parse_loop(push_at(doc, current, p), current, ts, c2)
            },
        }
    } else if k == TokenKind::EoF {
        Ok(doc)
    } else {
        Err(ErrorKind::UnexpectedToken { expected: "document element"@, found: spec_token_name(k), index: c as usize })
    }
}

/// The document tree of `input`.
pub open spec fn spec_parse(input: Seq<char>) -> Result<NodeView, ErrorKind> {
    parse_loop(empty_node(NodeClass::Document), Seq::empty(), spec_tokenize(input), 0)
}

/// Parses a reStructuredText document into its tree: a document node whose
/// children are the top-level elements, with sections nested by their
/// markers.
#[verifier::spinoff_prover]
#[verifier::rlimit(60)]
pub fn parse(input: &str) -> (r: Result<AstNode, ParserError>)
    ensures
        match r {
            Ok(doc) => spec_parse(input@) == Ok::<NodeView, ErrorKind>(doc@),
            Err(e) => spec_parse(input@) == Err::<NodeView, ErrorKind>(e@),
        },
{
    let tokens = tokenize(input);
    let mut stream = TokenStream::new(tokens);
    let mut doc = AstNode::new_ref(NodeClass::Document);
    let mut current: Vec<usize> = Vec::new();
    assert(current@ =~= Seq::<usize>::empty());
    assert(TokenCategory::INLINE_MARKER@ == inline_marker_kinds());
    assert(TokenCategory::INLINE_TOKEN@ == inline_token_kinds());
    assert(TokenCategory::PLAIN@ == seq![
        TokenKind::Spaces,
        TokenKind::Word,
        TokenKind::Punctuation,
        TokenKind::LiteralChar,
    ]);
    loop
        invariant
            spec_parse(input@) == parse_loop(doc@, current@, stream.spec_tokens(), stream.spec_cursor() as int),
            node_at(doc@, current@) is Some,
            doc@.class == NodeClass::Document,
        decreases weight(stream.spec_tokens(), stream.spec_cursor() as int),
    {
        let ghost ts = stream.spec_tokens();
        let ghost c = stream.spec_cursor() as int;
        let index = stream.cursor();
        let total = stream.tokens().len();
        let line_end = match first_newline(stream.tokens(), index) {
            Some(i) => i,
            None => total,
        };
        proof {
            lemma_first_of_kinds_bound(ts, seq![TokenKind::NewLine], c);
        }
        let kind = stream.kind_at(index);
        let next = stream.kind_at(line_end.saturating_add(1));
        assert(next == view_kind(ts, line_end + 1));
        if (kind == TokenKind::Separator && (next == TokenKind::Indent || next == TokenKind::Word)) || (kind
            == TokenKind::Word && next == TokenKind::Separator) {
            let (section, after) = match match_section_header(stream.tokens(), index) {
                Ok(found) => found,
                Err(e) => {
                    return Err(e);
                },
            };
            proof {
                let title_start = if kind == TokenKind::Separator {
                    c + 2
                } else {
                    c
                };
                lemma_first_of_kinds_bound(ts, seq![TokenKind::NewLine], title_start);
                lemma_weight_advance(ts, c, after as int);
                crate::ast::lemma_section_parent_exists(doc@, current@, section_marker(section@));
            }
            let path = AstNode::push_section_ref(&mut doc, current.as_slice(), section);
            current = path;
            stream.set_cursor(after);
        } else if kind == TokenKind::DoubleDot || kind == TokenKind::BulletListMarker || kind
            == TokenKind::EnumeratedListMarker || kind == TokenKind::Field {
            let result = if kind == TokenKind::DoubleDot {
                parse_directive_like(&mut stream)
            } else if kind == TokenKind::BulletListMarker {
                parse_bullet_list(&mut stream)
            } else if kind == TokenKind::EnumeratedListMarker {
                parse_enumerated_list(&mut stream)
            } else {
                parse_field_list(&mut stream)
            };
            match result {
                Ok(n) => {
                    AstNode::push_child_at_path(&mut doc, current.as_slice(), n);
                },
                Err(e) => {
                    return Err(e);
                },
            }
        } else if kind == TokenKind::BlankLine {
            stream.consume();
            proof {
                lemma_weight_advance(ts, c, c + 1);
            }
        } else if kind == TokenKind::Indent || kind == TokenKind::Dedent {
            stream.consume();
            proof {
                lemma_weight_advance(ts, c, c + 1);
            }
        } else if kind.is(TokenCategory::INLINE_MARKER) || kind.is(TokenCategory::INLINE_TOKEN) || kind.is(
            TokenCategory::PLAIN,
        ) {
            match parse_paragraph(&mut stream) {
                Ok(p) => {
                    proof {
                        lemma_paragraph_progress(ts, c);
                        lemma_weight_advance(ts, c, stream.spec_cursor() as int);
                    }
                    AstNode::push_child_at_path(&mut doc, current.as_slice(), p);
                },
                Err(e) => {
                    return Err(e);
                },
            }
        } else if kind == TokenKind::EoF {
            return Ok(doc);
        } else {
            proof {
                reveal_strlit("document element");
            }
            return Err(
                ParserError::UnexpectedToken {
                    expected: "document element".to_owned(),
                    found: kind.name().to_owned(),
                    index,
                },
            );
        }
    }
}

#[verifier::spinoff_prover]
#[verifier::rlimit(40)]
proof fn lemma_parse_loop_keeps_root(doc: NodeView, current: Seq<usize>, ts: TokenSeq, c: int)
    ensures
        parse_loop(doc, current, ts, c) matches Ok(d) ==> d.class == doc.class,
    decreases weight(ts, c),
{
    let k = view_kind(ts, c);
    let line_end = match first_of_kinds(ts, seq![TokenKind::NewLine], c) {
        Some(i) => i,
        None => ts.len() as int,
    };
    let next = view_kind(ts, line_end + 1);
    if c < 0 || c >= usize::MAX {
    } else if (k == TokenKind::Separator && (next == TokenKind::Indent || next == TokenKind::Word)) || (k
        == TokenKind::Word && next == TokenKind::Separator) {
        match spec_section_header(ts, c) {
            Err(e) => {},
            Ok((section, after)) => {
                let parent = section_parent(doc, current, section_marker(section));
                let title_start = if k == TokenKind::Separator {
                    c + 2
                } else {
                    c
                };
                lemma_first_of_kinds_bound(ts, seq![TokenKind::NewLine], title_start);
                lemma_weight_advance(ts, c, after);
                crate::ast::lemma_push_at_class(doc, parent, section);
                lemma_parse_loop_keeps_root(
                    push_at(doc, parent, section),
                    parent.push(child_count_at(doc, parent) as usize),
                    ts,
                    after,
                );
            },
        }
    } else if k == TokenKind::DoubleDot || k == TokenKind::BulletListMarker || k == TokenKind::EnumeratedListMarker
        || k == TokenKind::Field {
        let element: Parsed = if k == TokenKind::DoubleDot {
            spec_directive_like(ts, c)
        } else if k == TokenKind::BulletListMarker {
            spec_bullet_list(ts, c)
        } else if k == TokenKind::EnumeratedListMarker {
            spec_enumerated_list(ts, c)
        } else {
            spec_field_list(ts, c)
        };
        match element.0 {
            Err(e) => {},
            Ok(n) => if weight(element.1, element.2) >= weight(ts, c) {
                crate::ast::lemma_push_at_class(doc, current, n);
            } else if weight(element.1, element.2) < weight(ts, c) {
                crate::ast::lemma_push_at_class(doc, current, n);
                lemma_parse_loop_keeps_root(push_at(doc, current, n), current, element.1, element.2);
            },
        }
    } else if k == TokenKind::BlankLine || k == TokenKind::Indent || k == TokenKind::Dedent {
        lemma_weight_advance(ts, c, c + 1);
        lemma_parse_loop_keeps_root(doc, current, ts, c + 1);
    } else if starts_paragraph(k) {
        let (r, c2) = spec_paragraph(ts, c);
        match r {
            Err(e) => {},
            Ok(p) => {
                lemma_paragraph_progress(ts, c);
                lemma_weight_advance(ts, c, c2);
                crate::ast::lemma_push_at_class(doc, current, p);
                lemma_parse_loop_keeps_root(push_at(doc, current, p), current, ts, c2);
            },
        }
    }
}

/// Whatever the input, a tree that parsing gives has a document at its root.
pub proof fn law_parse_root_is_document(input: Seq<char>)
    ensures
        spec_parse(input) matches Ok(doc) ==> doc.class == NodeClass::Document,
{
    lemma_parse_loop_keeps_root(empty_node(NodeClass::Document), Seq::empty(), spec_tokenize(input), 0);
}

proof fn lemma_section_header_shape(ts: TokenSeq, start: int)
    ensures
        spec_section_header(ts, start) matches Ok((s, a)) ==> s.class == NodeClass::Section && descendants_unmarked(s),
{
    lemma_attribute_keys();
    if let Ok((s, a)) = spec_section_header(ts, start) {
        assert(unmarked(s.children[0]));
        lemma_children_unmarked(s);
    }
}

/// Adding an unmarked element under the current node keeps sections
/// unnested and markers on sections.
proof fn lemma_push_unmarked(doc: NodeView, current: Seq<usize>, n: NodeView)
    requires
        unmarked(n),
        sections_unnested(doc),
        markers_on_sections(doc),
    ensures
        sections_unnested(push_at(doc, current, n)),
        markers_on_sections(push_at(doc, current, n)),
{
    lemma_unmarked_descendants(n);
    if node_at(doc, current) is Some {
        lemma_push_keeps_unnested(doc, current, n);
    } else {
        lemma_push_at_nowhere(doc, current, n);
    }
}

proof fn lemma_parse_loop_unnested(doc: NodeView, current: Seq<usize>, ts: TokenSeq, c: int)
    requires
        doc.class == NodeClass::Document,
        sections_unnested(doc),
        markers_on_sections(doc),
    ensures
        parse_loop(doc, current, ts, c) matches Ok(d) ==> sections_unnested(d) && markers_on_sections(d),
    decreases weight(ts, c),
{
    let k = view_kind(ts, c);
    let line_end = match first_of_kinds(ts, seq![TokenKind::NewLine], c) {
        Some(i) => i,
        None => ts.len() as int,
    };
    let next = view_kind(ts, line_end + 1);
    if c < 0 || c >= usize::MAX {
    } else if (k == TokenKind::Separator && (next == TokenKind::Indent || next == TokenKind::Word)) || (k
        == TokenKind::Word && next == TokenKind::Separator) {
        if let Ok((section, after)) = spec_section_header(ts, c) {
            let parent = section_parent(doc, current, section_marker(section));
            let title_start = if k == TokenKind::Separator {
                c + 2
            } else {
                c
            };
            lemma_first_of_kinds_bound(ts, seq![TokenKind::NewLine], title_start);
            lemma_weight_advance(ts, c, after);
            lemma_section_header_shape(ts, c);
            lemma_section_parent_unmarked_above(doc, current, section);
            lemma_push_keeps_unnested(doc, parent, section);
            lemma_push_at_class(doc, parent, section);
            lemma_parse_loop_unnested(
                push_at(doc, parent, section),
                parent.push(child_count_at(doc, parent) as usize),
                ts,
                after,
            );
        }
    } else if k == TokenKind::DoubleDot || k == TokenKind::BulletListMarker || k == TokenKind::EnumeratedListMarker
        || k == TokenKind::Field {
        let element: Parsed = if k == TokenKind::DoubleDot {
            lemma_directive_like_unmarked(ts, c);
            spec_directive_like(ts, c)
        } else if k == TokenKind::BulletListMarker {
            lemma_bullet_list_unmarked(ts, c);
            spec_bullet_list(ts, c)
        } else if k == TokenKind::EnumeratedListMarker {
            lemma_enumerated_list_unmarked(ts, c);
            spec_enumerated_list(ts, c)
        } else {
            lemma_field_list_unmarked(ts, c);
            spec_field_list(ts, c)
        };
        if let Ok(n) = element.0 {
            lemma_push_unmarked(doc, current, n);
            lemma_push_at_class(doc, current, n);
            if weight(element.1, element.2) < weight(ts, c) {
                lemma_parse_loop_unnested(push_at(doc, current, n), current, element.1, element.2);
            }
        }
    } else if k == TokenKind::BlankLine || k == TokenKind::Indent || k == TokenKind::Dedent {
        lemma_weight_advance(ts, c, c + 1);
        lemma_parse_loop_unnested(doc, current, ts, c + 1);
    } else if starts_paragraph(k) {
        let (r, c2) = spec_paragraph(ts, c);
        if let Ok(p) = r {
            lemma_paragraph_progress(ts, c);
            lemma_weight_advance(ts, c, c2);
            lemma_paragraph_unmarked(ts, c);
            lemma_push_unmarked(doc, current, p);
            lemma_push_at_class(doc, current, p);
            lemma_parse_loop_unnested(push_at(doc, current, p), current, ts, c2);
        }
    }
}

/// Sections nest by their markers: in the tree that parsing gives, no
/// section lies inside a section with the same marker, and only sections
/// carry a marker.
pub proof fn law_parse_sections_unnested(input: Seq<char>)
    ensures
        spec_parse(input) matches Ok(doc) ==> sections_unnested(doc) && markers_on_sections(doc),
{
    lemma_childless_unnested(empty_node(NodeClass::Document));
    lemma_parse_loop_unnested(empty_node(NodeClass::Document), Seq::empty(), spec_tokenize(input), 0);
}

} // verus!
