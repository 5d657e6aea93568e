//! Paragraphs and what they are made of: plain text, inline markup and
//! references.

use vstd::prelude::*;

use crate::ast::{empty_node, lemma_attribute_keys, unmarked, with_child, AstNode, AttrView, AttributeType, NodeClass, NodeView};
use crate::parser_errors::{ErrorKind, ParserError};
use crate::token::{spec_token_name, Token, TokenCategory, TokenKind};
use crate::token_slice::{view_kind, text_of, tokens_text_between};
use crate::token_stream::{TokenSeq, first_of_kinds, lemma_first_of_kinds_bound, TokenStream};

verus! {

/// The kinds that end a paragraph.
pub open spec fn paragraph_end_kinds() -> Seq<TokenKind> {
    seq![TokenKind::BlankLine, TokenKind::Separator, TokenKind::Indent, TokenKind::Dedent, TokenKind::EoF]
}

/// Where the paragraph that starts at `c` ends: at the first token of one of
/// the ending kinds, or at the end of the tokens.
pub open spec fn paragraph_end(ts: TokenSeq, c: int) -> int {
    match first_of_kinds(ts, paragraph_end_kinds(), c) {
        Some(i) => i,
        None => ts.len() as int,
    }
}

/// The kinds that open inline markup.
pub open spec fn inline_marker_kinds() -> Seq<TokenKind> {
    seq![
        TokenKind::StrongStart,
        TokenKind::EmphasisStart,
        TokenKind::InlineLiteralStart,
        TokenKind::BackquoteStart,
        TokenKind::InlineInternalTargetStart,
    ]
}

/// The kinds of reference tokens.
pub open spec fn inline_token_kinds() -> Seq<TokenKind> {
    seq![
        TokenKind::SubstitutionReference,
        TokenKind::FootnoteReference,
        TokenKind::SimpleHyperlinkReference,
        TokenKind::SimpleAnonymousHyperLinkReference,
    ]
}

/// The kinds that plain text is made of.
pub open spec fn plain_kinds() -> Seq<TokenKind> {
    seq![
        TokenKind::Word,
        TokenKind::Spaces,
        TokenKind::Punctuation,
        TokenKind::BulletListMarker,
        TokenKind::NewLine,
        TokenKind::LiteralChar,
    ]
}

/// The lexeme of the token at `c`, empty past the end.
pub open spec fn lexeme_at(ts: TokenSeq, c: int) -> Seq<char> {
    if 0 <= c < ts.len() {
        ts[c].1
    } else {
        Seq::empty()
    }
}

/// Where the cursor stands after consuming one token at `c`.
pub open spec fn after_consume(ts: TokenSeq, c: int) -> int {
    if c < ts.len() {
        c + 1
    } else {
        ts.len() as int
    }
}

/// The text of the tokens from `from` to `to`.
pub open spec fn text_between(ts: TokenSeq, from: int, to: int) -> Seq<char> {
    if 0 <= from <= to <= ts.len() {
        text_of(ts.subrange(from, to))
    } else {
        Seq::empty()
    }
}

/// A node of class `class` whose only attribute is `key` with the text
/// `value`.
pub open spec fn node_with(class: NodeClass, key: Seq<char>, value: Seq<char>) -> NodeView {
    NodeView { attributes: Map::empty().insert(key, AttrView::Str(value)), ..empty_node(class) }
}

/// `l` without `front` characters at the start and `back` at the end, empty
/// where it is too short to hold them.
pub open spec fn trim_marks(l: Seq<char>, front: int, back: int) -> Seq<char> {
    if l.len() >= front + back {
        l.subrange(front, l.len() - back)
    } else {
        Seq::empty()
    }
}

/// For a reference token kind: how many characters of marks it has at the
/// start and at the end, and the type of reference.
pub open spec fn reference_kind(k: TokenKind) -> Option<(int, int, Seq<char>)> {
    match k {
        TokenKind::FootnoteReference => Some((1, 2, "footnote"@)),
        TokenKind::SubstitutionReference => Some((1, 1, "sub"@)),
        TokenKind::SimpleHyperlinkReference => Some((0, 1, "simple_ref"@)),
        TokenKind::SimpleAnonymousHyperLinkReference => Some((0, 2, "simple_anonymous_ref"@)),
        _ => None,
    }
}

/// A reference parsed from the token at `c`, and where the cursor stands
/// after it: the token is consumed either way.
pub open spec fn spec_inline_token(ts: TokenSeq, c: int) -> (Result<NodeView, ErrorKind>, int) {
    let k = view_kind(ts, c);
    match reference_kind(k) {
        Some((front, back, ty)) => (
            Ok(
                NodeView {
                    attributes: Map::empty().insert("text"@, AttrView::Str(trim_marks(lexeme_at(ts, c), front, back)))
                        .insert("type"@, AttrView::Str(ty)),
                    ..empty_node(NodeClass::Reference)
                },
            ),
            after_consume(ts, c),
        ),
        None => (
            Err(ErrorKind::UnexpectedToken { expected: "Reference token"@, found: spec_token_name(k), index: c as usize }),
            after_consume(ts, c),
        ),
    }
}

/// For a kind that opens inline markup: its markup name and the kinds that
/// may close it.
pub open spec fn inline_markup(k: TokenKind) -> Option<(Seq<char>, Seq<TokenKind>)> {
    match k {
        TokenKind::StrongStart => Some(("strong"@, seq![TokenKind::StrongEnd])),
        TokenKind::EmphasisStart => Some(("emphasis"@, seq![TokenKind::EmphasisEnd])),
        TokenKind::InlineLiteralStart => Some(("inline_literal"@, seq![TokenKind::InlineLiteralEnd])),
        TokenKind::InlineInternalTargetStart => Some(("inline_internal_target"@, seq![TokenKind::BackquoteEnd])),
        TokenKind::BackquoteStart => Some(
            ("interpreted_or_hyperlink"@, seq![TokenKind::BackquoteEnd, TokenKind::HyperlinkReferenceEnd]),
        ),
        _ => None,
    }
}

/// The markup name once the closing token is known: a backquoted text is a
/// hyperlink reference or interpreted text by the way it closes.
pub open spec fn effective_markup(open: TokenKind, close: TokenKind, markup: Seq<char>) -> Seq<char> {
    if open == TokenKind::BackquoteStart && close == TokenKind::HyperlinkReferenceEnd {
        "hyperlink_reference"@
    } else if open == TokenKind::BackquoteStart && close == TokenKind::BackquoteEnd {
        "interpreted_text"@
    } else {
        markup
    }
}

/// Inline markup parsed from the opening token at `c` to its closing token,
/// and where the cursor stands after it.
pub open spec fn spec_inline(ts: TokenSeq, c: int) -> (Result<NodeView, ErrorKind>, int) {
    let k = view_kind(ts, c);
    match inline_markup(k) {
        None => (
            Err(ErrorKind::UnexpectedToken { expected: "Inline start token"@, found: spec_token_name(k), index: c as usize }),
            c,
        ),
        Some((markup, ends)) => match first_of_kinds(ts, ends, c + 1) {
            None => (Err(ErrorKind::InlineMissingClosing { markup, start_at: c as usize }), c),
            Some(f) => (
                Ok(
                    NodeView {
                        attributes: Map::empty().insert("markup"@, AttrView::Str(effective_markup(k, ts[f].0, markup)))
                            .insert("text"@, AttrView::Str(text_between(ts, c + 1, f))),
                        ..empty_node(NodeClass::InlineMarkup)
                    },
                ),
                f + 1,
            ),
        },
    }
}

/// Where the run of plain-text tokens that starts at `c` ends, reading no
/// further than `stop`.
pub open spec fn plain_end(ts: TokenSeq, c: int, stop: int) -> int
    decreases ts.len() - c,
{
    if 0 <= c && c < stop && c < ts.len() && plain_kinds().contains(ts[c].0) {
        plain_end(ts, c + 1, stop)
    } else {
        c
    }
}

/// Inline markup is named by the delimiter that opens it: a single `*`
/// gives emphasis, `**` strong emphasis, two backquotes an inline literal;
/// the node is inline markup whose text runs between the delimiters.
pub proof fn law_inline_markup_named_by_its_delimiter(ts: TokenSeq, c: int)
    ensures
        spec_inline(ts, c).0 matches Ok(n) ==> n.class == NodeClass::InlineMarkup && n.attributes.contains_key(
            "markup"@,
        ) && n.attributes.contains_key("text"@) && (view_kind(ts, c) == TokenKind::EmphasisStart
            ==> n.attributes["markup"@] == AttrView::Str("emphasis"@)) && (view_kind(ts, c) == TokenKind::StrongStart
            ==> n.attributes["markup"@] == AttrView::Str("strong"@)) && (view_kind(ts, c)
            == TokenKind::InlineLiteralStart ==> n.attributes["markup"@] == AttrView::Str("inline_literal"@)),
{
    reveal_strlit("markup");
    reveal_strlit("text");
    assert("markup"@ != "text"@) by {
        assert("markup"@.len() != "text"@.len());
    }
}

/// Plain text from `c` on, reading no further than `stop`.
pub open spec fn spec_plain(ts: TokenSeq, c: int, stop: int) -> (NodeView, int) {
    let e = plain_end(ts, c, stop);
    (node_with(NodeClass::PlainText, "text"@, text_between(ts, c, e)), e)
}

/// One element of a paragraph that ends at `end`, from `c` on.
pub open spec fn paragraph_item(ts: TokenSeq, c: int, end: int) -> (Result<NodeView, ErrorKind>, int) {
    let k = view_kind(ts, c);
    if inline_marker_kinds().contains(k) {
        spec_inline(ts, c)
    } else if inline_token_kinds().contains(k) {
        spec_inline_token(ts, c)
    } else if plain_kinds().contains(k) {
        (Ok(spec_plain(ts, c, end).0), spec_plain(ts, c, end).1)
    } else {
        (Err(ErrorKind::UnexpectedToken { expected: "Inline/plain"@, found: spec_token_name(k), index: c as usize }), c)
    }
}

proof fn lemma_plain_end(ts: TokenSeq, c: int, stop: int)
    ensures
        plain_end(ts, c, stop) >= c,
        0 <= c && c < stop && c < ts.len() && plain_kinds().contains(ts[c].0) ==> plain_end(ts, c, stop) > c,
        c >= 0 ==> plain_end(ts, c, stop) <= ts.len() || plain_end(ts, c, stop) == c,
    decreases ts.len() - c,
{
    if 0 <= c && c < stop && c < ts.len() && plain_kinds().contains(ts[c].0) {
        lemma_plain_end(ts, c + 1, stop);
    }
}

/// A paragraph element starting at `c`, inside the paragraph, moves the
/// cursor on where it succeeds.
pub proof fn lemma_paragraph_item_advances(ts: TokenSeq, c: int, end: int)
    requires
        0 <= c < end,
    ensures
        paragraph_item(ts, c, end).0 is Ok ==> paragraph_item(ts, c, end).1 > c,
{
    let k = view_kind(ts, c);
    if inline_marker_kinds().contains(k) {
        if let Some((markup, ends)) = inline_markup(k) {
            lemma_first_of_kinds_bound(ts, ends, c + 1);
        }
    } else if inline_token_kinds().contains(k) {
    } else if plain_kinds().contains(k) {
        lemma_plain_end(ts, c, end);
    }
}

/// The elements of a paragraph from `c` to `end`, and where the cursor
/// stands after them.
pub open spec fn paragraph_items(ts: TokenSeq, c: int, end: int) -> (Result<Seq<NodeView>, ErrorKind>, int)
    decreases (if c < end { end - c } else { 0 }),
{
    if c < 0 || c >= end {
        (Ok(Seq::empty()), c)
    } else {
        let (r, c2) = paragraph_item(ts, c, end);
        match r {
            Err(e) => (Err(e), c2),
            Ok(n) => {
                proof {
                    lemma_paragraph_item_advances(ts, c, end);
                }
                let (rest, c3) = paragraph_items(ts, c2, end);
                match rest {
                    Ok(ns) => (Ok(seq![n] + ns), c3),
                    Err(e) => (Err(e), c3),
                }
            },
        }
    }
}

/// The paragraph that starts at `c`, and where the cursor stands after it.
pub open spec fn spec_paragraph(ts: TokenSeq, c: int) -> (Result<NodeView, ErrorKind>, int) {
    let (r, c2) = paragraph_items(ts, c, paragraph_end(ts, c));
    match r {
        Ok(items) => (Ok(NodeView { children: items, ..empty_node(NodeClass::Paragraph) }), c2),
        Err(e) => (Err(e), c2),
    }
}

proof fn lemma_paragraph_item_unmarked(ts: TokenSeq, c: int, end: int)
    ensures
        paragraph_item(ts, c, end).0 matches Ok(n) ==> unmarked(n),
{
    lemma_attribute_keys();
}

proof fn lemma_paragraph_items_unmarked(ts: TokenSeq, c: int, end: int)
    ensures
        paragraph_items(ts, c, end).0 matches Ok(ns) ==> forall|i: int| 0 <= i < ns.len() ==> unmarked(#[trigger] ns[i]),
    decreases (if c < end { end - c } else { 0 }),
{
    if 0 <= c < end {
        let (r, c2) = paragraph_item(ts, c, end);
        if let Ok(n) = r {
            lemma_paragraph_item_advances(ts, c, end);
            lemma_paragraph_item_unmarked(ts, c, end);
            lemma_paragraph_items_unmarked(ts, c2, end);
            if let Ok(ns) = paragraph_items(ts, c2, end).0 {
                let all = seq![n] + ns;
                assert forall|i: int| 0 <= i < all.len() implies unmarked(#[trigger] all[i]) by {
                    if i > 0 {
                        assert(all[i] == ns[i - 1]);
                    }
                }
            }
        }
    }
}

/// No node of a paragraph carries a section marker.
pub proof fn lemma_paragraph_unmarked(ts: TokenSeq, c: int)
    ensures
        spec_paragraph(ts, c).0 matches Ok(p) ==> unmarked(p),
{
    lemma_paragraph_items_unmarked(ts, c, paragraph_end(ts, c));
}

/// Whether `r` and the cursor `c` are what a spec gives.
pub open spec fn parsed_as(r: Result<AstNode, ParserError>, c: int, expected: (Result<NodeView, ErrorKind>, int)) -> bool {
    &&& c == expected.1
    &&& match r {
        Ok(n) => expected.0 == Ok::<NodeView, ErrorKind>(n@),
        Err(e) => expected.0 == Err::<NodeView, ErrorKind>(e@),
    }
}

/// Prepends `pre` to the elements of a paragraph result.
pub open spec fn prepend(pre: Seq<NodeView>, r: (Result<Seq<NodeView>, ErrorKind>, int)) -> (
    Result<Seq<NodeView>, ErrorKind>,
    int,
) {
    (
        match r.0 {
            Ok(ns) => Ok(pre + ns),
            Err(e) => Err(e),
        },
        r.1,
    )
}

/// A reference node with the lexeme's text between its marks and the type
/// `ty`.
fn reference_node(lexeme: &str, front: usize, back: usize, ty: &str) -> (n: AstNode)
    ensures
        n@ == (NodeView {
            attributes: Map::empty().insert("text"@, AttrView::Str(trim_marks(lexeme@, front as int, back as int)))
                .insert("type"@, AttrView::Str(ty@)),
            ..empty_node(NodeClass::Reference)
        }),
{
    let len = lexeme.unicode_len();
    let text = if front <= len && back <= len - front {
        lexeme.substring_char(front, len - back)
    } else {
        proof {
            reveal_strlit("");
        }
        ""
    };
    assert(text@ == trim_marks(lexeme@, front as int, back as int));
    let mut node = AstNode::new_ref(NodeClass::Reference);
    node.with_attr("text", AttributeType::from_str(text));
    node.with_attr("type", AttributeType::from_str(ty));
    node
}

/// Parses the reference token at the cursor; the token is consumed either
/// way.
pub fn parse_inline_token(stream: &mut TokenStream) -> (r: Result<AstNode, ParserError>)
    ensures
        final(stream).spec_tokens() == old(stream).spec_tokens(),
        parsed_as(
            r,
            final(stream).spec_cursor() as int,
            spec_inline_token(old(stream).spec_tokens(), old(stream).spec_cursor() as int),
        ),
{
    let at = stream.cursor();
    let token = stream.consume();
    let lexeme = token.lexeme.as_str();
    proof {
        reveal_strlit("Reference token");
        if at >= old(stream).spec_tokens().len() {
            assert(lexeme_at(old(stream).spec_tokens(), at as int) =~= Seq::<char>::empty());
        }
    }
    match token.kind {
        TokenKind::FootnoteReference => Ok(reference_node(lexeme, 1, 2, "footnote")),
        TokenKind::SubstitutionReference => Ok(reference_node(lexeme, 1, 1, "sub")),
        TokenKind::SimpleHyperlinkReference => Ok(reference_node(lexeme, 0, 1, "simple_ref")),
        TokenKind::SimpleAnonymousHyperLinkReference => Ok(reference_node(lexeme, 0, 2, "simple_anonymous_ref")),
        _ => Err(
            ParserError::UnexpectedToken {
                expected: "Reference token".to_owned(),
                found: token.kind.name().to_owned(),
                index: at,
            },
        ),
    }
}

/// Parses inline markup from its opening token at the cursor to its closing
/// token, and moves the cursor past the closing token.
pub fn parse_inline(stream: &mut TokenStream) -> (r: Result<AstNode, ParserError>)
    ensures
        final(stream).spec_tokens() == old(stream).spec_tokens(),
        parsed_as(
            r,
            final(stream).spec_cursor() as int,
            spec_inline(old(stream).spec_tokens(), old(stream).spec_cursor() as int),
        ),
{
    let start_at = stream.cursor();
    let kind = stream.kind_at_cursor();
    proof {
        reveal_strlit("Inline start token");
    }
    let (markup, ends): (&str, Vec<TokenKind>) = match kind {
        TokenKind::StrongStart => ("strong", vec![TokenKind::StrongEnd]),
        TokenKind::EmphasisStart => ("emphasis", vec![TokenKind::EmphasisEnd]),
        TokenKind::InlineLiteralStart => ("inline_literal", vec![TokenKind::InlineLiteralEnd]),
        TokenKind::InlineInternalTargetStart => ("inline_internal_target", vec![TokenKind::BackquoteEnd]),
        TokenKind::BackquoteStart => (
            "interpreted_or_hyperlink",
            vec![TokenKind::BackquoteEnd, TokenKind::HyperlinkReferenceEnd],
        ),
        _ => {
            return Err(
                ParserError::UnexpectedToken {
                    expected: "Inline start token".to_owned(),
                    found: kind.name().to_owned(),
                    index: start_at,
                },
            );
        },
    };
    assert(inline_markup(kind) == Some((markup@, ends@)));
    assert(start_at < stream.spec_tokens().len());
    let total = stream.tokens().len();
    let inline_final = match stream.find_next_kind_from(ends.as_slice(), start_at + 1) {
        Ok(i) => i,
        Err(_) => {
            return Err(ParserError::InlineMissingClosing { markup: markup.to_owned(), start_at });
        },
    };
    proof {
        lemma_first_of_kinds_bound(stream.spec_tokens(), ends@, start_at + 1);
    }
    let close = stream.tokens()[inline_final].kind;
    let effective = if kind == TokenKind::BackquoteStart && close == TokenKind::HyperlinkReferenceEnd {
        "hyperlink_reference"
    } else if kind == TokenKind::BackquoteStart && close == TokenKind::BackquoteEnd {
        "interpreted_text"
    } else {
        markup
    };
    let mut inline = AstNode::new_ref(NodeClass::InlineMarkup);
    inline.with_attr("markup", AttributeType::from_str(effective));
    let text = tokens_text_between(stream.tokens(), start_at + 1, inline_final);
    inline.with_attr("text", AttributeType::String(text));
    stream.set_cursor(inline_final + 1);
    Ok(inline)
}

/// Parses plain text from the cursor on, reading no further than
/// `stop_before`.
pub fn parse_plain(stream: &mut TokenStream, stop_before: usize) -> (r: Result<AstNode, ParserError>)
    ensures
        final(stream).spec_tokens() == old(stream).spec_tokens(),
        r is Ok,
        parsed_as(
            r,
            final(stream).spec_cursor() as int,
            (
                Ok(spec_plain(old(stream).spec_tokens(), old(stream).spec_cursor() as int, stop_before as int).0),
                spec_plain(old(stream).spec_tokens(), old(stream).spec_cursor() as int, stop_before as int).1,
            ),
        ),
{
    let ghost ts = stream.spec_tokens();
    let ghost c0 = stream.spec_cursor() as int;
    let kinds = vec![
        TokenKind::Word,
        TokenKind::Spaces,
        TokenKind::Punctuation,
        TokenKind::BulletListMarker,
        TokenKind::NewLine,
        TokenKind::LiteralChar,
    ];
    assert(kinds@ == plain_kinds());
    let mut text = String::new();
    assert(text_between(ts, c0, c0) =~= Seq::<char>::empty()) by {
        if c0 <= ts.len() {
            assert(ts.subrange(c0, c0) =~= seq![]);
        }
    }
    while stream.cursor() < stop_before && stream.kind_at_cursor().is(kinds.as_slice())
        invariant
            stream.spec_tokens() == ts,
            kinds@ == plain_kinds(),
            0 <= c0,
            c0 <= stream.spec_cursor() <= ts.len() || stream.spec_cursor() == c0,
            plain_end(ts, c0, stop_before as int) == plain_end(ts, stream.spec_cursor() as int, stop_before as int),
            text@ == text_between(ts, c0, stream.spec_cursor() as int),
        decreases ts.len() - stream.spec_cursor(),
    {
        let ghost c = stream.spec_cursor() as int;
        assert(c < ts.len());
        assert(c0 <= c);
        let token = stream.consume();
        text.append(token.lexeme.as_str());
        proof {
            assert(ts.subrange(c0, c + 1) =~= ts.subrange(c0, c).push(ts[c]));
            assert(ts.subrange(c0, c + 1).drop_last() =~= ts.subrange(c0, c));
            assert(token.lexeme@ == ts[c].1);
            assert(text_between(ts, c0, c + 1) == text_between(ts, c0, c) + ts[c].1);
        }
    }
    let mut sentence = AstNode::new_ref(NodeClass::PlainText);
    sentence.with_attr("text", AttributeType::String(text));
    Ok(sentence)
}

/// Parses a paragraph from the cursor to its end: the first blank line,
/// separator, indentation change or end of input.
pub fn parse_paragraph(stream: &mut TokenStream) -> (r: Result<AstNode, ParserError>)
    ensures
        final(stream).spec_tokens() == old(stream).spec_tokens(),
        parsed_as(
            r,
            final(stream).spec_cursor() as int,
            spec_paragraph(old(stream).spec_tokens(), old(stream).spec_cursor() as int),
        ),
{
    let ghost ts = stream.spec_tokens();
    let ghost c0 = stream.spec_cursor() as int;
    let ends = vec![
        TokenKind::BlankLine,
        TokenKind::Separator,
        TokenKind::Indent,
        TokenKind::Dedent,
        TokenKind::EoF,
    ];
    assert(ends@ == paragraph_end_kinds());
    let paragraph_end = match stream.find_next_kind(ends.as_slice()) {
        Ok(i) => i,
        Err(_) => stream.tokens().len(),
    };
    assert(TokenCategory::INLINE_MARKER@ == inline_marker_kinds());
    assert(TokenCategory::INLINE_TOKEN@ == inline_token_kinds());
    assert(TokenCategory::PLAIN@ == seq![
        TokenKind::Spaces,
        TokenKind::Word,
        TokenKind::Punctuation,
        TokenKind::LiteralChar,
    ]);
    let mut paragraph = AstNode::new_ref(NodeClass::Paragraph);
    let ghost mut items: Seq<NodeView> = Seq::empty();
    assert(prepend(items, paragraph_items(ts, c0, paragraph_end as int)).0 =~= paragraph_items(
        ts,
        c0,
        paragraph_end as int,
    ).0);
    while stream.cursor() < paragraph_end
        invariant
            stream.spec_tokens() == ts,
            ts == old(stream).spec_tokens(),
            c0 == old(stream).spec_cursor(),
            0 <= c0,
            paragraph_end == self::paragraph_end(ts, c0),
            paragraph@ == (NodeView { children: items, ..empty_node(NodeClass::Paragraph) }),
            paragraph_items(ts, c0, paragraph_end as int) == prepend(
                items,
                paragraph_items(ts, stream.spec_cursor() as int, paragraph_end as int),
            ),
        decreases (if stream.spec_cursor() < paragraph_end { paragraph_end - stream.spec_cursor() } else { 0 }),
    {
        let ghost c = stream.spec_cursor() as int;
        let kind = stream.kind_at_cursor();
        let result = if kind.is(TokenCategory::INLINE_MARKER) {
            parse_inline(stream)
        } else if kind.is(TokenCategory::INLINE_TOKEN) {
            parse_inline_token(stream)
        } else if kind.is(TokenCategory::PLAIN) || kind == TokenKind::BulletListMarker || kind
            == TokenKind::NewLine {
            parse_plain(stream, paragraph_end)
        } else {
            proof {
                reveal_strlit("Inline/plain");
            }
            Err(
                ParserError::UnexpectedToken {
                    expected: "Inline/plain".to_owned(),
                    found: kind.name().to_owned(),
                    index: stream.cursor(),
                },
            )
        };
        assert(paragraph_item(ts, c, paragraph_end as int) == (
            match result {
                Ok(n) => Ok::<NodeView, ErrorKind>(n@),
                Err(e) => Err::<NodeView, ErrorKind>(e@),
            },
            stream.spec_cursor() as int,
        ));
        match result {
            Ok(node) => {
                proof {
                    lemma_paragraph_item_advances(ts, c, paragraph_end as int);
                    let rest = paragraph_items(ts, stream.spec_cursor() as int, paragraph_end as int);
                    match rest.0 {
                        Ok(ns) => {
                            assert(items + (seq![node@] + ns) =~= items.push(node@) + ns);
                        },
                        Err(_) => {},
                    }
                    assert(prepend(items, paragraph_items(ts, c, paragraph_end as int)) == prepend(
                        items.push(node@),
                        rest,
                    ));
                    items = items.push(node@);
                }
                AstNode::push_child(&mut paragraph, node);
            },
            Err(e) => {
                return Err(e);
            },
        }
    }
    assert(prepend(items, paragraph_items(ts, stream.spec_cursor() as int, paragraph_end as int)).0 =~= Ok::<
        Seq<NodeView>,
        ErrorKind,
    >(items));
    Ok(paragraph)
}

/// What a parser that may change the tokens gives: its result, the tokens
/// afterwards and where the cursor stands.
pub type Parsed = (Result<NodeView, ErrorKind>, TokenSeq, int);

/// Whether `r`, the tokens `ts` and the cursor `c` are what a spec gives.
pub open spec fn outcome(r: Result<AstNode, ParserError>, ts: TokenSeq, c: int, expected: Parsed) -> bool {
    &&& ts == expected.1
    &&& c == expected.2
    &&& match r {
        Ok(n) => expected.0 == Ok::<NodeView, ErrorKind>(n@),
        Err(e) => expected.0 == Err::<NodeView, ErrorKind>(e@),
    }
}

/// Parsing the elements of a paragraph never moves the cursor back.
pub proof fn lemma_paragraph_items_mono(ts: TokenSeq, c: int, end: int)
    requires
        0 <= c,
        end <= ts.len(),
    ensures
        paragraph_items(ts, c, end).1 >= c,
    decreases (if c < end { end - c } else { 0 }),
{
    if c < end {
        let (r, c2) = paragraph_item(ts, c, end);
        match r {
            Err(e) => {
                let k = view_kind(ts, c);
                if inline_marker_kinds().contains(k) {
                } else if inline_token_kinds().contains(k) {
                } else if plain_kinds().contains(k) {
                    lemma_plain_end(ts, c, end);
                }
            },
            Ok(n) => {
                lemma_paragraph_item_advances(ts, c, end);
                lemma_paragraph_items_mono(ts, c2, end);
            },
        }
    }
}

/// A paragraph that does not start with a token that ends paragraphs moves
/// the cursor on where it succeeds.
pub proof fn lemma_paragraph_progress(ts: TokenSeq, c: int)
    requires
        0 <= c,
        view_kind(ts, c) != TokenKind::BlankLine,
        view_kind(ts, c) != TokenKind::Separator,
        view_kind(ts, c) != TokenKind::Indent,
        view_kind(ts, c) != TokenKind::Dedent,
        view_kind(ts, c) != TokenKind::EoF,
    ensures
        spec_paragraph(ts, c).0 is Ok ==> spec_paragraph(ts, c).1 > c,
{
    let end = paragraph_end(ts, c);
    lemma_first_of_kinds_bound(ts, paragraph_end_kinds(), c);
    assert(end > c);
    let (r, c2) = paragraph_item(ts, c, end);
    if r is Ok {
        lemma_paragraph_item_advances(ts, c, end);
        lemma_paragraph_items_mono(ts, c2, end);
    }
}

} // verus!
