//! A small recursive-descent parser for headings, comments and directives
//! with indented bodies, into a flat list of blocks.

use vstd::prelude::*;

use crate::lexer::{spec_tokenize, token_views, tokenize};
use crate::paragraph::text_between;
use crate::token::{Token, TokenKind};
use crate::token_slice::{tokens_text_between, view_kind};
use crate::token_stream::TokenSeq;

verus! {

/// Why a text could not be parsed: a message and the token position.
#[derive(Debug, Clone, PartialEq, Eq)]
pub struct ParseError {
    pub message: String,
    pub token_index: usize,
}

impl View for ParseError {
    type V = (Seq<char>, int);

    open spec fn view(&self) -> (Seq<char>, int) {
        (self.message@, self.token_index as int)
    }
}

impl ParseError {
    /// An error with the given message at the given token position.
    pub fn new(message: &str, token_index: usize) -> (e: ParseError)
        ensures
            e@ == (message@, token_index as int),
    {
        ParseError { message: message.to_owned(), token_index }
    }
}

/// A run of words, spaces and punctuation.
pub struct Sentence {
    pub text: String,
}

impl Sentence {
    /// A sentence with the given text.
    pub fn new(text: String) -> (s: Sentence)
        ensures
            s.text@ == text@,
    {
        Sentence { text }
    }
}

/// A title with its underline.
pub struct Heading {
    pub title: Sentence,
    pub underline: String,
}

/// A comment line.
pub struct Comment {
    pub text: Sentence,
}

/// The indented lines that follow a directive, and their indentation.
pub struct IndentedBlock {
    pub indent: String,
    pub lines: Vec<Sentence>,
}

/// A directive: its name, the argument on its line, and its body.
pub struct Directive {
    pub name: String,
    pub argument: Option<Sentence>,
    pub body: IndentedBlock,
}

/// One block of a document.
pub enum Block {
    Heading(Heading),
    Comment(Comment),
    Directive(Directive),
}

/// A document: its blocks in order.
pub struct Document {
    pub blocks: Vec<Block>,
}

impl Document {
    /// A document made of `blocks`.
    pub fn new(blocks: Vec<Block>) -> (d: Document)
        ensures
            d.blocks@ == blocks@,
    {
        Document { blocks }
    }
}

/// The mathematical value of a block.
pub enum BlockView {
    Heading { title: Seq<char>, underline: Seq<char> },
    Comment { text: Seq<char> },
    Directive { name: Seq<char>, argument: Option<Seq<char>>, indent: Seq<char>, lines: Seq<Seq<char>> },
}

/// The texts of a sequence of sentences.
pub open spec fn sentence_texts(s: Seq<Sentence>) -> Seq<Seq<char>> {
    s.map_values(|x: Sentence| x.text@)
}

impl View for Block {
    type V = BlockView;

    open spec fn view(&self) -> BlockView {
        match self {
            Block::Heading(h) => BlockView::Heading { title: h.title.text@, underline: h.underline@ },
            Block::Comment(c) => BlockView::Comment { text: c.text.text@ },
            Block::Directive(d) => BlockView::Directive {
                name: d.name@,
                argument: match d.argument {
                    Some(s) => Some(s.text@),
                    None => None,
                },
                indent: d.body.indent@,
                lines: sentence_texts(d.body.lines@),
            },
        }
    }
}

/// The values of a sequence of blocks.
pub open spec fn block_views(s: Seq<Block>) -> Seq<BlockView> {
    s.map_values(|b: Block| b@)
}

/// What a parse of a part gives: a result, or a message with the token
/// position where it failed.
pub type Scan<T> = (Result<T, (Seq<char>, int)>, int);

/// The kinds that sentences are made of.
pub open spec fn sentence_kind(k: TokenKind) -> bool {
    k == TokenKind::Word || k == TokenKind::Spaces || k == TokenKind::Punctuation || k == TokenKind::LiteralChar
}

/// Where a sentence that starts at `p` ends: at `stop`, at a token that no
/// sentence holds, or at the end.
pub open spec fn sentence_end(ts: TokenSeq, p: int, stop: TokenKind) -> int
    decreases ts.len() - p,
{
    if p < 0 || p >= ts.len() || ts[p].0 == stop || !sentence_kind(ts[p].0) {
        p
    } else {
        sentence_end(ts, p + 1, stop)
    }
}

/// Whether a word lies between `from` and `to`.
pub open spec fn has_word(ts: TokenSeq, from: int, to: int) -> bool {
    exists|i: int| from <= i < to && ts[i].0 == TokenKind::Word
}

/// The sentence from `p` up to `stop`: its text where it holds a word,
/// nothing where it does not, a fault at a token that no sentence holds.
pub open spec fn spec_sentence(ts: TokenSeq, p: int, stop: TokenKind) -> Scan<Option<Seq<char>>> {
    let e = sentence_end(ts, p, stop);
    if 0 <= e < ts.len() && ts[e].0 != stop {
        (Err(("unexpected token in sentence"@, e)), e)
    } else if has_word(ts, p, e) {
        (Ok(Some(text_between(ts, p, e))), e)
    } else {
        (Ok(None), e)
    }
}

/// The first position at or after `p` past blank lines, line breaks and
/// dedents.
pub open spec fn after_blanks(ts: TokenSeq, p: int) -> int
    decreases ts.len() - p,
{
    if 0 <= p < ts.len() && (ts[p].0 == TokenKind::BlankLine || ts[p].0 == TokenKind::NewLine || ts[p].0
        == TokenKind::Dedent) {
        after_blanks(ts, p + 1)
    } else {
        p
    }
}

/// A heading at `p`: a sentence that starts with a word, a line break and a
/// separator line, then an optional line break.
pub open spec fn spec_heading(ts: TokenSeq, p: int) -> Scan<Option<BlockView>> {
    if view_kind(ts, p) != TokenKind::Word {
        (Ok(None), p)
    } else {
        match spec_sentence(ts, p, TokenKind::NewLine) {
            (Err(e), q) => (Err(e), q),
            (Ok(None), q) => (Ok(None), q),
            (Ok(Some(title)), e) => if view_kind(ts, e) != TokenKind::NewLine || view_kind(ts, e + 1)
                != TokenKind::Separator {
                (Ok(None), p)
            } else {
                let q = if view_kind(ts, e + 2) == TokenKind::NewLine {
                    e + 3
                } else {
                    e + 2
                };
                (Ok(Some(BlockView::Heading { title, underline: ts[e + 1].1 })), q)
            },
        }
    }
}

/// A comment at `p`: `..`, a space and a sentence that ends its line.
pub open spec fn spec_comment_block(ts: TokenSeq, p: int) -> Scan<Option<BlockView>> {
    if view_kind(ts, p) != TokenKind::DoubleDot || view_kind(ts, p + 1) != TokenKind::Spaces {
        (Ok(None), p)
    } else {
        match spec_sentence(ts, p + 2, TokenKind::NewLine) {
            (Ok(Some(text)), e) => if view_kind(ts, e) == TokenKind::NewLine {
                (Ok(Some(BlockView::Comment { text })), e + 1)
            } else {
                (Err(("expected newline after comment"@, e)), e)
            },
            _ => (Ok(None), p),
        }
    }
}

/// Whether a lexeme can name a directive.
pub open spec fn name_chars(l: Seq<char>) -> bool {
    forall|i: int|
        0 <= i < l.len() ==> {
            let c = #[trigger] l[i];
            ('a' <= c <= 'z') || ('A' <= c <= 'Z') || ('0' <= c <= '9') || c == '_' || c == ':'
        }
}

/// The name of a directive at `p`: a word, or a run of name characters
/// that the lexer did not read as a word.
pub open spec fn directive_name(ts: TokenSeq, p: int) -> Option<Seq<char>> {
    let k = view_kind(ts, p);
    if k == TokenKind::Word {
        Some(ts[p].1)
    } else if (k == TokenKind::Punctuation || k == TokenKind::LiteralChar) && ts[p].1.len() > 0 && name_chars(
        ts[p].1,
    ) {
        Some(ts[p].1)
    } else {
        None
    }
}

/// Whether a token is a single colon.
pub open spec fn colon_token(t: (TokenKind, Seq<char>)) -> bool {
    (t.0 == TokenKind::Punctuation || t.0 == TokenKind::LiteralChar) && t.1 == ":"@
}

/// Where a run of colon tokens from `q` brings the count of colons, having
/// seen `colons`, to two.
pub open spec fn colon_run(ts: TokenSeq, q: int, colons: int) -> Option<int>
    decreases ts.len() - q,
{
    if 0 <= q < ts.len() && colon_token(ts[q]) {
        if colons + 1 == 2 {
            Some(q + 1)
        } else {
            colon_run(ts, q + 1, colons + 1)
        }
    } else {
        None
    }
}

/// The `::` marker after a directive's name at `q`: a `::` token, or colons
/// (one of which may end the name itself). Gives the name and where the
/// text after the marker starts.
pub open spec fn directive_marker(ts: TokenSeq, q: int, name: Seq<char>) -> Option<(Seq<char>, int)> {
    if view_kind(ts, q) == TokenKind::DoubleColon {
        Some((name, q + 1))
    } else {
        let ends_colon = name.len() > 0 && name.last() == ':';
        let name1 = if ends_colon {
            name.drop_last()
        } else {
            name
        };
        match colon_run(ts, q, if ends_colon {
            1
        } else {
            0
        }) {
            Some(r) => Some((name1, r)),
            None => None,
        }
    }
}

/// One line of an indented block at `q`: a sentence and its line break.
pub open spec fn spec_line(ts: TokenSeq, q: int) -> Scan<Seq<char>> {
    match spec_sentence(ts, q, TokenKind::NewLine) {
        (Err(e), r) => (Err(e), r),
        (Ok(None), r) => (Err(("expected sentence in indented block"@, r)), r),
        (Ok(Some(s)), e) => if view_kind(ts, e) == TokenKind::NewLine {
            (Ok(s), e + 1)
        } else {
            (Err(("expected newline after indented sentence"@, e)), e)
        },
    }
}

pub proof fn lemma_sentence_end(ts: TokenSeq, p: int, stop: TokenKind)
    ensures
        sentence_end(ts, p, stop) >= p,
        0 <= p <= ts.len() ==> sentence_end(ts, p, stop) <= ts.len(),
    decreases ts.len() - p,
{
    if !(p < 0 || p >= ts.len() || ts[p].0 == stop || !sentence_kind(ts[p].0)) {
        lemma_sentence_end(ts, p + 1, stop);
    }
}

/// The further lines of an indented block with indentation `indent` from
/// `q` on: a line after an indentation token of the block's own width, or a
/// line that starts right away (the lexer gives no new indentation token
/// for a line at the same indentation).
pub open spec fn more_lines(ts: TokenSeq, q: int, indent: Seq<char>, lines: Seq<Seq<char>>) -> Scan<Seq<Seq<char>>>
    decreases ts.len() - q,
{
    if q < 0 {
        (Ok(lines), q)
    } else if view_kind(ts, q) == TokenKind::Indent && ts[q].1 == indent {
        proof {
            lemma_sentence_end(ts, q + 1, TokenKind::NewLine);
        }
        match spec_line(ts, q + 1) {
            (Err(e), r) => (Err(e), r),
            (Ok(s), r) => more_lines(ts, r, indent, lines.push(s)),
        }
    } else if sentence_kind(view_kind(ts, q)) {
        proof {
            lemma_sentence_end(ts, q, TokenKind::NewLine);
        }
        match spec_line(ts, q) {
            (Err(e), r) => (Err(e), r),
            (Ok(s), r) => more_lines(ts, r, indent, lines.push(s)),
        }
    } else {
        (Ok(lines), q)
    }
}

/// The indented block at `p`: an indentation token and at least one line.
pub open spec fn spec_indented_block(ts: TokenSeq, p: int) -> Scan<(Seq<char>, Seq<Seq<char>>)> {
    if view_kind(ts, p) != TokenKind::Indent {
        (Err(("expected indented block after directive"@, p)), p)
    } else {
        match spec_line(ts, p + 1) {
            (Err(e), r) => (Err(e), r),
            (Ok(first), r) => match more_lines(ts, r, ts[p].1, seq![first]) {
                (Ok(lines), r2) => (Ok((ts[p].1, lines)), r2),
                (Err(e), r2) => (Err(e), r2),
            },
        }
    }
}

/// A directive at `p`: `..`, a space, a name, the `::` marker, an optional
/// argument sentence, a line break and an indented block.
pub open spec fn spec_directive_block(ts: TokenSeq, p: int) -> Scan<Option<BlockView>> {
    if view_kind(ts, p) != TokenKind::DoubleDot || view_kind(ts, p + 1) != TokenKind::Spaces {
        (Ok(None), p)
    } else {
        match directive_name(ts, p + 2) {
            None => (Ok(None), p),
            Some(name) => match directive_marker(ts, p + 3, name) {
                None => (Ok(None), p),
                Some((name2, q)) => match spec_sentence(ts, q, TokenKind::NewLine) {
                    (Err(e), r) => (Err(e), r),
                    (Ok(argument), e) => if view_kind(ts, e) != TokenKind::NewLine {
                        (Err(("expected newline after directive header"@, e)), e)
                    } else {
                        match spec_indented_block(ts, e + 1) {
                            (Err(err), r) => (Err(err), r),
                            (Ok((indent, lines)), r) => (
                                Ok(Some(BlockView::Directive { name: name2, argument, indent, lines })),
                                r,
                            ),
                        }
                    },
                },
            },
        }
    }
}

pub proof fn lemma_more_lines(ts: TokenSeq, q: int, indent: Seq<char>, lines: Seq<Seq<char>>)
    ensures
        more_lines(ts, q, indent, lines).1 >= q,
        more_lines(ts, q, indent, lines).0 matches Ok(ls) ==> ls.len() >= lines.len(),
        more_lines(ts, q, indent, lines).0 is Ok ==> !(view_kind(ts, more_lines(ts, q, indent, lines).1)
            == TokenKind::Indent && ts[more_lines(ts, q, indent, lines).1].1 == indent),
    decreases ts.len() - q,
{
    if q >= 0 {
        if view_kind(ts, q) == TokenKind::Indent && ts[q].1 == indent {
            lemma_sentence_end(ts, q + 1, TokenKind::NewLine);
            if let (Ok(s), r) = spec_line(ts, q + 1) {
                lemma_more_lines(ts, r, indent, lines.push(s));
            }
        } else if sentence_kind(view_kind(ts, q)) {
            lemma_sentence_end(ts, q, TokenKind::NewLine);
            if let (Ok(s), r) = spec_line(ts, q) {
                lemma_more_lines(ts, r, indent, lines.push(s));
            }
        }
    }
}

pub proof fn lemma_colon_run(ts: TokenSeq, q: int, colons: int)
    ensures
        colon_run(ts, q, colons) matches Some(r) ==> r > q,
    decreases ts.len() - q,
{
    if 0 <= q < ts.len() && colon_token(ts[q]) && colons + 1 != 2 {
        lemma_colon_run(ts, q + 1, colons + 1);
    }
}

/// The block parsers move on where they find a block, and never move back.
pub proof fn lemma_block_progress(ts: TokenSeq, p: int)
    requires
        0 <= p,
    ensures
        spec_heading(ts, p).0 matches Ok(Some(_)) ==> spec_heading(ts, p).1 > p,
        spec_heading(ts, p).0 matches Ok(None) ==> spec_heading(ts, p).1 >= p,
        spec_comment_block(ts, p).0 matches Ok(Some(_)) ==> spec_comment_block(ts, p).1 > p,
        spec_comment_block(ts, p).0 matches Ok(None) ==> spec_comment_block(ts, p).1 == p,
        spec_directive_block(ts, p).0 matches Ok(Some(_)) ==> spec_directive_block(ts, p).1 > p,
        spec_directive_block(ts, p).0 matches Ok(None) ==> spec_directive_block(ts, p).1 == p,
{
    lemma_sentence_end(ts, p, TokenKind::NewLine);
    lemma_sentence_end(ts, p + 2, TokenKind::NewLine);
    if let Some(name) = directive_name(ts, p + 2) {
        let ends_colon = name.len() > 0 && name.last() == ':';
        lemma_colon_run(ts, p + 3, if ends_colon {
            1
        } else {
            0
        });
        if let Some((name2, q)) = directive_marker(ts, p + 3, name) {
            lemma_sentence_end(ts, q, TokenKind::NewLine);
            let e = spec_sentence(ts, q, TokenKind::NewLine).1;
            lemma_sentence_end(ts, e + 2, TokenKind::NewLine);
            match spec_line(ts, e + 2) {
                (Ok(first), r) => {
                    lemma_more_lines(ts, r, ts[e + 1].1, seq![first]);
                },
                _ => {},
            }
        }
    }
}

proof fn lemma_sentence_end_tokens(ts: TokenSeq, p: int, stop: TokenKind)
    requires
        0 <= p <= ts.len(),
    ensures
        p <= sentence_end(ts, p, stop) <= ts.len(),
        forall|i: int|
            p <= i < sentence_end(ts, p, stop) ==> sentence_kind(#[trigger] ts[i].0) && ts[i].0 != stop,
        sentence_end(ts, p, stop) < ts.len() ==> ts[sentence_end(ts, p, stop)].0 == stop || !sentence_kind(
            ts[sentence_end(ts, p, stop)].0,
        ),
    decreases ts.len() - p,
{
    if !(p >= ts.len() || ts[p].0 == stop || !sentence_kind(ts[p].0)) {
        lemma_sentence_end_tokens(ts, p + 1, stop);
    }
}

/// A sentence reads only sentence tokens up to its stop: it holds text
/// exactly where a word lies among them and it ends at the stop or at the
/// end; any other token there is a fault at that token.
pub proof fn law_sentence_reads_up_to_its_stop(ts: TokenSeq, p: int, stop: TokenKind)
    requires
        0 <= p <= ts.len(),
    ensures
        forall|i: int|
            p <= i < spec_sentence(ts, p, stop).1 ==> sentence_kind(#[trigger] ts[i].0) && ts[i].0 != stop,
        spec_sentence(ts, p, stop).0 matches Ok(Some(text)) ==> text == text_between(ts, p, spec_sentence(ts, p, stop).1)
            && has_word(ts, p, spec_sentence(ts, p, stop).1),
        spec_sentence(ts, p, stop).0 matches Ok(None) ==> !has_word(ts, p, spec_sentence(ts, p, stop).1),
        spec_sentence(ts, p, stop).0 is Ok ==> spec_sentence(ts, p, stop).1 == ts.len() || ts[spec_sentence(
            ts,
            p,
            stop,
        ).1].0 == stop,
        spec_sentence(ts, p, stop).0 matches Err(m) ==> m == ("unexpected token in sentence"@, spec_sentence(
            ts,
            p,
            stop,
        ).1) && spec_sentence(ts, p, stop).1 < ts.len(),
{
    lemma_sentence_end_tokens(ts, p, stop);
}

/// An indented block needs an indentation token where it starts and is
/// refused otherwise; it holds that token's text and at least one line, and
/// it ends where no further line of its own indentation follows.
pub proof fn law_indented_block_shape(ts: TokenSeq, p: int)
    ensures
        view_kind(ts, p) != TokenKind::Indent ==> spec_indented_block(ts, p) == (
            Err::<(Seq<char>, Seq<Seq<char>>), (Seq<char>, int)>(("expected indented block after directive"@, p)),
            p,
        ),
        spec_indented_block(ts, p).0 matches Ok((indent, lines)) ==> indent == ts[p].1 && lines.len() >= 1 && !(
        view_kind(ts, spec_indented_block(ts, p).1) == TokenKind::Indent && ts[spec_indented_block(ts, p).1].1
            == indent),
{
    if view_kind(ts, p) == TokenKind::Indent {
        if let (Ok(first), r) = spec_line(ts, p + 1) {
            lemma_more_lines(ts, r, ts[p].1, seq![first]);
        }
    }
}

/// A directive parser either finds nothing and stays where it was (also
/// where the name or the `::` marker is missing), or finds a directive that
/// starts with `..` and a space, holds at least one line, and moves on.
pub proof fn law_directive_block_backtracks_or_advances(ts: TokenSeq, p: int)
    requires
        0 <= p,
    ensures
        spec_directive_block(ts, p).0 matches Ok(None) ==> spec_directive_block(ts, p).1 == p,
        spec_directive_block(ts, p).0 matches Ok(Some(b)) ==> view_kind(ts, p) == TokenKind::DoubleDot && view_kind(
            ts,
            p + 1,
        ) == TokenKind::Spaces && spec_directive_block(ts, p).1 > p && (b matches BlockView::Directive { lines, .. }
            && lines.len() >= 1),
{
    lemma_block_progress(ts, p);
    if let Some(name) = directive_name(ts, p + 2) {
        if let Some((name2, q)) = directive_marker(ts, p + 3, name) {
            let e = spec_sentence(ts, q, TokenKind::NewLine).1;
            law_indented_block_shape(ts, e + 1);
        }
    }
}

/// The blocks of a document from `p` on, after those in `blocks`: blank
/// lines, line breaks and dedents between blocks are passed over; at each
/// block a heading, a comment and a directive are tried in turn.
pub open spec fn doc_loop(blocks: Seq<BlockView>, ts: TokenSeq, p: int) -> Result<Seq<BlockView>, (Seq<char>, int)>
    decreases (if p < ts.len() { ts.len() - p } else { 0 }),
{
    let q = after_blanks(ts, p);
    if p < 0 || q >= ts.len() || view_kind(ts, q) == TokenKind::EoF {
        Ok(blocks)
    } else {
        proof {
            lemma_after_blanks(ts, p);
            lemma_block_progress(ts, q);
        }
        let (rh, p1) = spec_heading(ts, q);
        match rh {
            Err(e) => Err(e),
            Ok(Some(b)) => doc_loop(blocks.push(b), ts, p1),
            Ok(None) => {
                proof {
                    lemma_block_progress(ts, p1);
                }
                let (rc, p2) = spec_comment_block(ts, p1);
                match rc {
                    Err(e) => Err(e),
                    Ok(Some(b)) => doc_loop(blocks.push(b), ts, p2),
                    Ok(None) => {
                        let (rd, p3) = spec_directive_block(ts, p2);
                        match rd {
                            Err(e) => Err(e),
                            Ok(Some(b)) => doc_loop(blocks.push(b), ts, p3),
                            Ok(None) => Err(("unexpected token sequence"@, p3)),
                        }
                    },
                }
            },
        }
    }
}

pub proof fn lemma_after_blanks(ts: TokenSeq, p: int)
    ensures
        after_blanks(ts, p) >= p,
    decreases ts.len() - p,
{
    if 0 <= p < ts.len() && (ts[p].0 == TokenKind::BlankLine || ts[p].0 == TokenKind::NewLine || ts[p].0
        == TokenKind::Dedent) {
        lemma_after_blanks(ts, p + 1);
    }
}

/// The document that `input` holds.
pub open spec fn spec_document(input: Seq<char>) -> Result<Seq<BlockView>, (Seq<char>, int)> {
    doc_loop(Seq::empty(), spec_tokenize(input), 0)
}

fn is_sentence_kind(k: TokenKind) -> (r: bool)
    ensures
        r == sentence_kind(k),
{
    k == TokenKind::Word || k == TokenKind::Spaces || k == TokenKind::Punctuation || k == TokenKind::LiteralChar
}

/// A cursor over the tokens of a text.
struct Parser {
    tokens: Vec<Token>,
    pos: usize,
}

impl Parser {
    spec fn ts(&self) -> TokenSeq {
        token_views(self.tokens@)
    }

    fn kind(&self) -> (k: TokenKind)
        ensures
            k == view_kind(self.ts(), self.pos as int),
    {
        if self.pos < self.tokens.len() {
            self.tokens[self.pos].kind
        } else {
            TokenKind::EoF
        }
    }

    fn peek_kind(&self, kind: TokenKind) -> (r: Option<&Token>)
        ensures
            match r {
                Some(t) => self.pos < self.ts().len() && self.ts()[self.pos as int].0 == kind && t@ == self.ts()[self.pos as int],
                None => !(self.pos < self.ts().len() && self.ts()[self.pos as int].0 == kind),
            },
    {
        if self.pos < self.tokens.len() && self.tokens[self.pos].kind == kind {
            Some(&self.tokens[self.pos])
        } else {
            None
        }
    }

    fn consume_kind(&mut self, kind: TokenKind) -> (r: bool)
        ensures
            final(self).tokens@ == old(self).tokens@,
            r == (old(self).pos < old(self).ts().len() && old(self).ts()[old(self).pos as int].0 == kind),
            final(self).pos == if r {
                old(self).pos + 1
            } else {
                old(self).pos as int
            },
    {
        let n = self.tokens.len();
        if self.peek_kind(kind).is_some() {
            self.pos = self.pos + 1;
            return true;
        }
        false
    }

    fn consume_lexeme(&mut self, kind: TokenKind) -> (r: Option<String>)
        ensures
            final(self).tokens@ == old(self).tokens@,
            match r {
                Some(l) => old(self).pos < old(self).ts().len() && old(self).ts()[old(self).pos as int].0 == kind
                    && l@ == old(self).ts()[old(self).pos as int].1 && final(self).pos == old(self).pos + 1,
                None => !(old(self).pos < old(self).ts().len() && old(self).ts()[old(self).pos as int].0 == kind)
                    && final(self).pos == old(self).pos,
            },
    {
        let n = self.tokens.len();
        match self.peek_kind(kind) {
            Some(token) => {
                let lexeme = token.lexeme.clone();
                self.pos = self.pos + 1;
                Some(lexeme)
            },
            None => None,
        }
    }

    fn expect_kind(&mut self, kind: TokenKind, message: &str) -> (r: Result<(), ParseError>)
        ensures
            final(self).tokens@ == old(self).tokens@,
            match r {
                Ok(()) => old(self).pos < old(self).ts().len() && old(self).ts()[old(self).pos as int].0 == kind
                    && final(self).pos == old(self).pos + 1,
                Err(e) => !(old(self).pos < old(self).ts().len() && old(self).ts()[old(self).pos as int].0 == kind)
                    && final(self).pos == old(self).pos && e@ == (message@, old(self).pos as int),
            },
    {
        if self.consume_kind(kind) {
            return Ok(());
        }
        Err(ParseError::new(message, self.pos))
    }

    fn is_eof(&self) -> (r: bool)
        ensures
            r == (self.pos >= self.ts().len() || view_kind(self.ts(), self.pos as int) == TokenKind::EoF),
    {
        self.pos >= self.tokens.len() || self.kind() == TokenKind::EoF
    }

    fn skip_blank_lines(&mut self)
        ensures
            final(self).tokens@ == old(self).tokens@,
            final(self).pos == after_blanks(old(self).ts(), old(self).pos as int),
    {
        let ghost p0 = self.pos as int;
        while self.consume_kind(TokenKind::BlankLine) || self.consume_kind(TokenKind::NewLine) || self.consume_kind(
            TokenKind::Dedent,
        )
            invariant
                self.tokens@ == old(self).tokens@,
                after_blanks(old(self).ts(), p0) == after_blanks(self.ts(), self.pos as int),
                p0 == old(self).pos,
            decreases self.ts().len() - self.pos,
        {
        }
    }

    fn parse_sentence_until(&mut self, stop: TokenKind) -> (r: Result<Option<Sentence>, ParseError>)
        ensures
            final(self).tokens@ == old(self).tokens@,
            ({
                let expected = spec_sentence(old(self).ts(), old(self).pos as int, stop);
                &&& final(self).pos == expected.1
                &&& match r {
                    Ok(Some(s)) => expected.0 == Ok::<Option<Seq<char>>, (Seq<char>, int)>(Some(s.text@)),
                    Ok(None) => expected.0 == Ok::<Option<Seq<char>>, (Seq<char>, int)>(None),
                    Err(e) => expected.0 == Err::<Option<Seq<char>>, (Seq<char>, int)>(e@),
                }
            }),
    {
        let ghost ts = self.ts();
        let ghost p0 = self.pos as int;
        let mut text = String::new();
        let mut saw_word = false;
        proof {
            reveal_strlit("unexpected token in sentence");
            if p0 <= ts.len() {
                assert(ts.subrange(p0, p0) =~= seq![]);
            }
        }
        while self.pos < self.tokens.len() && self.tokens[self.pos].kind != stop
            invariant
                self.tokens@ == old(self).tokens@,
                ts == self.ts(),
                p0 == old(self).pos,
                0 <= p0,
                p0 <= self.pos <= ts.len() || self.pos == p0,
                sentence_end(ts, p0, stop) == sentence_end(ts, self.pos as int, stop),
                text@ == text_between(ts, p0, self.pos as int),
                saw_word == has_word(ts, p0, self.pos as int),
            decreases ts.len() - self.pos,
        {
            let i = self.pos;
            let kind = self.tokens[i].kind;
            assert(ts[i as int].0 == kind);
            if kind == TokenKind::Word {
                saw_word = true;
            } else if !(kind == TokenKind::Spaces || kind == TokenKind::Punctuation || kind == TokenKind::LiteralChar) {
                return Err(ParseError::new("unexpected token in sentence", i));
            }
            text.append(self.tokens[i].lexeme.as_str());
            self.pos = i + 1;
            proof {
                assert(ts.subrange(p0, i + 1).drop_last() =~= ts.subrange(p0, i as int));
                assert(ts.subrange(p0, i + 1).last() == ts[i as int]);
                assert(has_word(ts, p0, i + 1) == (has_word(ts, p0, i as int) || kind == TokenKind::Word)) by {
                    if kind == TokenKind::Word {
                        assert(ts[i as int].0 == TokenKind::Word);
                    }
                    if has_word(ts, p0, i + 1) && kind != TokenKind::Word {
                        let w = choose|w: int| p0 <= w < i + 1 && ts[w].0 == TokenKind::Word;
                        assert(w < i);
                    }
                }
            }
        }
        if saw_word {
            Ok(Some(Sentence::new(text)))
        } else {
            Ok(None)
        }
    }

    fn parse_line(&mut self) -> (r: Result<Sentence, ParseError>)
        ensures
            final(self).tokens@ == old(self).tokens@,
            ({
                let expected = spec_line(old(self).ts(), old(self).pos as int);
                &&& final(self).pos == expected.1
                &&& match r {
                    Ok(s) => expected.0 == Ok::<Seq<char>, (Seq<char>, int)>(s.text@),
                    Err(e) => expected.0 == Err::<Seq<char>, (Seq<char>, int)>(e@),
                }
            }),
    {
        proof {
            reveal_strlit("expected sentence in indented block");
            reveal_strlit("expected newline after indented sentence");
        }
        let line = match self.parse_sentence_until(TokenKind::NewLine) {
            Ok(Some(s)) => s,
            Ok(None) => {
                return Err(ParseError::new("expected sentence in indented block", self.pos));
            },
            Err(e) => {
                return Err(e);
            },
        };
        match self.expect_kind(TokenKind::NewLine, "expected newline after indented sentence") {
            Ok(()) => Ok(line),
            Err(e) => Err(e),
        }
    }
}

impl Parser {
    fn consume_directive_name(&mut self) -> (r: Option<String>)
        ensures
            final(self).tokens@ == old(self).tokens@,
            match r {
                Some(n) => directive_name(old(self).ts(), old(self).pos as int) == Some(n@) && final(self).pos
                    == old(self).pos + 1,
                None => directive_name(old(self).ts(), old(self).pos as int) is None && final(self).pos == old(
                    self,
                ).pos,
            },
    {
        if let Some(name) = self.consume_lexeme(TokenKind::Word) {
            return Some(name);
        }
        let kind = self.kind();
        if !(kind == TokenKind::Punctuation || kind == TokenKind::LiteralChar) {
            return None;
        }
        let lexeme = self.tokens[self.pos].lexeme.as_str();
        let n = lexeme.unicode_len();
        let mut i: usize = 0;
        assert(lexeme@ == self.ts()[self.pos as int].1);
        while i < n
            invariant
                self.tokens@ == old(self).tokens@,
                self.pos == old(self).pos,
                self.pos < self.ts().len(),
                self.ts()[self.pos as int].0 == kind,
                kind == TokenKind::Punctuation || kind == TokenKind::LiteralChar,
                lexeme@ == self.ts()[self.pos as int].1,
                n == lexeme@.len(),
                i <= n,
                forall|j: int|
                    0 <= j < i ==> {
                        let c = #[trigger] lexeme@[j];
                        ('a' <= c <= 'z') || ('A' <= c <= 'Z') || ('0' <= c <= '9') || c == '_' || c == ':'
                    },
            decreases n - i,
        {
            let c = lexeme.get_char(i);
            if !(('a' <= c && c <= 'z') || ('A' <= c && c <= 'Z') || ('0' <= c && c <= '9') || c == '_' || c
                == ':') {
                assert(!name_chars(lexeme@)) by {
                    assert(lexeme@[i as int] == c);
                }
                return None;
            }
            i = i + 1;
        }
        if n == 0 {
            return None;
        }
        let name = lexeme.to_owned();
        let total = self.tokens.len();
        self.pos = self.pos + 1;
        Some(name)
    }

    fn consume_directive_marker(&mut self, directive_name: &mut String) -> (r: bool)
        ensures
            final(self).tokens@ == old(self).tokens@,
            match directive_marker(old(self).ts(), old(self).pos as int, old(directive_name)@) {
                Some((name, q)) => r && final(directive_name)@ == name && final(self).pos == q,
                None => !r,
            },
    {
        if self.consume_kind(TokenKind::DoubleColon) {
            return true;
        }
        let mut colons: usize = 0;
        let n = directive_name.as_str().unicode_len();
        if crate::text::ends_with_char(directive_name.as_str(), ':') {
            let shortened = directive_name.as_str().substring_char(0, n - 1).to_owned();
            *directive_name = shortened;
            colons = 1;
        }
        proof {
            reveal_strlit(":");
        }
        while self.pos < self.tokens.len() && (self.tokens[self.pos].kind == TokenKind::Punctuation
            || self.tokens[self.pos].kind == TokenKind::LiteralChar) && crate::text::str_eq(
            self.tokens[self.pos].lexeme.as_str(),
            ":",
        )
            invariant
                self.tokens@ == old(self).tokens@,
                colons < 2,
                colon_run(old(self).ts(), old(self).pos as int, if old(directive_name)@.len() > 0
                    && old(directive_name)@.last() == ':' {
                    1
                } else {
                    0
                }) == colon_run(self.ts(), self.pos as int, colons as int),
                directive_marker(old(self).ts(), old(self).pos as int, old(directive_name)@) matches Some((name, q))
                    ==> name == directive_name@,
            decreases self.ts().len() - self.pos,
        {
            assert(colon_token(self.ts()[self.pos as int]));
            self.pos = self.pos + 1;
            colons = colons + 1;
            if colons == 2 {
                return true;
            }
        }
        false
    }

    fn parse_indented_block(&mut self) -> (r: Result<IndentedBlock, ParseError>)
        ensures
            final(self).tokens@ == old(self).tokens@,
            ({
                let expected = spec_indented_block(old(self).ts(), old(self).pos as int);
                &&& final(self).pos == expected.1
                &&& match r {
                    Ok(b) => expected.0 == Ok::<(Seq<char>, Seq<Seq<char>>), (Seq<char>, int)>(
                        (b.indent@, sentence_texts(b.lines@)),
                    ),
                    Err(e) => expected.0 == Err::<(Seq<char>, Seq<Seq<char>>), (Seq<char>, int)>(e@),
                }
            }),
    {
        let ghost ts = self.ts();
        let ghost p0 = self.pos as int;
        proof {
            reveal_strlit("expected indented block after directive");
        }
        let indent = match self.consume_lexeme(TokenKind::Indent) {
            Some(i) => i,
            None => {
                return Err(ParseError::new("expected indented block after directive", self.pos));
            },
        };
        let first_line = match self.parse_line() {
            Ok(l) => l,
            Err(e) => {
                return Err(e);
            },
        };
        let mut lines: Vec<Sentence> = Vec::new();
        lines.push(first_line);
        assert(sentence_texts(lines@) =~= seq![lines@[0].text@]);
        loop
            invariant
                self.tokens@ == old(self).tokens@,
                ts == self.ts(),
                p0 == old(self).pos,
                ts[p0].0 == TokenKind::Indent,
                indent@ == ts[p0].1,
                spec_indented_block(ts, p0) == (match more_lines(ts, self.pos as int, ts[p0].1, sentence_texts(lines@)) {
                    (Ok(ls), r2) => (Ok::<(Seq<char>, Seq<Seq<char>>), (Seq<char>, int)>((ts[p0].1, ls)), r2),
                    (Err(e), r2) => (Err::<(Seq<char>, Seq<Seq<char>>), (Seq<char>, int)>(e), r2),
                }),
            ensures
                more_lines(ts, self.pos as int, ts[p0].1, sentence_texts(lines@)) == (
                    Ok::<Seq<Seq<char>>, (Seq<char>, int)>(sentence_texts(lines@)),
                    self.pos as int,
                ),
            decreases ts.len() - self.pos,
        {
            let k = self.kind();
            let same_indent = k == TokenKind::Indent && crate::text::str_eq(
                self.tokens[self.pos].lexeme.as_str(),
                indent.as_str(),
            );
            if !same_indent && !is_sentence_kind(k) {
                break;
            }
            if same_indent {
                assert(self.pos < self.tokens.len());
                self.pos = self.pos + 1;
            }
            proof {
                lemma_sentence_end(ts, self.pos as int, TokenKind::NewLine);
            }
            let line = match self.parse_line() {
                Ok(l) => l,
                Err(e) => {
                    return Err(e);
                },
            };
            let ghost before = lines@;
            lines.push(line);
            assert(sentence_texts(lines@) =~= sentence_texts(before).push(line.text@));
        }
        Ok(IndentedBlock { indent, lines })
    }
}

/// Whether a block parser's result `r` and position `p` are what `expected`
/// says.
pub open spec fn block_as(r: Result<Option<Block>, ParseError>, p: int, expected: Scan<Option<BlockView>>) -> bool {
    &&& p == expected.1
    &&& match r {
        Ok(Some(b)) => expected.0 == Ok::<Option<BlockView>, (Seq<char>, int)>(Some(b@)),
        Ok(None) => expected.0 == Ok::<Option<BlockView>, (Seq<char>, int)>(None),
        Err(e) => expected.0 == Err::<Option<BlockView>, (Seq<char>, int)>(e@),
    }
}

impl Parser {
    fn try_parse_heading(&mut self) -> (r: Result<Option<Block>, ParseError>)
        ensures
            final(self).tokens@ == old(self).tokens@,
            block_as(r, final(self).pos as int, spec_heading(old(self).ts(), old(self).pos as int)),
    {
        let checkpoint = self.pos;
        if self.peek_kind(TokenKind::Word).is_none() {
            return Ok(None);
        }
        let title = match self.parse_sentence_until(TokenKind::NewLine) {
            Ok(Some(sentence)) => sentence,
            Ok(None) => {
                return Ok(None);
            },
            Err(e) => {
                return Err(e);
            },
        };
        if !self.consume_kind(TokenKind::NewLine) {
            self.pos = checkpoint;
            return Ok(None);
        }
        let underline = match self.consume_lexeme(TokenKind::Separator) {
            Some(u) => u,
            None => {
                self.pos = checkpoint;
                return Ok(None);
            },
        };
        self.consume_kind(TokenKind::NewLine);
        Ok(Some(Block::Heading(Heading { title, underline })))
    }

    fn try_parse_comment(&mut self) -> (r: Result<Option<Block>, ParseError>)
        ensures
            final(self).tokens@ == old(self).tokens@,
            block_as(r, final(self).pos as int, spec_comment_block(old(self).ts(), old(self).pos as int)),
    {
        let checkpoint = self.pos;
        if !self.consume_kind(TokenKind::DoubleDot) {
            return Ok(None);
        }
        if !self.consume_kind(TokenKind::Spaces) {
            self.pos = checkpoint;
            return Ok(None);
        }
        let text = match self.parse_sentence_until(TokenKind::NewLine) {
            Ok(Some(sentence)) => sentence,
            Ok(None) | Err(_) => {
                self.pos = checkpoint;
                return Ok(None);
            },
        };
        proof {
            reveal_strlit("expected newline after comment");
        }
        match self.expect_kind(TokenKind::NewLine, "expected newline after comment") {
            Ok(()) => {},
            Err(e) => {
                return Err(e);
            },
        }
        Ok(Some(Block::Comment(Comment { text })))
    }

    fn try_parse_directive(&mut self) -> (r: Result<Option<Block>, ParseError>)
        ensures
            final(self).tokens@ == old(self).tokens@,
            block_as(r, final(self).pos as int, spec_directive_block(old(self).ts(), old(self).pos as int)),
    {
        let checkpoint = self.pos;
        if !self.consume_kind(TokenKind::DoubleDot) {
            return Ok(None);
        }
        if !self.consume_kind(TokenKind::Spaces) {
            self.pos = checkpoint;
            return Ok(None);
        }
        let mut name = match self.consume_directive_name() {
            Some(n) => n,
            None => {
                self.pos = checkpoint;
                return Ok(None);
            },
        };
        if !self.consume_directive_marker(&mut name) {
            self.pos = checkpoint;
            return Ok(None);
        }
        let argument = match self.parse_sentence_until(TokenKind::NewLine) {
            Ok(a) => a,
            Err(e) => {
                return Err(e);
            },
        };
        proof {
            reveal_strlit("expected newline after directive header");
        }
        match self.expect_kind(TokenKind::NewLine, "expected newline after directive header") {
            Ok(()) => {},
            Err(e) => {
                return Err(e);
            },
        }
        let body = match self.parse_indented_block() {
            Ok(b) => b,
            Err(e) => {
                return Err(e);
            },
        };
        Ok(Some(Block::Directive(Directive { name, argument, body })))
    }

    fn parse_document(&mut self) -> (r: Result<Document, ParseError>)
        ensures
            match r {
                Ok(d) => doc_loop(Seq::empty(), old(self).ts(), old(self).pos as int) == Ok::<
                    Seq<BlockView>,
                    (Seq<char>, int),
                >(block_views(d.blocks@)),
                Err(e) => doc_loop(Seq::empty(), old(self).ts(), old(self).pos as int) == Err::<
                    Seq<BlockView>,
                    (Seq<char>, int),
                >(e@),
            },
    {
        let ghost ts = self.ts();
        let mut blocks: Vec<Block> = Vec::new();
        assert(block_views(blocks@) =~= Seq::<BlockView>::empty());
        proof {
            reveal_strlit("unexpected token sequence");
        }
        loop
            invariant
                self.tokens@ == old(self).tokens@,
                ts == self.ts(),
                doc_loop(Seq::empty(), ts, old(self).pos as int) == doc_loop(block_views(blocks@), ts, self.pos as int),
            decreases (if self.pos < ts.len() { ts.len() - self.pos } else { 0 }),
        {
            let ghost p = self.pos as int;
            self.skip_blank_lines();
            if self.is_eof() {
                return Ok(Document::new(blocks));
            }
            let ghost q = self.pos as int;
            proof {
                lemma_after_blanks(ts, p);
                lemma_block_progress(ts, q);
            }
            let block = match self.try_parse_heading() {
                Err(e) => {
                    return Err(e);
                },
                Ok(Some(b)) => b,
                Ok(None) => {
                    proof {
                        lemma_block_progress(ts, self.pos as int);
                    }
                    match self.try_parse_comment() {
                        Err(e) => {
                            return Err(e);
                        },
                        Ok(Some(b)) => b,
                        Ok(None) => match self.try_parse_directive() {
                            Err(e) => {
                                return Err(e);
                            },
                            Ok(Some(b)) => b,
                            Ok(None) => {
                                return Err(ParseError::new("unexpected token sequence", self.pos));
                            },
                        },
                    }
                },
            };
            let ghost before = blocks@;
            blocks.push(block);
            assert(block_views(blocks@) =~= block_views(before).push(block@));
        }
    }
}

/// Parses a text made of headings, comments and directives with indented
/// bodies.
pub fn parse(input: &str) -> (r: Result<Document, ParseError>)
    ensures
        match r {
            Ok(d) => spec_document(input@) == Ok::<Seq<BlockView>, (Seq<char>, int)>(block_views(d.blocks@)),
            Err(e) => spec_document(input@) == Err::<Seq<BlockView>, (Seq<char>, int)>(e@),
        },
{
    let tokens = tokenize(input);
    let mut parser = Parser { tokens, pos: 0 };
    parser.parse_document()
}

} // verus!
