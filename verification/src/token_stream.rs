//! A token buffer paired with a cursor.

use vstd::prelude::*;

use crate::lexer::token_views;
use crate::token::{Token, TokenKind};
use crate::token_slice::{not_found, view_kind};
pub use crate::token_slice::{tokens_to_text, tokens_without_kinds, TokenSliceError};

verus! {

/// A sequence of tokens, each as its kind and lexeme.
pub type TokenSeq = Seq<(TokenKind, Seq<char>)>;

/// A token buffer paired with a cursor, so that parsers need not thread an
/// index through their results.
pub struct TokenStream {
    tokens: Vec<Token>,
    cursor: usize,
}

/// The first position at or after `start` whose token has one of `kinds`.
pub open spec fn first_of_kinds(ts: Seq<(TokenKind, Seq<char>)>, kinds: Seq<TokenKind>, start: int) -> Option<int>
    decreases ts.len() - start,
{
    if start < 0 || start >= ts.len() {
        None
    } else if kinds.contains(ts[start].0) {
        Some(start)
    } else {
        first_of_kinds(ts, kinds, start + 1)
    }
}

pub proof fn lemma_first_of_kinds_bound(ts: Seq<(TokenKind, Seq<char>)>, kinds: Seq<TokenKind>, start: int)
    ensures
        first_of_kinds(ts, kinds, start) matches Some(i) ==> start <= i < ts.len() && kinds.contains(ts[i].0),
    decreases ts.len() - start,
{
    if 0 <= start < ts.len() && !kinds.contains(ts[start].0) {
        lemma_first_of_kinds_bound(ts, kinds, start + 1);
    }
}

/// The position `first_of_kinds` finds is the first one with a kind asked
/// for; where it finds none, no position from `start` on has one.
pub proof fn lemma_first_of_kinds_first(ts: Seq<(TokenKind, Seq<char>)>, kinds: Seq<TokenKind>, start: int)
    requires
        0 <= start,
    ensures
        match first_of_kinds(ts, kinds, start) {
            Some(i) => start <= i < ts.len() && kinds.contains(ts[i].0) && forall|k: int|
                start <= k < i ==> !kinds.contains(#[trigger] ts[k].0),
            None => forall|k: int| start <= k < ts.len() ==> !kinds.contains(#[trigger] ts[k].0),
        },
    decreases ts.len() - start,
{
    if start < ts.len() && !kinds.contains(ts[start].0) {
        lemma_first_of_kinds_first(ts, kinds, start + 1);
    }
}

/// The end-of-line kinds, the end of the text among them.
pub open spec fn line_end_kinds() -> Seq<TokenKind> {
    seq![TokenKind::NewLine, TokenKind::BlankLine, TokenKind::EoF]
}

/// Where the line that holds position `c` ends: the first newline, blank
/// line or end-of-input token at or after `c`, or the end of the tokens.
pub open spec fn line_end_at(ts: TokenSeq, c: int) -> int {
    match first_of_kinds(ts, line_end_kinds(), c) {
        Some(i) => i,
        None => ts.len() as int,
    }
}

/// Weight only shrinks as the cursor moves on, and strictly where a token is
/// passed.
pub proof fn lemma_weight_advance(ts: TokenSeq, c: int, d: int)
    requires
        0 <= c < ts.len(),
        c < d,
    ensures
        weight(ts, d) < weight(ts, c),
{
    lemma_weight_step(ts, c);
    lemma_weight_mono(ts, c + 1, d);
}

impl TokenStream {
    /// The tokens of the stream, each as its kind and lexeme.
    pub closed spec fn spec_tokens(&self) -> Seq<(TokenKind, Seq<char>)> {
        token_views(self.tokens@)
    }

    /// The position of the cursor.
    pub closed spec fn spec_cursor(&self) -> nat {
        self.cursor as nat
    }

    /// Where the line that holds the cursor ends: the first newline, blank
    /// line or end-of-input token at or after the cursor, or the end of the
    /// tokens.
    pub open spec fn spec_line_end(&self) -> int {
        line_end_at(self.spec_tokens(), self.spec_cursor() as int)
    }

    /// A stream over `tokens` with the cursor at the start.
    pub fn new(tokens: Vec<Token>) -> (s: Self)
        ensures
            s.spec_tokens() == token_views(tokens@),
            s.spec_cursor() == 0,
    {
        Self { tokens, cursor: 0 }
    }

    /// The tokens of the stream.
    pub fn tokens(&self) -> (ts: &[Token])
        ensures
            token_views(ts@) == self.spec_tokens(),
    {
        self.tokens.as_slice()
    }

    /// The position of the cursor.
    pub fn cursor(&self) -> (c: usize)
        ensures
            c == self.spec_cursor(),
    {
        self.cursor
    }

    /// Whether the cursor is at or past the last token.
    pub fn is_at_end(&self) -> (r: bool)
        ensures
            r == (self.spec_cursor() >= self.spec_tokens().len()),
    {
        self.cursor >= self.tokens.len()
    }

    /// Moves the cursor to an absolute position.
    pub fn set_cursor(&mut self, pos: usize)
        ensures
            final(self).spec_tokens() == old(self).spec_tokens(),
            final(self).spec_cursor() == pos,
    {
        self.cursor = pos;
    }

    /// The kind at an absolute position, with `EoF` past the end.
    pub fn kind_at(&self, index: usize) -> (k: TokenKind)
        ensures
            k == view_kind(self.spec_tokens(), index as int),
    {
        if index < self.tokens.len() {
            self.tokens[index].kind
        } else {
            TokenKind::EoF
        }
    }

    /// The kind at the cursor.
    pub fn kind_at_cursor(&self) -> (k: TokenKind)
        ensures
            k == view_kind(self.spec_tokens(), self.spec_cursor() as int),
    {
        self.kind_at(self.cursor)
    }

    /// The kind `delta` positions after the cursor.
    pub fn kind_peek_relative(&self, delta: usize) -> (k: TokenKind)
        ensures
            k == view_kind(
                self.spec_tokens(),
                if self.spec_cursor() + delta <= usize::MAX {
                    self.spec_cursor() + delta
                } else {
                    usize::MAX as int
                },
            ),
    {
        self.kind_at(self.cursor.saturating_add(delta))
    }

    /// Where the line that holds the cursor ends.
    fn line_end(&self) -> (r: usize)
        ensures
            r == self.spec_line_end(),
            r <= self.spec_tokens().len(),
    {
        let kinds: Vec<TokenKind> = vec![TokenKind::NewLine, TokenKind::BlankLine, TokenKind::EoF];
        assert(kinds@ == line_end_kinds());
        proof {
            lemma_first_of_kinds_bound(self.spec_tokens(), line_end_kinds(), self.cursor as int);
        }
        match self.find_next_kind(kinds.as_slice()) {
            Ok(i) => i,
            Err(_) => self.tokens.len(),
        }
    }

    /// The kind of the first token of the next line.
    pub fn kind_at_nextline(&self) -> (k: TokenKind)
        ensures
            k == view_kind(self.spec_tokens(), self.spec_line_end() + 1),
    {
        let line_end = self.line_end();
        let next = line_end.saturating_add(1);
        let total = self.tokens.len();
        assert(self.spec_tokens().len() == total);
        assert(next as int != line_end + 1 ==> view_kind(self.spec_tokens(), next as int) == TokenKind::EoF);
        self.kind_at(next)
    }

    /// The first position at or after the cursor whose token has one of `kinds`.
    pub fn find_next_kind(&self, kinds: &[TokenKind]) -> (r: Result<usize, TokenSliceError>)
        ensures
            match r {
                Ok(i) => first_of_kinds(self.spec_tokens(), kinds@, self.spec_cursor() as int) == Some(
                    i as int,
                ),
                Err(e) => not_found(e, kinds@) && first_of_kinds(
                    self.spec_tokens(),
                    kinds@,
                    self.spec_cursor() as int,
                ) is None,
            },
    {
        self.find_next_kind_from(kinds, self.cursor)
    }

    /// The first position at or after `start_at` whose token has one of `kinds`.
    pub fn find_next_kind_from(&self, kinds: &[TokenKind], start_at: usize) -> (r: Result<
        usize,
        TokenSliceError,
    >)
        ensures
            match r {
                Ok(i) => first_of_kinds(self.spec_tokens(), kinds@, start_at as int) == Some(i as int),
                Err(e) => not_found(e, kinds@) && first_of_kinds(self.spec_tokens(), kinds@, start_at as int)
                    is None,
            },
    {
        let mut index = start_at;
        while index < self.tokens.len()
            invariant
                start_at <= index,
                first_of_kinds(token_views(self.tokens@), kinds@, start_at as int) == first_of_kinds(
                    token_views(self.tokens@),
                    kinds@,
                    index as int,
                ),
            decreases self.tokens@.len() - index,
        {
            if self.tokens[index].kind.is(kinds) {
                return Ok(index);
            }
            index = index + 1;
        }
        Err(TokenSliceError::TokenNotFound { kinds: vstd::slice::slice_to_vec(kinds) })
    }

    /// The first token of the next line, or an end-of-input token.
    pub fn token_at_nextline(&self) -> (t: Token)
        ensures
            (self.spec_line_end() + 1 < self.spec_tokens().len()) ==> t@ == self.spec_tokens()[self.spec_line_end() + 1],
            (self.spec_line_end() + 1 >= self.spec_tokens().len()) ==> t@ == (TokenKind::EoF, Seq::<char>::empty()),
    {
        let line_end = self.line_end();
        if self.tokens.len() > 0 && line_end < self.tokens.len() - 1 {
            self.tokens[line_end + 1].clone()
        } else {
            proof {
                reveal_strlit("");
            }
            Token::new(TokenKind::EoF, "")
        }
    }

    /// Hands back the token at the cursor (or an end-of-input token past the
    /// end) and moves the cursor one token on, never past the end.
    pub fn consume(&mut self) -> (t: Token)
        ensures
            final(self).spec_tokens() == old(self).spec_tokens(),
            old(self).spec_cursor() < old(self).spec_tokens().len() ==> t@ == old(self).spec_tokens()[old(
                self,
            ).spec_cursor() as int] && final(self).spec_cursor() == old(self).spec_cursor() + 1,
            old(self).spec_cursor() >= old(self).spec_tokens().len() ==> t@ == (
                TokenKind::EoF,
                Seq::<char>::empty(),
            ) && final(self).spec_cursor() == old(self).spec_tokens().len(),
    {
        let token = if self.cursor < self.tokens.len() {
            self.tokens[self.cursor].clone()
        } else {
            proof {
                reveal_strlit("");
            }
            Token::new(TokenKind::EoF, "")
        };
        let next = self.cursor.saturating_add(1);
        self.cursor = if next < self.tokens.len() {
            next
        } else {
            self.tokens.len()
        };
        token
    }

    /// Moves the cursor `n` tokens on, never past the end.
    pub fn consume_n(&mut self, n: usize)
        ensures
            final(self).spec_tokens() == old(self).spec_tokens(),
            final(self).spec_cursor() == if old(self).spec_cursor() + n < old(self).spec_tokens().len() {
                old(self).spec_cursor() + n
            } else {
                old(self).spec_tokens().len() as int
            },
    {
        let next = self.cursor.saturating_add(n);
        self.cursor = if next < self.tokens.len() {
            next
        } else {
            self.tokens.len()
        };
    }

    /// Inserts a token at an absolute position; the cursor moves with the
    /// token it was on when that lies at or after the insertion point (it
    /// never goes past `usize::MAX`).
    pub fn insert_at(&mut self, index: usize, token: Token)
        requires
            index <= old(self).spec_tokens().len(),
        ensures
            final(self).spec_tokens() == old(self).spec_tokens().insert(index as int, token@),
            final(self).spec_cursor() == if index <= old(self).spec_cursor() && old(self).spec_cursor() < usize::MAX {
                (old(self).spec_cursor() + 1) as int
            } else {
                old(self).spec_cursor() as int
            },
    {
        let ghost before = self.tokens@;
        let ghost t = token@;
        self.tokens.insert(index, token);
        assert(token_views(self.tokens@) =~= token_views(before).insert(index as int, t));
        if index <= self.cursor {
            self.cursor = self.cursor.saturating_add(1);
        }
    }

    /// Removes and hands back the token at an absolute position; the cursor
    /// moves with the token it was on when that lies after the removal point.
    pub fn take_at(&mut self, index: usize) -> (t: Token)
        requires
            index < old(self).spec_tokens().len(),
        ensures
            t@ == old(self).spec_tokens()[index as int],
            final(self).spec_tokens() == old(self).spec_tokens().remove(index as int),
            final(self).spec_cursor() == if index < old(self).spec_cursor() {
                old(self).spec_cursor() - 1
            } else {
                old(self).spec_cursor() as int
            },
    {
        let ghost before = self.tokens@;
        let token = self.tokens.remove(index);
        assert(token_views(self.tokens@) =~= token_views(before).remove(index as int));
        if index < self.cursor {
            self.cursor = self.cursor - 1;
        }
        token
    }
}

/// How much parsing work a token stands for: one for an indentation change,
/// three for any other token. Parsers that add indentation tokens to the
/// stream add less than they consume, so the weight of what is left to read
/// bounds how long parsing takes.
pub open spec fn token_weight(k: TokenKind) -> nat {
    if k == TokenKind::Indent || k == TokenKind::Dedent {
        1
    } else {
        3
    }
}

/// The weight of a sequence of tokens.
pub open spec fn seq_weight(s: Seq<(TokenKind, Seq<char>)>) -> nat
    decreases s.len(),
{
    if s.len() == 0 {
        0
    } else {
        token_weight(s[0].0) + seq_weight(s.drop_first())
    }
}

/// The weight of the tokens from position `c` on.
pub open spec fn weight(ts: Seq<(TokenKind, Seq<char>)>, c: int) -> nat {
    if 0 <= c <= ts.len() {
        seq_weight(ts.subrange(c, ts.len() as int))
    } else {
        0
    }
}

pub proof fn lemma_seq_weight_concat(a: Seq<(TokenKind, Seq<char>)>, b: Seq<(TokenKind, Seq<char>)>)
    ensures
        seq_weight(a + b) == seq_weight(a) + seq_weight(b),
    decreases a.len(),
{
    if a.len() > 0 {
        lemma_seq_weight_concat(a.drop_first(), b);
        assert((a + b).drop_first() =~= a.drop_first() + b);
    } else {
        assert(a + b =~= b);
    }
}

pub proof fn lemma_seq_weight_len(s: Seq<(TokenKind, Seq<char>)>)
    ensures
        seq_weight(s) >= s.len(),
    decreases s.len(),
{
    if s.len() > 0 {
        lemma_seq_weight_len(s.drop_first());
    }
}

/// Reading one token takes its weight off what is left.
pub proof fn lemma_weight_step(ts: Seq<(TokenKind, Seq<char>)>, c: int)
    requires
        0 <= c < ts.len(),
    ensures
        weight(ts, c) == token_weight(ts[c].0) + weight(ts, c + 1),
{
    assert(ts.subrange(c, ts.len() as int).drop_first() =~= ts.subrange(c + 1, ts.len() as int));
}

/// Reading on from `c` to `d` takes at least one per token off what is left.
pub proof fn lemma_weight_mono(ts: Seq<(TokenKind, Seq<char>)>, c: int, d: int)
    requires
        0 <= c <= d,
    ensures
        weight(ts, d) <= weight(ts, c),
        d <= ts.len() ==> weight(ts, d) + (d - c) <= weight(ts, c),
{
    if d <= ts.len() {
        let a = ts.subrange(c, d);
        let b = ts.subrange(d, ts.len() as int);
        assert(ts.subrange(c, ts.len() as int) =~= a + b);
        lemma_seq_weight_concat(a, b);
        lemma_seq_weight_len(a);
    } else if c <= ts.len() {
    }
}

/// A token inserted at or after the cursor adds its weight to what is left.
pub proof fn lemma_weight_insert(ts: Seq<(TokenKind, Seq<char>)>, c: int, p: int, t: (TokenKind, Seq<char>))
    requires
        0 <= c <= p <= ts.len(),
    ensures
        weight(ts.insert(p, t), c) == weight(ts, c) + token_weight(t.0),
{
    let u = ts.insert(p, t);
    let a = ts.subrange(c, p);
    let b = ts.subrange(p, ts.len() as int);
    assert(u.subrange(c, u.len() as int) =~= a + (seq![t] + b));
    assert(ts.subrange(c, ts.len() as int) =~= a + b);
    lemma_seq_weight_concat(a, seq![t] + b);
    lemma_seq_weight_concat(seq![t], b);
    lemma_seq_weight_concat(a, b);
    assert(seq![t].drop_first() =~= Seq::<(TokenKind, Seq<char>)>::empty());
    assert(seq_weight(seq![t]) == token_weight(t.0) + seq_weight(Seq::<(TokenKind, Seq<char>)>::empty()));
}

/// A token removed at or after the cursor takes its weight off what is left.
pub proof fn lemma_weight_remove(ts: Seq<(TokenKind, Seq<char>)>, c: int, p: int)
    requires
        0 <= c <= p < ts.len(),
    ensures
        weight(ts.remove(p), c) + token_weight(ts[p].0) == weight(ts, c),
{
    let u = ts.remove(p);
    let a = ts.subrange(c, p);
    let b = ts.subrange(p + 1, ts.len() as int);
    assert(u.subrange(c, u.len() as int) =~= a + b);
    assert(ts.subrange(c, ts.len() as int) =~= a + (seq![ts[p]] + b));
    lemma_seq_weight_concat(a, seq![ts[p]] + b);
    lemma_seq_weight_concat(seq![ts[p]], b);
    lemma_seq_weight_concat(a, b);
    assert(seq![ts[p]].drop_first() =~= Seq::<(TokenKind, Seq<char>)>::empty());
    assert(seq_weight(seq![ts[p]]) == token_weight(ts[p].0) + seq_weight(Seq::<(TokenKind, Seq<char>)>::empty()));
}

/// Taking the token at a position undoes inserting one there: the token
/// comes back, and the tokens and the cursor are as they were.
pub proof fn law_take_undoes_insert(ts: TokenSeq, c: nat, i: int, t: (TokenKind, Seq<char>))
    requires
        0 <= i <= ts.len(),
        c < usize::MAX,
    ensures
        ts.insert(i, t)[i] == t,
        ts.insert(i, t).remove(i) == ts,
        ({
            let c1: int = if i <= c && c < usize::MAX {
                c + 1int
            } else {
                c as int
            };
            let c2: int = if i < c1 {
                c1 - 1
            } else {
                c1
            };
            c2 == c
        }),
{
    assert(ts.insert(i, t).remove(i) =~= ts);
}

} // verus!
