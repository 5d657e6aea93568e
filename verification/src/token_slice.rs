//! Lookup over a slice of tokens by index.

use vstd::prelude::*;

use crate::lexer::{spec_tokenize, token_views, tokenize};
use crate::token::{Token, TokenKind};

verus! {

/// Why a search over tokens found nothing.
#[derive(Debug, Clone, PartialEq, Eq)]
pub enum TokenSliceError {
    TokenNotFound { kinds: Vec<TokenKind> },
    NoRemainingToken,
}

/// The kind at `index`, with `EoF` past the end.
pub open spec fn kind_or_eof(ts: Seq<Token>, index: int) -> TokenKind {
    if 0 <= index < ts.len() {
        ts[index].kind
    } else {
        TokenKind::EoF
    }
}

/// The kind of the token view at `index`, with `EoF` past the end.
pub open spec fn view_kind(ts: Seq<(TokenKind, Seq<char>)>, index: int) -> TokenKind {
    if 0 <= index < ts.len() {
        ts[index].0
    } else {
        TokenKind::EoF
    }
}

/// Panic-free lookahead over a token slice, treating out-of-bounds reads as
/// the end-of-input kind.
pub trait TokenSliceExt {
    spec fn spec_tokens(&self) -> Seq<Token>;

    fn kind_at(&self, index: usize) -> (k: TokenKind)
        ensures
            k == kind_or_eof(self.spec_tokens(), index as int),
    ;

    fn token_at(&self, index: usize) -> (t: Option<&Token>)
        ensures
            match t {
                Some(t) => index < self.spec_tokens().len() && *t == self.spec_tokens()[index as int],
                None => index >= self.spec_tokens().len(),
            },
    ;

    /// True once only the lexer's trailing padding (a newline and a blank
    /// line) remains: there is no further content to start processing at.
    fn is_stream_end(&self, index: usize) -> (r: bool)
        ensures
            r == (index + 2 >= self.spec_tokens().len()),
    ;
}

impl TokenSliceExt for [Token] {
    open spec fn spec_tokens(&self) -> Seq<Token> {
        self@
    }

    fn kind_at(&self, index: usize) -> (k: TokenKind) {
        if index < self.len() {
            self[index].kind
        } else {
            TokenKind::Eof
        }
    }

    fn token_at(&self, index: usize) -> (t: Option<&Token>) {
        if index < self.len() {
            Some(&self[index])
        } else {
            None
        }
    }

    fn is_stream_end(&self, index: usize) -> (r: bool) {
        index >= self.len().saturating_sub(2)
    }
}

/// The concatenation of the lexemes of `ts`.
pub open spec fn text_of(ts: Seq<(TokenKind, Seq<char>)>) -> Seq<char>
    decreases ts.len(),
{
    if ts.len() == 0 {
        Seq::empty()
    } else {
        text_of(ts.drop_last()) + ts.last().1
    }
}

/// The text of tokens put one after another is their texts one after
/// another: no tokens stand for no text, one token for its lexeme.
pub proof fn law_text_of_concat(a: Seq<(TokenKind, Seq<char>)>, b: Seq<(TokenKind, Seq<char>)>)
    ensures
        text_of(a + b) == text_of(a) + text_of(b),
        text_of(Seq::<(TokenKind, Seq<char>)>::empty()) == Seq::<char>::empty(),
        forall|t: (TokenKind, Seq<char>)| #[trigger] text_of(seq![t]) == t.1,
    decreases b.len(),
{
    assert forall|t: (TokenKind, Seq<char>)| #[trigger] text_of(seq![t]) == t.1 by {
        let one = seq![t];
        assert(one.drop_last() =~= Seq::<(TokenKind, Seq<char>)>::empty());
        assert(text_of(Seq::<(TokenKind, Seq<char>)>::empty()) == Seq::<char>::empty());
        assert(one.last() == t);
        assert(text_of(one) == text_of(one.drop_last()) + one.last().1);
        assert(Seq::<char>::empty() + t.1 =~= t.1);
    }
    if b.len() == 0 {
        assert(a + b =~= a);
        assert(text_of(a) + Seq::<char>::empty() =~= text_of(a));
    } else {
        law_text_of_concat(a, b.drop_last());
        assert((a + b).drop_last() =~= a + b.drop_last());
        assert((a + b).last() == b.last());
        assert(text_of(a) + text_of(b.drop_last()) + b.last().1 =~= text_of(a) + (text_of(b.drop_last()) + b.last().1));
    }
}

/// The text the tokens stand for: their lexemes one after the other.
pub fn tokens_to_text(tokens: &[Token]) -> (text: String)
    ensures
        text@ == text_of(token_views(tokens@)),
{
    let mut text = String::new();
    let mut i: usize = 0;
    while i < tokens.len()
        invariant
            i <= tokens@.len(),
            text@ == text_of(token_views(tokens@.take(i as int))),
        decreases tokens@.len() - i,
    {
        text.append(tokens[i].lexeme.as_str());
        proof {
            let prev = token_views(tokens@.take(i as int));
            let next = token_views(tokens@.take(i + 1));
            assert(next.drop_last() =~= prev);
        }
        i = i + 1;
    }
    assert(tokens@.take(tokens@.len() as int) =~= tokens@);
    text
}

/// The text that the tokens at positions `from` to `to` stand for.
pub fn tokens_text_between(tokens: &[Token], from: usize, to: usize) -> (text: String)
    requires
        from <= to <= tokens@.len(),
    ensures
        text@ == text_of(token_views(tokens@).subrange(from as int, to as int)),
{
    let mut text = String::new();
    let mut i: usize = from;
    let ghost views = token_views(tokens@);
    assert(views.subrange(from as int, from as int) =~= seq![]);
    while i < to
        invariant
            from <= i <= to <= tokens@.len(),
            views == token_views(tokens@),
            text@ == text_of(views.subrange(from as int, i as int)),
        decreases to - i,
    {
        text.append(tokens[i].lexeme.as_str());
        proof {
            let prev = views.subrange(from as int, i as int);
            let next = views.subrange(from as int, i + 1);
            assert(next.drop_last() =~= prev);
        }
        i = i + 1;
    }
    text
}

/// The tokens whose kind is not one of `kinds`, in order.
pub open spec fn without_kinds(ts: Seq<(TokenKind, Seq<char>)>, kinds: Seq<TokenKind>) -> Seq<
    (TokenKind, Seq<char>),
> {
    ts.filter(|t: (TokenKind, Seq<char>)| !kinds.contains(t.0))
}

/// The tokens whose kind is not one of `kinds`, in order.
pub fn tokens_without_kinds(tokens: &[Token], kinds: &[TokenKind]) -> (kept: Vec<Token>)
    ensures
        token_views(kept@) == without_kinds(token_views(tokens@), kinds@),
{
    let mut kept: Vec<Token> = Vec::new();
    let mut i: usize = 0;
    while i < tokens.len()
        invariant
            i <= tokens@.len(),
            token_views(kept@) == without_kinds(token_views(tokens@.take(i as int)), kinds@),
        decreases tokens@.len() - i,
    {
        let ghost before = token_views(kept@);
        let ghost prev = token_views(tokens@.take(i as int));
        let ghost next = token_views(tokens@.take(i + 1));
        proof {
            assert(next =~= prev.push(tokens@[i as int]@));
            reveal_with_fuel(Seq::filter, 1);
            assert(next.drop_last() =~= prev);
        }
        if !tokens[i].kind.is(kinds) {
            kept.push(tokens[i].clone());
            assert(token_views(kept@) =~= before.push(tokens@[i as int]@));
        } else {
            assert(token_views(kept@) =~= before);
        }
        i = i + 1;
    }
    assert(tokens@.take(tokens@.len() as int) =~= tokens@);
    kept
}

/// Whether `i` is a position at or after `start_at`, other than `skip_index`,
/// whose token has one of `kinds`.
pub open spec fn is_hit(ts: Seq<Token>, kinds: Seq<TokenKind>, start_at: int, skip_index: Option<usize>, i: int) -> bool {
    &&& start_at <= i < ts.len()
    &&& skip_index != Some(i as usize)
    &&& kinds.contains(ts[i].kind)
}

/// The error that a search for `kinds` reports when it finds nothing.
pub open spec fn not_found(e: TokenSliceError, kinds: Seq<TokenKind>) -> bool {
    e matches TokenSliceError::TokenNotFound { kinds: k } && k@ == kinds
}

/// Scans from `start_at` on, passing over `skip_index`, for the first token
/// whose kind is one of `kinds` (giving its position) or one of
/// `interrupt_kinds` (giving `None`); an error naming `kinds` where no token
/// of either sort follows.
pub fn find_next_kind_interrupt(
    tokens: &[Token],
    kinds: &[TokenKind],
    interrupt_kinds: &[TokenKind],
    start_at: usize,
    skip_index: Option<usize>,
) -> (r: Result<Option<usize>, TokenSliceError>)
    ensures
        match r {
            Ok(Some(i)) => is_hit(tokens@, kinds@, start_at as int, skip_index, i as int) && forall|j: int|
                start_at <= j < i ==> !is_hit(tokens@, kinds@, start_at as int, skip_index, j)
                    && !is_hit(tokens@, interrupt_kinds@, start_at as int, skip_index, j),
            Ok(None) => exists|i: int|
                is_hit(tokens@, interrupt_kinds@, start_at as int, skip_index, i)
                    && !is_hit(tokens@, kinds@, start_at as int, skip_index, i)
                    && forall|j: int|
                    start_at <= j < i ==> !is_hit(tokens@, kinds@, start_at as int, skip_index, j)
                        && !is_hit(tokens@, interrupt_kinds@, start_at as int, skip_index, j),
            Err(e) => not_found(e, kinds@) && forall|j: int|
                !is_hit(tokens@, kinds@, start_at as int, skip_index, j) && !is_hit(
                    tokens@,
                    interrupt_kinds@,
                    start_at as int,
                    skip_index,
                    j,
                ),
        },
{
    let mut index = start_at;
    while index < tokens.len()
        invariant
            start_at <= index,
            forall|j: int|
                start_at <= j < index ==> !is_hit(tokens@, kinds@, start_at as int, skip_index, j)
                    && !is_hit(tokens@, interrupt_kinds@, start_at as int, skip_index, j),
        decreases tokens@.len() - index,
    {
        if skip_index != Some(index) {
            if tokens[index].kind.is(kinds) {
                return Ok(Some(index));
            }
            if tokens[index].kind.is(interrupt_kinds) {
                assert(is_hit(tokens@, interrupt_kinds@, start_at as int, skip_index, index as int));
                return Ok(None);
            }
        }
        index = index + 1;
    }
    Err(TokenSliceError::TokenNotFound { kinds: vstd::slice::slice_to_vec(kinds) })
}

/// The first position at or after `start_at`, other than `skip_index`, whose
/// token has one of `kinds`; an error naming the kinds where there is none.
pub fn find_next_kind(
    tokens: &[Token],
    kinds: &[TokenKind],
    start_at: usize,
    skip_index: Option<usize>,
) -> (r: Result<usize, TokenSliceError>)
    ensures
        match r {
            Ok(i) => is_hit(tokens@, kinds@, start_at as int, skip_index, i as int) && forall|j: int|
                start_at <= j < i ==> !is_hit(tokens@, kinds@, start_at as int, skip_index, j),
            Err(e) => not_found(e, kinds@) && forall|j: int|
                !is_hit(tokens@, kinds@, start_at as int, skip_index, j),
        },
{
    match find_next_kind_interrupt(tokens, kinds, &[], start_at, skip_index) {
        Ok(Some(i)) => Ok(i),
        Ok(None) => {
            proof {
                assert(forall|i: int| !is_hit(tokens@, Seq::<TokenKind>::empty(), start_at as int, skip_index, i));
            }
            Err(TokenSliceError::NoRemainingToken)
        },
        Err(e) => Err(e),
    }
}

/// The first position at or after `start_at` whose token's kind is not one of
/// `kinds`; the length of the slice where there is none.
pub fn skip_kinds(tokens: &[Token], kinds: &[TokenKind], start_at: usize) -> (r: usize)
    ensures
        r == tokens@.len() || (start_at <= r < tokens@.len() && !kinds@.contains(tokens@[r as int].kind)),
        forall|j: int| start_at <= j < r ==> kinds@.contains(#[trigger] tokens@[j].kind),
{
    let mut index = start_at;
    while index < tokens.len()
        invariant
            start_at <= index,
            forall|j: int| start_at <= j < index && j < tokens@.len() ==> kinds@.contains(#[trigger] tokens@[j].kind),
        decreases tokens@.len() - index,
    {
        if !tokens[index].kind.is(kinds) {
            return index;
        }
        index = index + 1;
    }
    tokens.len()
}


/// The direction of a scan from the cursor.
#[derive(Debug, Clone, Copy, PartialEq, Eq)]
pub enum ScanDirection {
    Forward,
    Backward,
}

/// An owned run of tokens with a cursor.
pub struct TokenSlice {
    tokens: Vec<Token>,
    cursor: usize,
}

/// The last position before `end` whose token has kind `kind`.
pub open spec fn last_of_kind_before(ts: Seq<Token>, kind: TokenKind, end: int) -> Option<int>
    decreases end,
{
    if end <= 0 {
        None
    } else if end - 1 < ts.len() && ts[end - 1].kind == kind {
        Some(end - 1)
    } else {
        last_of_kind_before(ts, kind, end - 1)
    }
}

/// The first position at or after `start` whose token has kind `kind`.
pub open spec fn first_of_kind_from(ts: Seq<Token>, kind: TokenKind, start: int) -> Option<int>
    decreases ts.len() - start,
{
    if start < 0 || start >= ts.len() {
        None
    } else if ts[start].kind == kind {
        Some(start)
    } else {
        first_of_kind_from(ts, kind, start + 1)
    }
}

/// The tokens of a scan from `cursor` towards the nearest token of `kind`:
/// forward, the tokens from the cursor up to that token; backward, the
/// tokens after that token up to and including the cursor.
pub open spec fn scan(ts: Seq<Token>, cursor: int, kind: TokenKind, direction: ScanDirection) -> Seq<Token> {
    match direction {
        ScanDirection::Forward => {
            let start = if cursor < ts.len() { cursor } else { ts.len() as int };
            let end = match first_of_kind_from(ts, kind, start) {
                Some(i) => i,
                None => ts.len() as int,
            };
            ts.subrange(start, end)
        },
        ScanDirection::Backward => {
            let end = if cursor < ts.len() { cursor + 1 } else { ts.len() as int };
            let start = match last_of_kind_before(ts, kind, if cursor < ts.len() { cursor } else { ts.len() as int }) {
                Some(i) => i + 1,
                None => 0,
            };
            ts.subrange(start, end)
        },
    }
}

impl TokenSlice {
    /// The tokens of the view.
    pub closed spec fn spec_tokens(&self) -> Seq<Token> {
        self.tokens@
    }

    /// The position of the cursor.
    pub closed spec fn spec_cursor(&self) -> nat {
        self.cursor as nat
    }

    /// The tokens of `text`, without the first and the last token, which
    /// stand for the padding the lexer adds around the text.
    pub fn from_string(text: &str) -> (v: TokenSlice)
        ensures
            token_views(v.spec_tokens()) == if spec_tokenize(text@).len() >= 2 {
                spec_tokenize(text@).subrange(1, spec_tokenize(text@).len() - 1)
            } else {
                Seq::empty()
            },
            v.spec_cursor() == 0,
    {
        let all = tokenize(text);
        let mut tokens: Vec<Token> = Vec::new();
        if all.len() >= 2 {
            let mut i: usize = 1;
            while i < all.len() - 1
                invariant
                    all@.len() >= 2,
                    1 <= i <= all@.len() - 1,
                    token_views(tokens@) == token_views(all@).subrange(1, i as int),
                decreases all@.len() - i,
            {
                let ghost before = tokens@;
                let t = all[i].clone();
                tokens.push(t);
                assert(token_views(tokens@) =~= token_views(before).push(t@));
                assert(token_views(tokens@) =~= token_views(all@).subrange(1, i + 1));
                i = i + 1;
            }
        } else {
            assert(token_views(tokens@) =~= Seq::empty());
        }
        TokenSlice { tokens, cursor: 0 }
    }

    /// The text of the tokens of the view.
    pub fn to_text(&self) -> (text: String)
        ensures
            text@ == text_of(token_views(self.spec_tokens())),
    {
        tokens_to_text(self.tokens.as_slice())
    }

    /// The tokens at positions `range.start` to `range.end`, where the range
    /// lies inside the view.
    pub fn slice(&self, range: core::ops::Range<usize>) -> (r: Option<TokenSlice>)
        ensures
            match r {
                Some(v) => range.start <= range.end <= self.spec_tokens().len() && token_views(
                    v.spec_tokens(),
                ) == token_views(self.spec_tokens().subrange(range.start as int, range.end as int))
                    && v.spec_cursor() == 0,
                None => !(range.start <= range.end <= self.spec_tokens().len()),
            },
    {
        if range.start <= range.end && range.end <= self.tokens.len() {
            let mut tokens: Vec<Token> = Vec::new();
            let mut i = range.start;
            while i < range.end
                invariant
                    range.start <= i <= range.end <= self.tokens@.len(),
                    token_views(tokens@) == token_views(self.tokens@.subrange(range.start as int, i as int)),
                decreases range.end - i,
            {
                let ghost before = tokens@;
                let t = self.tokens[i].clone();
                tokens.push(t);
                assert(token_views(tokens@) =~= token_views(before).push(t@));
                assert(token_views(tokens@) =~= token_views(
                    self.tokens@.subrange(range.start as int, i + 1),
                ));
                i = i + 1;
            }
            Some(TokenSlice { tokens, cursor: 0 })
        } else {
            None
        }
    }

    /// The token at `index`.
    pub fn get(&self, index: usize) -> (t: Option<&Token>)
        ensures
            match t {
                Some(t) => index < self.spec_tokens().len() && *t == self.spec_tokens()[index as int],
                None => index >= self.spec_tokens().len(),
            },
    {
        if index < self.tokens.len() {
            Some(&self.tokens[index])
        } else {
            None
        }
    }

    /// The token at the cursor.
    pub fn current(&self) -> (t: Option<&Token>)
        ensures
            match t {
                Some(t) => self.spec_cursor() < self.spec_tokens().len() && *t
                    == self.spec_tokens()[self.spec_cursor() as int],
                None => self.spec_cursor() >= self.spec_tokens().len(),
            },
    {
        self.get(self.cursor)
    }

    /// Moves the cursor one token on, unless it is at the end already.
    pub fn advance(&mut self) -> (moved: bool)
        ensures
            final(self).spec_tokens() == old(self).spec_tokens(),
            moved == (old(self).spec_cursor() < old(self).spec_tokens().len()),
            final(self).spec_cursor() == if moved {
                (old(self).spec_cursor() + 1) as int
            } else {
                old(self).spec_cursor() as int
            },
    {
        if self.cursor < self.tokens.len() {
            self.cursor = self.cursor + 1;
            true
        } else {
            false
        }
    }

    /// Moves the cursor one token back, unless it is at the start already.
    pub fn retreat(&mut self) -> (moved: bool)
        ensures
            final(self).spec_tokens() == old(self).spec_tokens(),
            moved == (old(self).spec_cursor() > 0),
            final(self).spec_cursor() == if moved {
                old(self).spec_cursor() - 1
            } else {
                old(self).spec_cursor() as int
            },
    {
        if self.cursor > 0 {
            self.cursor = self.cursor - 1;
            true
        } else {
            false
        }
    }

    /// Moves the cursor to `pos` where that lies inside the view or right
    /// after its end.
    pub fn set_cursor(&mut self, pos: usize) -> (moved: bool)
        ensures
            final(self).spec_tokens() == old(self).spec_tokens(),
            moved == (pos <= old(self).spec_tokens().len()),
            final(self).spec_cursor() == if moved {
                pos as int
            } else {
                old(self).spec_cursor() as int
            },
    {
        if pos <= self.tokens.len() {
            self.cursor = pos;
            true
        } else {
            false
        }
    }

    /// The tokens between the cursor and the nearest token of `kind` in
    /// `direction`, that token excluded.
    pub fn until_next_kind(&self, kind: TokenKind, direction: ScanDirection) -> (v: TokenSlice)
        ensures
            token_views(v.spec_tokens()) == token_views(scan(self.spec_tokens(), self.spec_cursor() as int, kind, direction)),
            v.spec_cursor() == 0,
    {
        let n = self.tokens.len();
        match direction {
            ScanDirection::Forward => {
                let start = if self.cursor < n { self.cursor } else { n };
                let mut end = start;
                while end < n && self.tokens[end].kind != kind
                    invariant
                        start <= end <= n == self.tokens@.len(),
                        first_of_kind_from(self.tokens@, kind, start as int) == first_of_kind_from(self.tokens@, kind, end as int),
                    decreases n - end,
                {
                    end = end + 1;
                }
                let r = self.slice(start..end);
                match r {
                    Some(v) => v,
                    None => TokenSlice { tokens: Vec::new(), cursor: 0 },
                }
            },
            ScanDirection::Backward => {
                let end = if self.cursor < n { self.cursor + 1 } else { n };
                let from = if self.cursor < n { self.cursor } else { n };
                let mut start = from;
                while start > 0 && self.tokens[start - 1].kind != kind
                    invariant
                        start <= from <= n == self.tokens@.len(),
                        from <= end <= n,
                        last_of_kind_before(self.tokens@, kind, from as int) == last_of_kind_before(self.tokens@, kind, start as int),
                    decreases start,
                {
                    start = start - 1;
                }
                let r = self.slice(start..end);
                match r {
                    Some(v) => v,
                    None => TokenSlice { tokens: Vec::new(), cursor: 0 },
                }
            },
        }
    }
}

} // verus!
