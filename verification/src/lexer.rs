//! The lexer: from text to a sequence of tokens with relative indentation.

use vstd::prelude::*;

use crate::token::{match_order, match_token_from, spec_find_lexeme, spec_match_token, Token, TokenKind};

verus! {

/// The views of a sequence of tokens.
pub open spec fn token_views(ts: Seq<Token>) -> Seq<(TokenKind, Seq<char>)> {
    ts.map_values(|t: Token| t@)
}

/// `n` spaces.
pub open spec fn spaces_seq(n: nat) -> Seq<char> {
    Seq::new(n, |i: int| ' ')
}

/// The text the lexer works on: the input with two newlines before and after.
pub open spec fn padded(input: Seq<char>) -> Seq<char> {
    seq!['\n', '\n'] + input + seq!['\n', '\n']
}

/// What closes the text: one dedent back to column zero where the text ends
/// indented.
pub open spec fn closing_dedent(indent: nat) -> Seq<(TokenKind, Seq<char>)> {
    if indent > 0 {
        seq![(TokenKind::Dedent, spaces_seq(indent))]
    } else {
        seq![]
    }
}

/// Whether the previous token ended a line.
pub open spec fn ends_line(kind: TokenKind) -> bool {
    kind == TokenKind::NewLine || kind == TokenKind::BlankLine
}

/// The tokens that one recognised lexeme of `kind` adds after a token of kind
/// `last`, with the indentation in force afterwards. At the start of a line
/// an `Indent` match becomes the change of indentation (an `Indent` or a
/// `Dedent` of the difference, or nothing); a blank line keeps the
/// indentation; anything else at the start of a line returns to column zero.
/// A bullet marker that does not follow a line break or an indentation change
/// is punctuation.
pub open spec fn emit(last: TokenKind, kind: TokenKind, lexeme: Seq<char>, indent: nat) -> (
    Seq<(TokenKind, Seq<char>)>,
    nat,
) {
    if ends_line(last) && kind == TokenKind::Indent {
        let new_indent = lexeme.len();
        if new_indent > indent {
            (seq![(TokenKind::Indent, spaces_seq((new_indent - indent) as nat))], new_indent)
        } else if new_indent < indent {
            (seq![(TokenKind::Dedent, spaces_seq((indent - new_indent) as nat))], new_indent)
        } else {
            (seq![], new_indent)
        }
    } else if ends_line(last) && kind == TokenKind::BlankLine {
        (seq![(kind, lexeme)], indent)
    } else if ends_line(last) {
        (closing_dedent(indent) + seq![(kind, lexeme)], 0)
    } else if kind == TokenKind::BulletListMarker {
        if last == TokenKind::Indent || last == TokenKind::Dedent {
            (seq![(kind, lexeme)], indent)
        } else {
            (seq![(TokenKind::Punctuation, lexeme)], indent)
        }
    } else {
        (seq![(kind, lexeme)], indent)
    }
}

/// The tokens of `text` from position `pos` on, where the previous lexeme was
/// of kind `last` and the indentation in force is `indent`. Each step looks
/// at the text from one character before `pos`, so that every pattern sees
/// one character of context on each side. Lexing stops where no kind matches
/// or a lexeme would be empty.
pub open spec fn lex_from(text: Seq<char>, pos: nat, last: TokenKind, indent: nat) -> Seq<
    (TokenKind, Seq<char>),
>
    decreases text.len() - pos,
{
    if 1 <= pos && pos + 1 < text.len() {
        match spec_match_token(text.subrange(pos - 1, text.len() as int)) {
            Some((kind, lexeme)) => if lexeme.len() > 0 && pos + lexeme.len() < text.len() {
                let (emitted, new_indent) = emit(last, kind, lexeme, indent);
                emitted + lex_from(text, pos + lexeme.len(), kind, new_indent)
            } else {
                closing_dedent(indent)
            },
            None => closing_dedent(indent),
        }
    } else {
        closing_dedent(indent)
    }
}

/// The tokens of `input`.
pub open spec fn spec_tokenize(input: Seq<char>) -> Seq<(TokenKind, Seq<char>)> {
    lex_from(padded(input), 1, TokenKind::BlankLine, 0)
}


/// The change of indentation that a token stands for.
pub open spec fn indent_delta(t: (TokenKind, Seq<char>)) -> int {
    if t.0 == TokenKind::Indent {
        t.1.len() as int
    } else if t.0 == TokenKind::Dedent {
        -(t.1.len() as int)
    } else {
        0
    }
}

/// The indentation that a sequence of tokens leaves, counted from column zero.
pub open spec fn net_indent(ts: Seq<(TokenKind, Seq<char>)>) -> int
    decreases ts.len(),
{
    if ts.len() == 0 {
        0
    } else {
        net_indent(ts.drop_last()) + indent_delta(ts.last())
    }
}

/// Whether, from position `pos` on, the matcher recognises no `Dedent` and
/// recognises an `Indent` only right after a line break: indentation is then
/// seen only where the lexer turns it into relative tokens.
pub open spec fn indent_only_at_line_start(text: Seq<char>, pos: nat, last: TokenKind) -> bool
    decreases text.len() - pos,
{
    if 1 <= pos && pos + 1 < text.len() {
        match spec_match_token(text.subrange(pos - 1, text.len() as int)) {
            Some((kind, lexeme)) => if lexeme.len() > 0 && pos + lexeme.len() < text.len() {
                &&& kind != TokenKind::Dedent
                &&& (kind == TokenKind::Indent ==> ends_line(last))
                &&& indent_only_at_line_start(text, pos + lexeme.len(), kind)
            } else {
                true
            },
            None => true,
        }
    } else {
        true
    }
}

proof fn lemma_net_indent_concat(a: Seq<(TokenKind, Seq<char>)>, b: Seq<(TokenKind, Seq<char>)>)
    ensures
        net_indent(a + b) == net_indent(a) + net_indent(b),
    decreases b.len(),
{
    if b.len() == 0 {
        assert(a + b =~= a);
    } else {
        lemma_net_indent_concat(a, b.drop_last());
        assert((a + b).drop_last() =~= a + b.drop_last());
    }
}

proof fn lemma_net_indent_single(t: (TokenKind, Seq<char>))
    ensures
        net_indent(seq![t]) == indent_delta(t),
        net_indent(seq![t].take(0)) == 0,
        seq![t].take(1) == seq![t],
{
    let one = seq![t];
    assert(one.drop_last() =~= Seq::<(TokenKind, Seq<char>)>::empty());
    assert(one.last() == t);
    assert(net_indent(one.drop_last()) == 0);
    assert(seq![t].take(0) =~= seq![]);
    assert(seq![t].take(1) =~= seq![t]);
}

proof fn lemma_closing_dedent_balanced(indent: nat)
    ensures
        indent + net_indent(closing_dedent(indent)) == 0,
        forall|k: int|
            0 <= k <= closing_dedent(indent).len() ==> indent + net_indent(
                #[trigger] closing_dedent(indent).take(k),
            ) >= 0,
{
    let c = closing_dedent(indent);
    if indent > 0 {
        lemma_net_indent_single((TokenKind::Dedent, spaces_seq(indent)));
    } else {
        assert(c.take(0) =~= c);
    }
}

proof fn lemma_lex_from_balanced(text: Seq<char>, pos: nat, last: TokenKind, indent: nat)
    requires
        indent_only_at_line_start(text, pos, last),
    ensures
        indent + net_indent(lex_from(text, pos, last, indent)) == 0,
        forall|k: int|
            0 <= k <= lex_from(text, pos, last, indent).len() ==> indent + net_indent(
                #[trigger] lex_from(text, pos, last, indent).take(k),
            ) >= 0,
    decreases text.len() - pos,
{
    lemma_closing_dedent_balanced(indent);
    if 1 <= pos && pos + 1 < text.len() {
        match spec_match_token(text.subrange(pos - 1, text.len() as int)) {
            Some((kind, lexeme)) => if lexeme.len() > 0 && pos + lexeme.len() < text.len() {
                let (emitted, new_indent) = emit(last, kind, lexeme, indent);
                let rest = lex_from(text, pos + lexeme.len(), kind, new_indent);
                let all = lex_from(text, pos, last, indent);
                assert(all == emitted + rest);
                lemma_lex_from_balanced(text, pos + lexeme.len(), kind, new_indent);
                // The tokens of one step take the indentation from `indent` to
                // `new_indent` and never below zero on the way.
                assert(indent + net_indent(emitted) == new_indent && forall|k: int|
                    0 <= k <= emitted.len() ==> indent + net_indent(#[trigger] emitted.take(k))
                        >= 0) by {
                    assert(emitted.take(0) =~= seq![]);
                    assert(emitted.take(emitted.len() as int) =~= emitted);
                    if ends_line(last) && kind == TokenKind::Indent {
                        if emitted.len() == 1 {
                            lemma_net_indent_single(emitted[0]);
                            assert(emitted == seq![emitted[0]]);
                        }
                    } else if ends_line(last) && kind == TokenKind::BlankLine {
                        lemma_net_indent_single((kind, lexeme));
                    } else if ends_line(last) {
                        let c = closing_dedent(indent);
                        let one = seq![(kind, lexeme)];
                        lemma_net_indent_concat(c, one);
                        lemma_net_indent_single((kind, lexeme));
                        lemma_closing_dedent_balanced(indent);
                        assert forall|k: int| 0 <= k <= emitted.len() implies indent + net_indent(
                            #[trigger] emitted.take(k),
                        ) >= 0 by {
                            if k <= c.len() {
                                assert(emitted.take(k) =~= c.take(k));
                            }
                        }
                    } else if kind == TokenKind::BulletListMarker && !(last == TokenKind::Indent
                        || last == TokenKind::Dedent) {
                        lemma_net_indent_single((TokenKind::Punctuation, lexeme));
                    } else {
                        lemma_net_indent_single((kind, lexeme));
                    }
                }
                lemma_net_indent_concat(emitted, rest);
                assert forall|k: int| 0 <= k <= all.len() implies indent + net_indent(
                    #[trigger] all.take(k),
                ) >= 0 by {
                    if k <= emitted.len() {
                        assert(all.take(k) =~= emitted.take(k));
                    } else {
                        assert(all.take(k) =~= emitted + rest.take(k - emitted.len()));
                        lemma_net_indent_concat(emitted, rest.take(k - emitted.len()));
                        assert(rest.take(k - emitted.len()) == rest.take(k - emitted.len()));
                    }
                }
            } else {
            },
            None => {},
        }
    }
}

/// A bullet marker right after an indentation change opens a (nested)
/// list and keeps its kind; one in the middle of a line is punctuation.
pub proof fn law_bullet_after_indentation_keeps_its_kind(last: TokenKind, lexeme: Seq<char>, indent: nat)
    ensures
        (last == TokenKind::Indent || last == TokenKind::Dedent) ==> emit(
            last,
            TokenKind::BulletListMarker,
            lexeme,
            indent,
        ) == (seq![(TokenKind::BulletListMarker, lexeme)], indent),
        (!ends_line(last) && last != TokenKind::Indent && last != TokenKind::Dedent) ==> emit(
            last,
            TokenKind::BulletListMarker,
            lexeme,
            indent,
        ) == (seq![(TokenKind::Punctuation, lexeme)], indent),
{
}

/// Where the lexer recognises a bullet marker right after an indentation
/// change, the next token it gives is that bullet marker.
pub proof fn law_lexer_keeps_bullet_after_indentation(
    text: Seq<char>,
    pos: nat,
    last: TokenKind,
    indent: nat,
    lexeme: Seq<char>,
)
    requires
        1 <= pos,
        pos + 1 < text.len(),
        spec_match_token(text.subrange(pos - 1, text.len() as int)) == Some((TokenKind::BulletListMarker, lexeme)),
        lexeme.len() > 0,
        pos + lexeme.len() < text.len(),
        last == TokenKind::Indent || last == TokenKind::Dedent,
    ensures
        lex_from(text, pos, last, indent).len() > 0,
        lex_from(text, pos, last, indent)[0] == (TokenKind::BulletListMarker, lexeme),
{
    let rest = lex_from(text, pos + lexeme.len(), TokenKind::BulletListMarker, indent);
    assert(lex_from(text, pos, last, indent) == seq![(TokenKind::BulletListMarker, lexeme)] + rest);
}

/// Indentation is balanced: where the matcher recognises no dedent and sees
/// indentation only at the start of a line, the `Indent` and `Dedent` tokens
/// of the token sequence never take the indentation below column zero, and
/// at the end they bring it back to column zero.
pub proof fn law_tokenize_indentation_balanced(input: Seq<char>)
    requires
        indent_only_at_line_start(padded(input), 1, TokenKind::BlankLine),
    ensures
        net_indent(spec_tokenize(input)) == 0,
        forall|k: int|
            0 <= k <= spec_tokenize(input).len() ==> net_indent(
                #[trigger] spec_tokenize(input).take(k),
            ) >= 0,
{
    lemma_lex_from_balanced(padded(input), 1, TokenKind::BlankLine, 0);
}

/// No token is empty: every token of the sequence has a lexeme of at least
/// one character.
pub proof fn law_tokenize_lexemes_nonempty(input: Seq<char>)
    ensures
        forall|i: int| 0 <= i < spec_tokenize(input).len() ==> (#[trigger] spec_tokenize(input)[i]).1.len() > 0,
{
    lemma_lex_from_nonempty(padded(input), 1, TokenKind::BlankLine, 0);
}

proof fn lemma_lex_from_nonempty(text: Seq<char>, pos: nat, last: TokenKind, indent: nat)
    ensures
        forall|i: int| 0 <= i < lex_from(text, pos, last, indent).len() ==> (
        #[trigger] lex_from(text, pos, last, indent)[i]).1.len() > 0,
    decreases text.len() - pos,
{
    if 1 <= pos && pos + 1 < text.len() {
        match spec_match_token(text.subrange(pos - 1, text.len() as int)) {
            Some((kind, lexeme)) => if lexeme.len() > 0 && pos + lexeme.len() < text.len() {
                let (emitted, new_indent) = emit(last, kind, lexeme, indent);
                let rest = lex_from(text, pos + lexeme.len(), kind, new_indent);
                lemma_lex_from_nonempty(text, pos + lexeme.len(), kind, new_indent);
                let all = lex_from(text, pos, last, indent);
                assert(all == emitted + rest);
                assert forall|i: int| 0 <= i < all.len() implies (#[trigger] all[i]).1.len() > 0 by {
                    if i >= emitted.len() {
                        assert(all[i] == rest[i - emitted.len()]);
                    }
                }
            } else {
            },
            None => {},
        }
    }
}

/// A lexeme found by the matcher stands right after the first character of
/// the text it was found in and leaves at least one character after it.
pub proof fn lemma_match_token_bounds(input: Seq<char>, i: nat)
    ensures
        match_token_from(input, i) matches Some((k, l)) ==> l.len() + 2 <= input.len()
            && input.subrange(1, l.len() + 1 as int) == l,
    decreases match_order().len() - i,
{
    if i < match_order().len() {
        match spec_find_lexeme(match_order()[i as int], input) {
            Some(l) => {},
            None => lemma_match_token_bounds(input, i + 1),
        }
    }
}

/// A string of `n` spaces.
pub fn spaces(n: usize) -> (s: String)
    ensures
        s@ == spaces_seq(n as nat),
{
    let mut s = String::new();
    let mut i: usize = 0;
    while i < n
        invariant
            i <= n,
            s@ == spaces_seq(i as nat),
        decreases n - i,
    {
        proof {
            reveal_strlit(" ");
        }
        s.append(" ");
        i = i + 1;
        assert(s@ =~= spaces_seq(i as nat));
    }
    s
}

fn push_token(tokens: &mut Vec<Token>, kind: TokenKind, lexeme: String)
    ensures
        token_views(final(tokens)@) == token_views(old(tokens)@).push((kind, lexeme@)),
{
    let ghost before = tokens@;
    tokens.push(Token::from_string(kind, lexeme));
    assert(token_views(tokens@) =~= token_views(before).push((kind, lexeme@)));
}

/// Splits `input` into tokens. The text is read with two newlines added at
/// each end; indentation is turned into `Indent` and `Dedent` tokens that
/// carry the change of indentation, and an indented text ends with a dedent
/// back to column zero.
pub fn tokenize(input: &str) -> (tokens: Vec<Token>)
    ensures
        token_views(tokens@) == spec_tokenize(input@),
{
    let mut text = String::new();
    proof {
        reveal_strlit("\n\n");
    }
    text.append("\n\n");
    text.append(input);
    text.append("\n\n");
    assert(text@ =~= padded(input@));
    let n = text.as_str().unicode_len();
    let mut tokens: Vec<Token> = Vec::new();
    let mut last_token_kind = TokenKind::BlankLine;
    let mut current_indent: usize = 0;
    let mut index: usize = 1;
    let mut done = false;
    assert(token_views(tokens@) =~= seq![]);
    while !done && index < n - 1
        invariant
            n == text@.len(),
            text@ == padded(input@),
            1 <= index <= n,
            current_indent <= n,
            done ==> lex_from(text@, index as nat, last_token_kind, current_indent as nat)
                == closing_dedent(current_indent as nat),
            token_views(tokens@) + lex_from(text@, index as nat, last_token_kind, current_indent as nat)
                == spec_tokenize(input@),
        decreases n - index + (if done { 0int } else { 1int }),
    {
        let sub_str = text.as_str().substring_char(index - 1, n);
        let ghost sub = text@.subrange(index - 1, n as int);
        let ghost before = token_views(tokens@);
        match TokenKind::match_token(sub_str) {
            None => {
                done = true;
            },
            Some((token_kind, lexeme)) => {
                let len = lexeme.unicode_len();
                proof {
                    lemma_match_token_bounds(sub, 0);
                }
                if len == 0 {
                    done = true;
                } else {
                    let ghost emitted = emit(last_token_kind, token_kind, lexeme@, current_indent as nat).0;
                    if (last_token_kind == TokenKind::NewLine || last_token_kind == TokenKind::BlankLine)
                        && token_kind == TokenKind::Indent {
                        let new_indent = len;
                        if new_indent > current_indent {
                            push_token(&mut tokens, TokenKind::Indent, spaces(new_indent - current_indent));
                        } else if new_indent < current_indent {
                            push_token(&mut tokens, TokenKind::Dedent, spaces(current_indent - new_indent));
                        }
                        current_indent = new_indent;
                    } else if (last_token_kind == TokenKind::NewLine || last_token_kind == TokenKind::BlankLine)
                        && token_kind == TokenKind::BlankLine {
                        push_token(&mut tokens, token_kind, lexeme.to_owned());
                    } else if last_token_kind == TokenKind::NewLine || last_token_kind == TokenKind::BlankLine {
                        if current_indent > 0 {
                            push_token(&mut tokens, TokenKind::Dedent, spaces(current_indent));
                        }
                        current_indent = 0;
                        push_token(&mut tokens, token_kind, lexeme.to_owned());
                    } else if token_kind == TokenKind::BulletListMarker {
                        if last_token_kind == TokenKind::Indent || last_token_kind == TokenKind::Dedent {
                            push_token(&mut tokens, token_kind, lexeme.to_owned());
                        } else {
                            push_token(&mut tokens, TokenKind::Punctuation, lexeme.to_owned());
                        }
                    } else {
                        push_token(&mut tokens, token_kind, lexeme.to_owned());
                    }
                    assert(token_views(tokens@) =~= before + emitted);
                    last_token_kind = token_kind;
                    index = index + len;
                }
            },
        }
    }
    if current_indent > 0 {
        push_token(&mut tokens, TokenKind::Dedent, spaces(current_indent));
    }
    assert(token_views(tokens@) =~= spec_tokenize(input@));
    tokens
}

} // verus!
