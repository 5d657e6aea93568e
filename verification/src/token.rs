//! Tokens of reStructuredText and the rules that recognise them.

use vstd::prelude::*;

verus! {

/// The kinds of token the lexer produces.
#[derive(Debug, Clone, Copy, PartialEq, Eq, Structural)]
pub enum TokenKind {
    BackquoteEnd,
    BackquoteStart,
    BlankLine,
    BulletListMarker,
    Dedent,
    DoubleColon,
    DoubleDot,
    EmphasisEnd,
    EmphasisStart,
    EnumeratedListMarker,
    Field,
    FootnoteReference,
    HyperlinkReferenceEnd,
    Indent,
    InlineInternalTargetStart,
    InlineLiteralEnd,
    InlineLiteralStart,
    LiteralChar,
    NewLine,
    Punctuation,
    Separator,
    SimpleAnonymousHyperLinkReference,
    SimpleHyperlinkReference,
    Spaces,
    StrongEnd,
    StrongStart,
    SubstitutionReference,
    TableHorizontal,
    Word,
    EoF,
}


/// The pattern that recognises a token of kind `kind`: one character of
/// context, the lexeme, one character of context, anchored at the start.
pub open spec fn spec_pattern(kind: TokenKind) -> Seq<char> {
    match kind {
            TokenKind::Separator => r#"^\n[=\-`:.'"~\^_\*\+#]{4,}\n"#@,
            TokenKind::Indent => r#"^\n[ \t]+[^ \t\n]"#@,
            TokenKind::BlankLine => r#"^\n[ \t]*\n(.|\n)"#@,
            TokenKind::NewLine => r#"^[^\n]\n(.|\n)"#@,
            TokenKind::DoubleDot => r#"^[\n\s]\.\.[\n\s]"#@,
            TokenKind::DoubleColon => r#"^(.|\n)::(.|\n)"#@,
            TokenKind::Field => r#"^[\n\s]:[A-Za-z0-9_]+:[\n\s]"#@,
            TokenKind::TableHorizontal => r#"^\n=+(?:\s+=+)+\s*\n"#@,
            TokenKind::StrongStart => r#"^(?:[\n\s\-:/'"<(\[{]|\p{Ps}|\p{Pi}|\p{Pf}|\p{Pd}|\p{Po})\*\*[^\s]"#@,
            TokenKind::StrongEnd => r#"^[^\s]\*\*(?:[\n\s\-\.,:;!?\\/'")\]}>]|\p{Pe}|\p{Pi}|\p{Pf}|\p{Pd}|\p{Po})"#@,
            TokenKind::EmphasisStart => r#"^(?:[\n\s\-:/'"<(\[{]|\p{Ps}|\p{Pi}|\p{Pf}|\p{Pd}|\p{Po})\*[^\s]"#@,
            TokenKind::EmphasisEnd => r#"^[^\s]\*(?:[\n\s\-\.,:;!?\\/'")\]}>]|\p{Pe}|\p{Pi}|\p{Pf}|\p{Pd}|\p{Po})"#@,
            TokenKind::InlineLiteralStart => r#"^(?:[\n\s\-:/'"<(\[{]|\p{Ps}|\p{Pi}|\p{Pf}|\p{Pd}|\p{Po})``[^\s]"#@,
            TokenKind::InlineLiteralEnd => r#"^[^\s]``(?:[\n\s\-\.,:;!?\\/'")\]}>]|\p{Pe}|\p{Pi}|\p{Pf}|\p{Pd}|\p{Po})"#@,
            TokenKind::InlineInternalTargetStart => r#"^(?:[\n\s\-:/'"<(\[{]|\p{Ps}|\p{Pi}|\p{Pf}|\p{Pd}|\p{Po})_`[^\s]"#@,
            TokenKind::BackquoteStart => r#"^(?:[\n\s\-:/'"<(\[{]|\p{Ps}|\p{Pi}|\p{Pf}|\p{Pd}|\p{Po})`[^\s]"#@,
            TokenKind::BackquoteEnd => r#"^[^\s]`(?:[\n\s\-\.,:;!?\\/'")\]}>]|\p{Pe}|\p{Pi}|\p{Pf}|\p{Pd}|\p{Po})"#@,
            TokenKind::SubstitutionReference => r#"^(?:[\n\s\-:/'"<(\[{]|\p{Ps}|\p{Pi}|\p{Pf}|\p{Pd}|\p{Po})\|.+\|(?:[\n\s\-\.,:;!?\\/'")\]}>]|\p{Pe}|\p{Pi}|\p{Pf}|\p{Pd}|\p{Po})"#@,
            TokenKind::FootnoteReference => r#"^(?:[\n\s\-:/'"<(\[{]|\p{Ps}|\p{Pi}|\p{Pf}|\p{Pd}|\p{Po})\[.+\]_(?:[\n\s\-\.,:;!?\\/'")\]}>]|\p{Pe}|\p{Pi}|\p{Pf}|\p{Pd}|\p{Po})"#@,
            TokenKind::HyperlinkReferenceEnd => r#"^(?:[^\s]`_|[^\s]_)(?:[\n\s\-\.,:;!?\\/'")\]}>]|\p{Pe}|\p{Pi}|\p{Pf}|\p{Pd}|\p{Po})"#@,
            TokenKind::SimpleAnonymousHyperLinkReference => r#"^[\s\n]\w+__\s"#@,
            TokenKind::SimpleHyperlinkReference => r#"^[\s\n]\w+_\s"#@,
            TokenKind::BulletListMarker => r#"^(\s|\n)[\-\+\*•‣⁃]\s"#@,
            TokenKind::EnumeratedListMarker => r#"^\n(?:(?:[0-9]+|[A-Za-z]|[IVXLCDMivxlcdm]+|#)[.)]|\((?:[0-9]+|[A-Za-z]|[IVXLCDMivxlcdm]+|#)\))\s"#@,
            TokenKind::Spaces => r#"^[^ \t\n][ \t]+[^ \t]"#@,
            TokenKind::Word => r#"^[^\w]\w+[^\w]"#@,
            TokenKind::Punctuation => r#"^(.|\n)[[:punct:]](.|\n)"#@,
            TokenKind::Dedent => r#"^\b\B"#@,
            TokenKind::LiteralChar => r#"^(.|\n).(.|\n)"#@,
            TokenKind::EoF => r#"^\b\B"#@,
    }
}

/// The order in which the kinds are tried: the first kind that matches wins.
pub open spec fn match_order() -> Seq<TokenKind> {
    seq![
            TokenKind::Separator,
            TokenKind::Indent,
            TokenKind::BlankLine,
            TokenKind::NewLine,
            TokenKind::DoubleDot,
            TokenKind::DoubleColon,
            TokenKind::Field,
            TokenKind::TableHorizontal,
            TokenKind::StrongStart,
            TokenKind::StrongEnd,
            TokenKind::EmphasisStart,
            TokenKind::EmphasisEnd,
            TokenKind::InlineLiteralStart,
            TokenKind::InlineLiteralEnd,
            TokenKind::InlineInternalTargetStart,
            TokenKind::BackquoteStart,
            TokenKind::BackquoteEnd,
            TokenKind::SubstitutionReference,
            TokenKind::FootnoteReference,
            TokenKind::HyperlinkReferenceEnd,
            TokenKind::SimpleAnonymousHyperLinkReference,
            TokenKind::SimpleHyperlinkReference,
            TokenKind::BulletListMarker,
            TokenKind::EnumeratedListMarker,
            TokenKind::Spaces,
            TokenKind::Word,
            TokenKind::Punctuation,
            TokenKind::Dedent,
            TokenKind::LiteralChar
    ]
}

/// The first match, in the sense of the `regex` crate, of the regular
/// expression `pattern` in `haystack`: `None` where the pattern does not
/// compile or nothing in the haystack matches it.
pub uninterp spec fn regex_first_match(pattern: Seq<char>, haystack: Seq<char>) -> Option<Seq<char>>;

/// Compiles `pattern` with `regex::Regex::new` and searches `haystack` with
/// `Regex::find`, handing back the text of the first match (`Match::as_str`).
/// Trusted: the result is claimed to be `regex_first_match` of the two
/// arguments and nothing more; in particular no property of regular
/// expressions is stated here.
#[verifier::external_body]
fn first_match(pattern: &str, haystack: &str) -> (res: Option<String>)
    ensures
        match res {
            Some(m) => regex_first_match(pattern@, haystack@) == Some(m@),
            None => regex_first_match(pattern@, haystack@) is None,
        },
{
    match regex::Regex::new(pattern) {
        Ok(re) => re.find(haystack).map(|m| m.as_str().to_string()),
        Err(_) => None,
    }
}

/// The lexeme that a token of `kind` has at the start of `input`: the text
/// matched by the kind's pattern without its leading and trailing character
/// of context. Every pattern is anchored with `^`, so a match is a prefix of
/// the input; the prefix condition states that explicitly.
pub open spec fn spec_find_lexeme(kind: TokenKind, input: Seq<char>) -> Option<Seq<char>> {
    match regex_first_match(spec_pattern(kind), input) {
        Some(m) => spec_lexeme_of_match(input, m),
        None => None,
    }
}

/// The lexeme inside a match `m` of a pattern at the start of `input`: the
/// match without its first and last character of context, where the match
/// has both and is a prefix of the input.
pub open spec fn spec_lexeme_of_match(input: Seq<char>, m: Seq<char>) -> Option<Seq<char>> {
    if 2 <= m.len() <= input.len() && input.subrange(0, m.len() as int) == m {
        Some(input.subrange(1, m.len() - 1))
    } else {
        None
    }
}

/// The lexeme inside the match `m` at the start of `input`, as
/// `spec_lexeme_of_match` says.
pub fn lexeme_of_match<'a>(input: &'a str, m: &str) -> (r: Option<&'a str>)
    ensures
        match r {
            Some(l) => spec_lexeme_of_match(input@, m@) == Some(l@),
            None => spec_lexeme_of_match(input@, m@) is None,
        },
{
    let ml = m.unicode_len();
    let n = input.unicode_len();
    if 2 <= ml && ml <= n {
        let head = input.substring_char(0, ml);
        if crate::text::str_eq(head, m) {
            Some(input.substring_char(1, ml - 1))
        } else {
            None
        }
    } else {
        None
    }
}

/// The first kind, from position `i` of the match order on, that has a
/// lexeme at the start of `input`, with that lexeme.
pub open spec fn match_token_from(input: Seq<char>, i: nat) -> Option<(TokenKind, Seq<char>)>
    decreases match_order().len() - i,
{
    if i >= match_order().len() {
        None
    } else {
        match spec_find_lexeme(match_order()[i as int], input) {
            Some(l) => Some((match_order()[i as int], l)),
            None => match_token_from(input, i + 1),
        }
    }
}

/// The token at the start of `input`: the first kind in the match order whose
/// pattern matches, with its lexeme.
pub open spec fn spec_match_token(input: Seq<char>) -> Option<(TokenKind, Seq<char>)> {
    match_token_from(input, 0)
}

proof fn lemma_match_token_from(input: Seq<char>, i: nat)
    ensures
        match match_token_from(input, i) {
            Some((k, l)) => exists|j: int|
                i <= j < match_order().len() && match_order()[j] == k && spec_find_lexeme(k, input) == Some(l)
                    && forall|h: int| i <= h < j ==> (#[trigger] spec_find_lexeme(match_order()[h], input)) is None,
            None => forall|h: int| i <= h < match_order().len() ==> (#[trigger] spec_find_lexeme(match_order()[h], input)) is None,
        },
    decreases match_order().len() - i,
{
    if i < match_order().len() {
        lemma_match_token_from(input, i + 1);
        if spec_find_lexeme(match_order()[i as int], input) is Some {
            assert(forall|h: int| i <= h < i ==> (#[trigger] spec_find_lexeme(match_order()[h], input)) is None);
        } else {
            match match_token_from(input, i + 1) {
                Some((k, l)) => {
                    let j = choose|j: int|
                        i + 1 <= j < match_order().len() && match_order()[j] == k && spec_find_lexeme(k, input) == Some(l)
                            && forall|h: int| i + 1 <= h < j ==> (#[trigger] spec_find_lexeme(match_order()[h], input)) is None;
                    assert forall|h: int| i <= h < j implies (#[trigger] spec_find_lexeme(match_order()[h], input)) is None by {
                        if h > i {
                            assert(i + 1 <= h < j);
                        }
                    }
                },
                None => {},
            }
        }
    }
}

/// The token at the start of a text is that of the first kind, in the
/// match order, that has a lexeme there; there is none exactly where no kind
/// has one.
pub proof fn law_match_token_first_kind(input: Seq<char>)
    ensures
        match spec_match_token(input) {
            Some((k, l)) => exists|j: int|
                0 <= j < match_order().len() && match_order()[j] == k && spec_find_lexeme(k, input) == Some(l)
                    && forall|h: int| 0 <= h < j ==> (#[trigger] spec_find_lexeme(match_order()[h], input)) is None,
            None => forall|h: int| 0 <= h < match_order().len() ==> (#[trigger] spec_find_lexeme(match_order()[h], input)) is None,
        },
{
    lemma_match_token_from(input, 0);
}

/// A lexeme lies inside its match: it is the text from the second
/// character of the input on, and leaves room for one character of context
/// before and after it.
pub proof fn law_lexeme_inside_match(input: Seq<char>, m: Seq<char>)
    ensures
        spec_lexeme_of_match(input, m) matches Some(l) ==> l.len() + 2 <= input.len() && l == input.subrange(
            1,
            1 + l.len() as int,
        ) && l.len() + 2 == m.len(),
{
}

fn match_order_vec() -> (v: Vec<TokenKind>)
    ensures
        v@ == match_order(),
{
    vec![
            TokenKind::Separator,
            TokenKind::Indent,
            TokenKind::BlankLine,
            TokenKind::NewLine,
            TokenKind::DoubleDot,
            TokenKind::DoubleColon,
            TokenKind::Field,
            TokenKind::TableHorizontal,
            TokenKind::StrongStart,
            TokenKind::StrongEnd,
            TokenKind::EmphasisStart,
            TokenKind::EmphasisEnd,
            TokenKind::InlineLiteralStart,
            TokenKind::InlineLiteralEnd,
            TokenKind::InlineInternalTargetStart,
            TokenKind::BackquoteStart,
            TokenKind::BackquoteEnd,
            TokenKind::SubstitutionReference,
            TokenKind::FootnoteReference,
            TokenKind::HyperlinkReferenceEnd,
            TokenKind::SimpleAnonymousHyperLinkReference,
            TokenKind::SimpleHyperlinkReference,
            TokenKind::BulletListMarker,
            TokenKind::EnumeratedListMarker,
            TokenKind::Spaces,
            TokenKind::Word,
            TokenKind::Punctuation,
            TokenKind::Dedent,
            TokenKind::LiteralChar
    ]
}

/// The name of a token kind, as written in its declaration.
pub open spec fn spec_token_name(kind: TokenKind) -> Seq<char> {
    match kind {
        TokenKind::BackquoteEnd => "BackquoteEnd"@,
        TokenKind::BackquoteStart => "BackquoteStart"@,
        TokenKind::BlankLine => "BlankLine"@,
        TokenKind::BulletListMarker => "BulletListMarker"@,
        TokenKind::Dedent => "Dedent"@,
        TokenKind::DoubleColon => "DoubleColon"@,
        TokenKind::DoubleDot => "DoubleDot"@,
        TokenKind::EmphasisEnd => "EmphasisEnd"@,
        TokenKind::EmphasisStart => "EmphasisStart"@,
        TokenKind::EnumeratedListMarker => "EnumeratedListMarker"@,
        TokenKind::Field => "Field"@,
        TokenKind::FootnoteReference => "FootnoteReference"@,
        TokenKind::HyperlinkReferenceEnd => "HyperlinkReferenceEnd"@,
        TokenKind::Indent => "Indent"@,
        TokenKind::InlineInternalTargetStart => "InlineInternalTargetStart"@,
        TokenKind::InlineLiteralEnd => "InlineLiteralEnd"@,
        TokenKind::InlineLiteralStart => "InlineLiteralStart"@,
        TokenKind::LiteralChar => "LiteralChar"@,
        TokenKind::NewLine => "NewLine"@,
        TokenKind::Punctuation => "Punctuation"@,
        TokenKind::Separator => "Separator"@,
        TokenKind::SimpleAnonymousHyperLinkReference => "SimpleAnonymousHyperLinkReference"@,
        TokenKind::SimpleHyperlinkReference => "SimpleHyperlinkReference"@,
        TokenKind::Spaces => "Spaces"@,
        TokenKind::StrongEnd => "StrongEnd"@,
        TokenKind::StrongStart => "StrongStart"@,
        TokenKind::SubstitutionReference => "SubstitutionReference"@,
        TokenKind::TableHorizontal => "TableHorizontal"@,
        TokenKind::Word => "Word"@,
        TokenKind::EoF => "EoF"@,
    }
}

impl TokenKind {
    /// The name of the token kind.
    pub fn name(self) -> (r: &'static str)
        ensures
            r@ == spec_token_name(self),
    {
        match self {
            TokenKind::BackquoteEnd => "BackquoteEnd",
            TokenKind::BackquoteStart => "BackquoteStart",
            TokenKind::BlankLine => "BlankLine",
            TokenKind::BulletListMarker => "BulletListMarker",
            TokenKind::Dedent => "Dedent",
            TokenKind::DoubleColon => "DoubleColon",
            TokenKind::DoubleDot => "DoubleDot",
            TokenKind::EmphasisEnd => "EmphasisEnd",
            TokenKind::EmphasisStart => "EmphasisStart",
            TokenKind::EnumeratedListMarker => "EnumeratedListMarker",
            TokenKind::Field => "Field",
            TokenKind::FootnoteReference => "FootnoteReference",
            TokenKind::HyperlinkReferenceEnd => "HyperlinkReferenceEnd",
            TokenKind::Indent => "Indent",
            TokenKind::InlineInternalTargetStart => "InlineInternalTargetStart",
            TokenKind::InlineLiteralEnd => "InlineLiteralEnd",
            TokenKind::InlineLiteralStart => "InlineLiteralStart",
            TokenKind::LiteralChar => "LiteralChar",
            TokenKind::NewLine => "NewLine",
            TokenKind::Punctuation => "Punctuation",
            TokenKind::Separator => "Separator",
            TokenKind::SimpleAnonymousHyperLinkReference => "SimpleAnonymousHyperLinkReference",
            TokenKind::SimpleHyperlinkReference => "SimpleHyperlinkReference",
            TokenKind::Spaces => "Spaces",
            TokenKind::StrongEnd => "StrongEnd",
            TokenKind::StrongStart => "StrongStart",
            TokenKind::SubstitutionReference => "SubstitutionReference",
            TokenKind::TableHorizontal => "TableHorizontal",
            TokenKind::Word => "Word",
            TokenKind::EoF => "EoF",
        }
    }

    /// Another name for the end-of-input kind.
    #[allow(non_upper_case_globals)]
    pub const Eof: TokenKind = TokenKind::EoF;

    /// The pattern that recognises a token of this kind.
    pub fn pattern(self) -> (p: &'static str)
        ensures
            p@ == spec_pattern(self),
    {
        match self {
            TokenKind::Separator => r#"^\n[=\-`:.'"~\^_\*\+#]{4,}\n"#,
            TokenKind::Indent => r#"^\n[ \t]+[^ \t\n]"#,
            TokenKind::BlankLine => r#"^\n[ \t]*\n(.|\n)"#,
            TokenKind::NewLine => r#"^[^\n]\n(.|\n)"#,
            TokenKind::DoubleDot => r#"^[\n\s]\.\.[\n\s]"#,
            TokenKind::DoubleColon => r#"^(.|\n)::(.|\n)"#,
            TokenKind::Field => r#"^[\n\s]:[A-Za-z0-9_]+:[\n\s]"#,
            TokenKind::TableHorizontal => r#"^\n=+(?:\s+=+)+\s*\n"#,
            TokenKind::StrongStart => r#"^(?:[\n\s\-:/'"<(\[{]|\p{Ps}|\p{Pi}|\p{Pf}|\p{Pd}|\p{Po})\*\*[^\s]"#,
            TokenKind::StrongEnd => r#"^[^\s]\*\*(?:[\n\s\-\.,:;!?\\/'")\]}>]|\p{Pe}|\p{Pi}|\p{Pf}|\p{Pd}|\p{Po})"#,
            TokenKind::EmphasisStart => r#"^(?:[\n\s\-:/'"<(\[{]|\p{Ps}|\p{Pi}|\p{Pf}|\p{Pd}|\p{Po})\*[^\s]"#,
            TokenKind::EmphasisEnd => r#"^[^\s]\*(?:[\n\s\-\.,:;!?\\/'")\]}>]|\p{Pe}|\p{Pi}|\p{Pf}|\p{Pd}|\p{Po})"#,
            TokenKind::InlineLiteralStart => r#"^(?:[\n\s\-:/'"<(\[{]|\p{Ps}|\p{Pi}|\p{Pf}|\p{Pd}|\p{Po})``[^\s]"#,
            TokenKind::InlineLiteralEnd => r#"^[^\s]``(?:[\n\s\-\.,:;!?\\/'")\]}>]|\p{Pe}|\p{Pi}|\p{Pf}|\p{Pd}|\p{Po})"#,
            TokenKind::InlineInternalTargetStart => r#"^(?:[\n\s\-:/'"<(\[{]|\p{Ps}|\p{Pi}|\p{Pf}|\p{Pd}|\p{Po})_`[^\s]"#,
            TokenKind::BackquoteStart => r#"^(?:[\n\s\-:/'"<(\[{]|\p{Ps}|\p{Pi}|\p{Pf}|\p{Pd}|\p{Po})`[^\s]"#,
            TokenKind::BackquoteEnd => r#"^[^\s]`(?:[\n\s\-\.,:;!?\\/'")\]}>]|\p{Pe}|\p{Pi}|\p{Pf}|\p{Pd}|\p{Po})"#,
            TokenKind::SubstitutionReference => r#"^(?:[\n\s\-:/'"<(\[{]|\p{Ps}|\p{Pi}|\p{Pf}|\p{Pd}|\p{Po})\|.+\|(?:[\n\s\-\.,:;!?\\/'")\]}>]|\p{Pe}|\p{Pi}|\p{Pf}|\p{Pd}|\p{Po})"#,
            TokenKind::FootnoteReference => r#"^(?:[\n\s\-:/'"<(\[{]|\p{Ps}|\p{Pi}|\p{Pf}|\p{Pd}|\p{Po})\[.+\]_(?:[\n\s\-\.,:;!?\\/'")\]}>]|\p{Pe}|\p{Pi}|\p{Pf}|\p{Pd}|\p{Po})"#,
            TokenKind::HyperlinkReferenceEnd => r#"^(?:[^\s]`_|[^\s]_)(?:[\n\s\-\.,:;!?\\/'")\]}>]|\p{Pe}|\p{Pi}|\p{Pf}|\p{Pd}|\p{Po})"#,
            TokenKind::SimpleAnonymousHyperLinkReference => r#"^[\s\n]\w+__\s"#,
            TokenKind::SimpleHyperlinkReference => r#"^[\s\n]\w+_\s"#,
            TokenKind::BulletListMarker => r#"^(\s|\n)[\-\+\*•‣⁃]\s"#,
            TokenKind::EnumeratedListMarker => r#"^\n(?:(?:[0-9]+|[A-Za-z]|[IVXLCDMivxlcdm]+|#)[.)]|\((?:[0-9]+|[A-Za-z]|[IVXLCDMivxlcdm]+|#)\))\s"#,
            TokenKind::Spaces => r#"^[^ \t\n][ \t]+[^ \t]"#,
            TokenKind::Word => r#"^[^\w]\w+[^\w]"#,
            TokenKind::Punctuation => r#"^(.|\n)[[:punct:]](.|\n)"#,
            TokenKind::Dedent => r#"^\b\B"#,
            TokenKind::LiteralChar => r#"^(.|\n).(.|\n)"#,
            TokenKind::EoF => r#"^\b\B"#,
        }
    }


    /// The lexeme of a token of this kind at the start of `input`, if any.
    pub fn find_lexeme<'a>(self, input: &'a str) -> (r: Option<&'a str>)
        ensures
            match r {
                Some(l) => spec_find_lexeme(self, input@) == Some(l@),
                None => spec_find_lexeme(self, input@) is None,
            },
    {
        match first_match(self.pattern(), input) {
            None => None,
            Some(m) => lexeme_of_match(input, m.as_str()),
        }
    }

    /// Whether a token of this kind starts `input`.
    pub fn is_match(self, input: &str) -> (r: bool)
        ensures
            r == spec_find_lexeme(self, input@) is Some,
    {
        let result = self.find_lexeme(input);
        result.is_some()
    }

    /// The token at the start of `input`: the first kind of the match order
    /// that matches, with its lexeme.
    pub fn match_token<'a>(input: &'a str) -> (r: Option<(TokenKind, &'a str)>)
        ensures
            match r {
                Some((k, l)) => spec_match_token(input@) == Some((k, l@)),
                None => spec_match_token(input@) is None,
            },
    {
        let order = match_order_vec();
        let mut i: usize = 0;
        while i < order.len()
            invariant
                order@ == match_order(),
                i <= order@.len(),
                match_token_from(input@, 0) == match_token_from(input@, i as nat),
            decreases order@.len() - i,
        {
            let kind = order[i];
            match kind.find_lexeme(input) {
                Some(lexeme) => {
                    return Some((kind, lexeme));
                },
                None => {},
            }
            i = i + 1;
        }
        None
    }

    /// Whether `self` is one of `kinds`.
    pub fn is(self, kinds: &[TokenKind]) -> (r: bool)
        ensures
            r == kinds@.contains(self),
    {
        let mut i: usize = 0;
        while i < kinds.len()
            invariant
                i <= kinds@.len(),
                forall|j: int| 0 <= j < i ==> kinds@[j] != self,
            decreases kinds@.len() - i,
        {
            if kinds[i] == self {
                return true;
            }
            i = i + 1;
        }
        false
    }
}

/// A token: its kind and the text it stands for.
#[derive(Debug, PartialEq, Eq)]
pub struct Token {
    pub kind: TokenKind,
    pub lexeme: String,
}

impl View for Token {
    type V = (TokenKind, Seq<char>);

    open spec fn view(&self) -> (TokenKind, Seq<char>) {
        (self.kind, self.lexeme@)
    }
}

impl Clone for Token {
    fn clone(&self) -> (r: Self)
        ensures
            r@ == self@,
    {
        Token { kind: self.kind, lexeme: self.lexeme.clone() }
    }
}

impl Token {
    /// A token of `kind` with the text `lexeme`.
    pub fn new(kind: TokenKind, lexeme: &str) -> (t: Token)
        ensures
            t@ == (kind, lexeme@),
    {
        Token { kind, lexeme: lexeme.to_owned() }
    }

    /// A token of `kind` that takes ownership of the text `lexeme`.
    pub fn from_string(kind: TokenKind, lexeme: String) -> (t: Token)
        ensures
            t@ == (kind, lexeme@),
    {
        Token { kind, lexeme }
    }

    /// The kind and the text of the token.
    pub fn as_tuple(&self) -> (r: (TokenKind, &str))
        ensures
            r.0 == self.kind,
            r.1@ == self.lexeme@,
    {
        (self.kind, self.lexeme.as_str())
    }

    /// Whether the token's kind is one of `kinds`.
    pub fn is(&self, kinds: &[TokenKind]) -> (r: bool)
        ensures
            r == kinds@.contains(self.kind),
    {
        self.kind.is(kinds)
    }
}

/// Named groups of token kinds.
pub struct TokenCategory;

impl TokenCategory {
    pub const DIRECTIVE_LIKE: &'static [TokenKind; 2] = &[TokenKind::DoubleDot, TokenKind::DoubleColon];
    pub const INLINE_MARKER: &'static [TokenKind; 5] = &[
        TokenKind::StrongStart,
        TokenKind::EmphasisStart,
        TokenKind::InlineLiteralStart,
        TokenKind::BackquoteStart,
        TokenKind::InlineInternalTargetStart,
    ];
    pub const INLINE_TOKEN: &'static [TokenKind; 4] = &[
        TokenKind::SubstitutionReference,
        TokenKind::FootnoteReference,
        TokenKind::SimpleHyperlinkReference,
        TokenKind::SimpleAnonymousHyperLinkReference,
    ];
    pub const STRUCTURAL: &'static [TokenKind; 1] = &[TokenKind::Separator];
    pub const CONTROL: &'static [TokenKind; 4] = &[
        TokenKind::Indent,
        TokenKind::Dedent,
        TokenKind::BlankLine,
        TokenKind::NewLine,
    ];
    pub const PLAIN: &'static [TokenKind; 4] = &[
        TokenKind::Spaces,
        TokenKind::Word,
        TokenKind::Punctuation,
        TokenKind::LiteralChar,
    ];
    pub const TABLE: &'static [TokenKind; 1] = &[TokenKind::TableHorizontal];
    /// The kinds that open a body element inside a block.
    pub const BODY_ELEMENTS: &'static [TokenKind; 5] = &[
        TokenKind::DoubleDot,
        TokenKind::BulletListMarker,
        TokenKind::EnumeratedListMarker,
        TokenKind::Field,
        TokenKind::DoubleColon,
    ];
}

} // verus!
