//! Whole-line token kinds, recognised by matching a complete line.

use vstd::prelude::*;

verus! {

/// Kinds of whole line.
#[derive(Debug, Clone, Copy, PartialEq, Eq, Structural)]
pub enum TokenKind {
    HeadingUnderline,
    Indent,
    Directive,
    Comment,
    TableHorizontal,
}

/// Whether the regular expression `pattern` matches somewhere in `haystack`,
/// in the sense of the `regex` crate; false where the pattern does not
/// compile.
pub uninterp spec fn regex_is_match(pattern: Seq<char>, haystack: Seq<char>) -> bool;

/// Compiles `pattern` with `regex::Regex::new` and tests `haystack` with
/// `Regex::is_match`. Trusted: the result is claimed to be `regex_is_match`
/// of the two arguments and nothing more.
#[verifier::external_body]
fn regex_matches(pattern: &str, haystack: &str) -> (r: bool)
    ensures
        r == regex_is_match(pattern@, haystack@),
{
    match regex::Regex::new(pattern) {
        Ok(re) => re.is_match(haystack),
        Err(_) => false,
    }
}

/// The pattern a whole line of each kind matches.
pub open spec fn spec_line_pattern(kind: TokenKind) -> Seq<char> {
    match kind {
        TokenKind::HeadingUnderline => r"^=+\n$"@,
        TokenKind::Indent => r"^[ \t]+$"@,
        TokenKind::Directive => r"^\.\.\s+([A-Za-z_-]+)::[ \t]*$"@,
        TokenKind::Comment => r"^\.\.\s+.*[^:\s](?:\s*)$"@,
        TokenKind::TableHorizontal => r"^=+(?:\s+=+)+\s*$"@,
    }
}

/// The name of each kind.
pub open spec fn spec_name(kind: TokenKind) -> Seq<char> {
    match kind {
        TokenKind::HeadingUnderline => "heading_underline"@,
        TokenKind::Indent => "indent"@,
        TokenKind::Directive => "directive"@,
        TokenKind::Comment => "comment"@,
        TokenKind::TableHorizontal => "table_horizontal"@,
    }
}

impl TokenKind {
    /// The name of the kind.
    pub fn name(self) -> (r: &'static str)
        ensures
            r@ == spec_name(self),
    {
        match self {
            TokenKind::HeadingUnderline => "heading_underline",
            TokenKind::Indent => "indent",
            TokenKind::Directive => "directive",
            TokenKind::Comment => "comment",
            TokenKind::TableHorizontal => "table_horizontal",
        }
    }

    /// The pattern a whole line of this kind matches.
    pub fn pattern(self) -> (r: &'static str)
        ensures
            r@ == spec_line_pattern(self),
    {
        match self {
            TokenKind::HeadingUnderline => r"^=+\n$",
            TokenKind::Indent => r"^[ \t]+$",
            TokenKind::Directive => r"^\.\.\s+([A-Za-z_-]+)::[ \t]*$",
            TokenKind::Comment => r"^\.\.\s+.*[^:\s](?:\s*)$",
            TokenKind::TableHorizontal => r"^=+(?:\s+=+)+\s*$",
        }
    }

    /// Whether `input` is a line of this kind.
    pub fn is_match(self, input: &str) -> (r: bool)
        ensures
            r == regex_is_match(spec_line_pattern(self), input@),
    {
        regex_matches(self.pattern(), input)
    }
}

} // verus!
