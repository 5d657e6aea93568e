//! Enumerators of enumerated lists: their parts, styles and values.

use vstd::prelude::*;

use crate::parser_errors::ParserError;

verus! {

/// The numbering styles of enumerated lists.
#[derive(Debug, Clone, Copy, PartialEq, Eq, Structural)]
pub enum EnumMarkerType {
    Arabic,
    Upperalpha,
    Loweralpha,
    Upperroman,
    Lowerroman,
}

pub open spec fn is_upper(c: char) -> bool {
    'A' <= c <= 'Z'
}

pub open spec fn is_lower(c: char) -> bool {
    'a' <= c <= 'z'
}

pub open spec fn is_digit(c: char) -> bool {
    '0' <= c <= '9'
}

pub open spec fn is_alpha(c: char) -> bool {
    is_upper(c) || is_lower(c)
}

/// The position of a letter in the alphabet, from 1, either case.
pub open spec fn letter_value(c: char) -> int {
    if is_lower(c) {
        c as int - 'a' as int + 1
    } else {
        c as int - 'A' as int + 1
    }
}

/// The value of a run of letters read as a number in base 26 with digits 1 to
/// 26 (`A` is 1, `Z` is 26, `AA` is 27).
pub open spec fn alpha_number(s: Seq<char>) -> int
    decreases s.len(),
{
    if s.len() == 0 {
        0
    } else {
        alpha_number(s.drop_last()) * 26 + letter_value(s.last())
    }
}

/// The value of a roman digit, either case; zero for any other character.
pub open spec fn roman_digit(c: char) -> int {
    if c == 'I' || c == 'i' {
        1
    } else if c == 'V' || c == 'v' {
        5
    } else if c == 'X' || c == 'x' {
        10
    } else if c == 'L' || c == 'l' {
        50
    } else if c == 'C' || c == 'c' {
        100
    } else if c == 'D' || c == 'd' {
        500
    } else if c == 'M' || c == 'm' {
        1000
    } else {
        0
    }
}

pub open spec fn is_roman(c: char) -> bool {
    roman_digit(c) > 0
}

/// The running total and the largest digit so far when the digits of `s`
/// are read from the last to the first: a digit smaller than the largest so
/// far is subtracted, any other is added and becomes the largest so far.
pub open spec fn roman_state(s: Seq<char>) -> (int, int)
    decreases s.len(),
{
    if s.len() == 0 {
        (0, 0)
    } else {
        let (total, previous) = roman_state(s.drop_first());
        let current = roman_digit(s.first());
        if current < previous {
            (total - current, previous)
        } else {
            (total + current, current)
        }
    }
}

/// Whether every running total of the reading of `s` stays within `usize`.
pub open spec fn roman_in_range(s: Seq<char>) -> bool
    decreases s.len(),
{
    s.len() == 0 || (roman_in_range(s.drop_first()) && 0 <= roman_state(s).0 <= usize::MAX)
}

/// The value of the letters `s` as a base-26 number, where `s` is a nonempty
/// run of ASCII letters whose value fits in `usize`.
pub open spec fn spec_alphabetic_value(s: Seq<char>) -> Option<usize> {
    if s.len() > 0 && (forall|i: int| 0 <= i < s.len() ==> is_alpha(#[trigger] s[i])) && alpha_number(s)
        <= usize::MAX {
        Some(alpha_number(s) as usize)
    } else {
        None
    }
}

/// The value of the roman numeral `s`, where `s` is a nonempty run of roman
/// digits whose reading stays within `usize`.
pub open spec fn spec_roman_value(s: Seq<char>) -> Option<usize> {
    if s.len() > 0 && (forall|i: int| 0 <= i < s.len() ==> is_roman(#[trigger] s[i])) && roman_in_range(s) {
        Some(roman_state(s).0 as usize)
    } else {
        None
    }
}

proof fn lemma_alpha_number_grows(s: Seq<char>, k: int)
    requires
        0 <= k <= s.len(),
        forall|i: int| 0 <= i < s.len() ==> is_alpha(#[trigger] s[i]),
    ensures
        alpha_number(s.take(k)) <= alpha_number(s),
        alpha_number(s) >= 0,
    decreases s.len(),
{
    if s.len() > 0 {
        let p = s.drop_last();
        assert forall|i: int| 0 <= i < p.len() implies is_alpha(#[trigger] p[i]) by {
            assert(p[i] == s[i]);
        }
        if k == s.len() {
            assert(s.take(k) =~= s);
            lemma_alpha_number_grows(p, 0);
        } else {
            lemma_alpha_number_grows(p, k);
            assert(p.take(k) =~= s.take(k));
        }
    } else {
        assert(s.take(k) =~= s);
    }
}

/// The value of a run of letters as a base-26 number (`A` is 1, `AA` is 27);
/// `None` for an empty string, a character that is not an ASCII letter, or a
/// value beyond `usize`.
pub fn alphabetic_value(value: &str) -> (r: Option<usize>)
    ensures
        r == spec_alphabetic_value(value@),
{
    let n = value.unicode_len();
    if n == 0 {
        return None;
    }
    let mut i: usize = 0;
    while i < n
        invariant
            n == value@.len(),
            i <= n,
            forall|j: int| 0 <= j < i ==> is_alpha(#[trigger] value@[j]),
        decreases n - i,
    {
        let c = value.get_char(i);
        if !(('a' <= c && c <= 'z') || ('A' <= c && c <= 'Z')) {
            return None;
        }
        i = i + 1;
    }
    let mut total: usize = 0;
    let mut i: usize = 0;
    while i < n
        invariant
            n == value@.len(),
            i <= n,
            forall|j: int| 0 <= j < n ==> is_alpha(#[trigger] value@[j]),
            total == alpha_number(value@.take(i as int)),
        decreases n - i,
    {
        let c = value.get_char(i);
        let digit: usize = if 'a' <= c && c <= 'z' {
            (c as u32 - 'a' as u32 + 1) as usize
        } else {
            (c as u32 - 'A' as u32 + 1) as usize
        };
        assert(value@.take(i + 1).drop_last() =~= value@.take(i as int));
        assert(digit == letter_value(c));
        let next = match total.checked_mul(26) {
            Some(t) => t.checked_add(digit),
            None => None,
        };
        match next {
            Some(t) => {
                total = t;
            },
            None => {
                proof {
                    lemma_alpha_number_grows(value@, i + 1);
                }
                return None;
            },
        }
        i = i + 1;
    }
    assert(value@.take(n as int) =~= value@);
    Some(total)
}


proof fn lemma_roman_in_range_suffix(s: Seq<char>, k: int)
    requires
        0 <= k <= s.len(),
        roman_in_range(s),
    ensures
        roman_in_range(s.subrange(k, s.len() as int)),
    decreases k,
{
    if k == 0 {
        assert(s.subrange(0, s.len() as int) =~= s);
    } else {
        lemma_roman_in_range_suffix(s.drop_first(), k - 1);
        assert(s.drop_first().subrange(k - 1, s.drop_first().len() as int) =~= s.subrange(k, s.len() as int));
    }
}

fn roman_digit_of(c: char) -> (d: usize)
    ensures
        d == roman_digit(c),
{
    if c == 'I' || c == 'i' {
        1
    } else if c == 'V' || c == 'v' {
        5
    } else if c == 'X' || c == 'x' {
        10
    } else if c == 'L' || c == 'l' {
        50
    } else if c == 'C' || c == 'c' {
        100
    } else if c == 'D' || c == 'd' {
        500
    } else if c == 'M' || c == 'm' {
        1000
    } else {
        0
    }
}

/// The value of a roman numeral, read from the last digit to the first (a
/// digit smaller than the largest so far is subtracted); `None` for an empty
/// string, a character that is not a roman digit, or a running total outside
/// `usize`.
pub fn roman_value(value: &str) -> (r: Option<usize>)
    ensures
        r == spec_roman_value(value@),
{
    let n = value.unicode_len();
    if n == 0 {
        return None;
    }
    let mut i: usize = 0;
    while i < n
        invariant
            n == value@.len(),
            i <= n,
            forall|j: int| 0 <= j < i ==> is_roman(#[trigger] value@[j]),
        decreases n - i,
    {
        if roman_digit_of(value.get_char(i)) == 0 {
            return None;
        }
        i = i + 1;
    }
    let mut total: usize = 0;
    let mut previous: usize = 0;
    let mut i: usize = n;
    assert(value@.subrange(n as int, n as int) =~= Seq::<char>::empty());
    while i > 0
        invariant
            n == value@.len(),
            i <= n,
            forall|j: int| 0 <= j < n ==> is_roman(#[trigger] value@[j]),
            (total as int, previous as int) == roman_state(value@.subrange(i as int, n as int)),
            roman_in_range(value@.subrange(i as int, n as int)),
            previous <= 1000,
        decreases i,
    {
        let c = value.get_char(i - 1);
        let current = roman_digit_of(c);
        let ghost tail = value@.subrange(i as int, n as int);
        let ghost longer = value@.subrange(i - 1, n as int);
        assert(longer.drop_first() =~= tail);
        assert(longer.first() == c);
        let next = if current < previous {
            total.checked_sub(current)
        } else {
            total.checked_add(current)
        };
        match next {
            Some(t) => {
                total = t;
                if current >= previous {
                    previous = current;
                }
            },
            None => {
                proof {
                    if roman_in_range(value@) {
                        lemma_roman_in_range_suffix(value@, i - 1);
                    }
                }
                return None;
            },
        }
        i = i - 1;
    }
    assert(value@.subrange(0, n as int) =~= value@);
    Some(total)
}

/// The value of the digits `s` as a decimal number.
pub open spec fn decimal_number(s: Seq<char>) -> int
    decreases s.len(),
{
    if s.len() == 0 {
        0
    } else {
        decimal_number(s.drop_last()) * 10 + (s.last() as int - '0' as int)
    }
}

/// The unsigned number written in `s`: an optional `+` followed by one or
/// more decimal digits, of a value that fits in `usize`.
pub open spec fn spec_parse_usize(s: Seq<char>) -> Option<usize> {
    let digits = unsigned_digits(s);
    if digits.len() > 0 && all_digits(digits) && decimal_number(digits) <= usize::MAX {
        Some(decimal_number(digits) as usize)
    } else {
        None
    }
}

/// The digits of an unsigned number: the text without a leading `+`.
pub open spec fn unsigned_digits(s: Seq<char>) -> Seq<char> {
    if s.len() > 0 && s[0] == '+' {
        s.drop_first()
    } else {
        s
    }
}

pub open spec fn all_digits(d: Seq<char>) -> bool {
    forall|i: int| 0 <= i < d.len() ==> is_digit(#[trigger] d[i])
}

proof fn lemma_decimal_number_grows(s: Seq<char>, k: int)
    requires
        0 <= k <= s.len(),
        forall|i: int| 0 <= i < s.len() ==> is_digit(#[trigger] s[i]),
    ensures
        decimal_number(s.take(k)) <= decimal_number(s),
        decimal_number(s) >= 0,
    decreases s.len(),
{
    if s.len() > 0 {
        let p = s.drop_last();
        assert forall|i: int| 0 <= i < p.len() implies is_digit(#[trigger] p[i]) by {
            assert(p[i] == s[i]);
        }
        if k == s.len() {
            assert(s.take(k) =~= s);
            lemma_decimal_number_grows(p, 0);
        } else {
            lemma_decimal_number_grows(p, k);
            assert(p.take(k) =~= s.take(k));
        }
    } else {
        assert(s.take(k) =~= s);
    }
}

/// Reads an unsigned decimal number, as `str::parse::<usize>` does: an
/// optional `+` and at least one digit, of a value that fits in `usize`.
pub fn parse_usize(value: &str) -> (r: Option<usize>)
    ensures
        r == spec_parse_usize(value@),
{
    let n = value.unicode_len();
    let start: usize = if n > 0 && value.get_char(0) == '+' {
        1
    } else {
        0
    };
    let ghost digits = unsigned_digits(value@);
    assert(digits =~= value@.subrange(start as int, n as int));
    if start == n {
        return None;
    }
    let mut i: usize = start;
    while i < n
        invariant
            n == value@.len(),
            start <= i <= n,
            digits =~= value@.subrange(start as int, n as int),
            digits == unsigned_digits(value@),
            forall|j: int| start <= j < i ==> is_digit(#[trigger] value@[j]),
        decreases n - i,
    {
        let c = value.get_char(i);
        if !('0' <= c && c <= '9') {
            assert(digits[i - start] == c);
            assert(!is_digit(digits[i - start]));
            return None;
        }
        i = i + 1;
    }
    assert forall|j: int| 0 <= j < digits.len() implies is_digit(#[trigger] digits[j]) by {
        assert(digits[j] == value@[j + start]);
    }
    let mut total: usize = 0;
    let mut i: usize = start;
    while i < n
        invariant
            n == value@.len(),
            start <= i <= n,
            digits =~= value@.subrange(start as int, n as int),
            digits == unsigned_digits(value@),
            forall|j: int| 0 <= j < digits.len() ==> is_digit(#[trigger] digits[j]),
            total == decimal_number(digits.take(i - start)),
        decreases n - i,
    {
        let c = value.get_char(i);
        assert(digits[i - start] == c);
        let digit: usize = (c as u32 - '0' as u32) as usize;
        assert(digits.take(i - start + 1).drop_last() =~= digits.take(i - start));
        let next = match total.checked_mul(10) {
            Some(t) => t.checked_add(digit),
            None => None,
        };
        match next {
            Some(t) => {
                total = t;
            },
            None => {
                proof {
                    lemma_decimal_number_grows(digits, i - start + 1);
                    let t = digits.take(i - start + 1);
                    assert(t.last() == c);
                    assert(decimal_number(t) == decimal_number(t.drop_last()) * 10 + digit);
                }
                return None;
            },
        }
        i = i + 1;
    }
    assert(digits.take(n - start) =~= digits);
    Some(total)
}

/// The parts of an enumerator: the opening parenthesis where it is enclosed
/// in two, the value, and the closing punctuation.
pub open spec fn spec_enumerator_parts(m: Seq<char>) -> (Seq<char>, Seq<char>, Seq<char>) {
    if m.len() >= 2 && m[0] == '(' && m[m.len() - 1] == ')' {
        (seq!['('], m.subrange(1, m.len() - 1), seq![')'])
    } else {
        let split = if m.len() > 0 {
            m.len() - 1
        } else {
            0
        };
        (Seq::empty(), m.subrange(0, split), m.subrange(split, m.len() as int))
    }
}

/// Splits an enumerator into prefix, value and suffix: `(a)` into `(`, `a`
/// and `)`, and `a.` into an empty prefix, `a` and `.`.
pub fn enumerator_parts(marker: &str) -> (parts: (&str, &str, &str))
    ensures
        (parts.0@, parts.1@, parts.2@) == spec_enumerator_parts(marker@),
{
    let n = marker.unicode_len();
    proof {
        reveal_strlit("(");
        reveal_strlit(")");
        reveal_strlit("");
    }
    if n >= 2 && marker.get_char(0) == '(' && marker.get_char(n - 1) == ')' {
        ("(", marker.substring_char(1, n - 1), ")")
    } else {
        let split_at = if n > 0 {
            n - 1
        } else {
            0
        };
        ("", marker.substring_char(0, split_at), marker.substring_char(split_at, n))
    }
}

/// Whether every character of `s` satisfies `p`.
pub open spec fn all_chars(s: Seq<char>, p: spec_fn(char) -> bool) -> bool {
    forall|i: int| 0 <= i < s.len() ==> p(#[trigger] s[i])
}

pub open spec fn is_roman_small(c: char) -> bool {
    c == 'I' || c == 'V' || c == 'X' || c == 'L' || c == 'i' || c == 'v' || c == 'x' || c == 'l'
}

/// The numbering style of an enumerator value: digits (none at all
/// included) are arabic; a valid roman numeral made of `I`, `V`, `X` and `L`
/// alone is roman; other runs of capitals or of small letters are alphabetic.
pub open spec fn spec_enumerator_type(v: Seq<char>) -> Option<EnumMarkerType> {
    if all_chars(v, |c: char| is_digit(c)) {
        Some(EnumMarkerType::Arabic)
    } else if spec_roman_value(v) is Some && all_chars(v, |c: char| is_roman_small(c)) {
        if all_chars(v, |c: char| is_upper(c)) {
            Some(EnumMarkerType::Upperroman)
        } else {
            Some(EnumMarkerType::Lowerroman)
        }
    } else if all_chars(v, |c: char| is_upper(c)) {
        Some(EnumMarkerType::Upperalpha)
    } else if all_chars(v, |c: char| is_lower(c)) {
        Some(EnumMarkerType::Loweralpha)
    } else {
        None
    }
}

/// The error for an enumerator value that cannot be read.
pub open spec fn is_marker_error(e: ParserError, v: Seq<char>) -> bool {
    e matches ParserError::ListMarkerError { marker } && marker@ == v
}

fn all_chars_exec(value: &str, kind: u8) -> (r: bool)
    requires
        kind <= 4,
    ensures
        kind == 0 ==> r == all_chars(value@, |c: char| is_digit(c)),
        kind == 1 ==> r == all_chars(value@, |c: char| is_roman_small(c)),
        kind == 2 ==> r == all_chars(value@, |c: char| is_upper(c)),
        kind == 3 ==> r == all_chars(value@, |c: char| is_lower(c)),
{
    let n = value.unicode_len();
    let mut i: usize = 0;
    while i < n
        invariant
            n == value@.len(),
            i <= n,
            kind <= 4,
            forall|j: int| 0 <= j < i ==> {
                let c = #[trigger] value@[j];
                &&& (kind == 0 ==> is_digit(c))
                &&& (kind == 1 ==> is_roman_small(c))
                &&& (kind == 2 ==> is_upper(c))
                &&& (kind == 3 ==> is_lower(c))
            },
        decreases n - i,
    {
        let c = value.get_char(i);
        let ok = if kind == 0 {
            '0' <= c && c <= '9'
        } else if kind == 1 {
            c == 'I' || c == 'V' || c == 'X' || c == 'L' || c == 'i' || c == 'v' || c == 'x' || c == 'l'
        } else if kind == 2 {
            'A' <= c && c <= 'Z'
        } else if kind == 3 {
            'a' <= c && c <= 'z'
        } else {
            true
        };
        if !ok {
            return false;
        }
        i = i + 1;
    }
    true
}

fn marker_error(value: &str) -> (e: ParserError)
    ensures
        is_marker_error(e, value@),
{
    ParserError::ListMarkerError { marker: value.to_owned() }
}

/// The numbering style of an enumerator value; a list marker error naming the
/// value where it has none.
pub fn enumerator_type(value: &str) -> (r: Result<EnumMarkerType, ParserError>)
    ensures
        match r {
            Ok(t) => spec_enumerator_type(value@) == Some(t),
            Err(e) => spec_enumerator_type(value@) is None && is_marker_error(e, value@),
        },
{
    if all_chars_exec(value, 0) {
        Ok(EnumMarkerType::Arabic)
    } else if roman_value(value).is_some() && all_chars_exec(value, 1) {
        if all_chars_exec(value, 2) {
            Ok(EnumMarkerType::Upperroman)
        } else {
            Ok(EnumMarkerType::Lowerroman)
        }
    } else if all_chars_exec(value, 2) {
        Ok(EnumMarkerType::Upperalpha)
    } else if all_chars_exec(value, 3) {
        Ok(EnumMarkerType::Loweralpha)
    } else {
        Err(marker_error(value))
    }
}

/// The number that an enumerator value stands for in a numbering style.
pub open spec fn spec_enumerator_value(v: Seq<char>, t: EnumMarkerType) -> Option<usize> {
    match t {
        EnumMarkerType::Arabic => spec_parse_usize(v),
        EnumMarkerType::Upperalpha | EnumMarkerType::Loweralpha => spec_alphabetic_value(v),
        EnumMarkerType::Upperroman | EnumMarkerType::Lowerroman => spec_roman_value(v),
    }
}

/// The number that an enumerator value stands for in a numbering style; a
/// list marker error naming the value where it cannot be read in that style.
pub fn enumerator_value(value: &str, enumtype: EnumMarkerType) -> (r: Result<usize, ParserError>)
    ensures
        match r {
            Ok(n) => spec_enumerator_value(value@, enumtype) == Some(n),
            Err(e) => spec_enumerator_value(value@, enumtype) is None && is_marker_error(e, value@),
        },
{
    let converted_value = match enumtype {
        EnumMarkerType::Arabic => parse_usize(value),
        EnumMarkerType::Upperalpha | EnumMarkerType::Loweralpha => alphabetic_value(value),
        EnumMarkerType::Upperroman | EnumMarkerType::Lowerroman => roman_value(value),
    };
    match converted_value {
        Some(n) => Ok(n),
        None => Err(marker_error(value)),
    }
}

/// The style of a list item, given the style found for its value and the
/// style of the list so far: a single letter that reads both ways (such as
/// `I` or `C`) keeps the style of the list it continues.
pub open spec fn spec_resolve_enumerator_type(found: EnumMarkerType, existing: Option<EnumMarkerType>) -> EnumMarkerType {
    match (found, existing) {
        (EnumMarkerType::Upperroman, Some(EnumMarkerType::Upperalpha)) => EnumMarkerType::Upperalpha,
        (EnumMarkerType::Lowerroman, Some(EnumMarkerType::Loweralpha)) => EnumMarkerType::Loweralpha,
        (EnumMarkerType::Upperalpha, Some(EnumMarkerType::Upperroman)) => EnumMarkerType::Upperroman,
        (EnumMarkerType::Loweralpha, Some(EnumMarkerType::Lowerroman)) => EnumMarkerType::Lowerroman,
        _ => found,
    }
}

/// The style of a list item, given the style found for its value and the
/// style of the list so far.
pub fn resolve_enumerator_type(found: EnumMarkerType, existing: Option<EnumMarkerType>) -> (t: EnumMarkerType)
    ensures
        t == spec_resolve_enumerator_type(found, existing),
{
    match (found, existing) {
        (EnumMarkerType::Upperroman, Some(EnumMarkerType::Upperalpha)) => EnumMarkerType::Upperalpha,
        (EnumMarkerType::Lowerroman, Some(EnumMarkerType::Loweralpha)) => EnumMarkerType::Loweralpha,
        (EnumMarkerType::Upperalpha, Some(EnumMarkerType::Upperroman)) => EnumMarkerType::Upperroman,
        (EnumMarkerType::Loweralpha, Some(EnumMarkerType::Lowerroman)) => EnumMarkerType::Lowerroman,
        _ => found,
    }
}

} // verus!
