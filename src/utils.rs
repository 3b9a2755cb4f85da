//! Scanning primitives: pure transformations of a string slice that split off
//! a prefix and hand back the rest.

use vstd::prelude::*;
use crate::error::Error;

verus! {

/// The characters a scan may accept.
#[derive(Debug, Clone, Copy, PartialEq, Eq, Structural)]
pub enum CharClass {
    /// A space or a newline.
    Whitespace,
    /// A space alone.
    Space,
    /// An ASCII decimal digit.
    Digit,
    /// A character that may continue an identifier: alphanumeric or `_`.
    IdentChar,
}

/// What `char::is_alphanumeric` answers for `c`.
pub uninterp spec fn alphanumeric(c: char) -> bool;

/// Relies on `char::is_alphanumeric`: whether `c` is alphabetic or numeric in Unicode.
#[verifier::external_body]
fn is_alphanumeric(c: char) -> (r: bool)
    ensures
        r == alphanumeric(c),
{
    c.is_alphanumeric()
}

pub open spec fn is_whitespace(c: char) -> bool {
    c == ' ' || c == '\n'
}

pub open spec fn is_digit(c: char) -> bool {
    '0' <= c && c <= '9'
}

pub open spec fn is_ident_start(c: char) -> bool {
    ('a' <= c && c <= 'z') || ('A' <= c && c <= 'Z')
}

pub open spec fn in_class(class: CharClass, c: char) -> bool {
    match class {
        CharClass::Whitespace => is_whitespace(c),
        CharClass::Space => c == ' ',
        CharClass::Digit => is_digit(c),
        CharClass::IdentChar => alphanumeric(c) || c == '_',
    }
}

/// Length of the longest prefix of `s` whose characters all lie in `class`.
pub open spec fn span(s: Seq<char>, class: CharClass) -> nat
    decreases s.len(),
{
    if s.len() > 0 && in_class(class, s[0]) {
        1 + span(s.drop_first(), class)
    } else {
        0
    }
}

/// What is left of `s` once its first `n` characters are taken off.
pub open spec fn after(s: Seq<char>, n: int) -> Seq<char> {
    if 0 <= n <= s.len() {
        s.subrange(n, s.len() as int)
    } else {
        Seq::empty()
    }
}

/// What is left of `s` after its leading spaces and newlines.
pub open spec fn skip_whitespace(s: Seq<char>) -> Seq<char> {
    after(s, span(s, CharClass::Whitespace) as int)
}

/// What is left of `s` after its leading spaces.
pub open spec fn skip_spaces(s: Seq<char>) -> Seq<char> {
    after(s, span(s, CharClass::Space) as int)
}

/// The rest of `s` after the literal `t`, if `s` starts with it.
pub open spec fn strip_literal(s: Seq<char>, t: Seq<char>) -> Option<Seq<char>> {
    if t.len() <= s.len() && s.subrange(0, t.len() as int) == t {
        Some(after(s, t.len() as int))
    } else {
        None
    }
}

pub proof fn lemma_strip_char(s: Seq<char>, c: char)
    ensures
        strip_literal(s, seq![c]) == if s.len() > 0 && s[0] == c {
            Some(after(s, 1))
        } else {
            None::<Seq<char>>
        },
{
    if s.len() > 0 {
        if s[0] == c {
            assert(s.subrange(0, 1) =~= seq![c]);
        } else {
            assert(s.subrange(0, 1)[0] != seq![c][0]);
        }
    }
}

/// Length of the identifier that `s` starts with, 0 if it starts with none:
/// an ASCII letter followed by identifier characters.
pub open spec fn ident_len(s: Seq<char>) -> nat {
    if s.len() > 0 && is_ident_start(s[0]) {
        span(s, CharClass::IdentChar)
    } else {
        0
    }
}

pub proof fn lemma_span_bound(s: Seq<char>, class: CharClass)
    ensures
        span(s, class) <= s.len(),
        forall|i: int| 0 <= i < span(s, class) ==> in_class(class, #[trigger] s[i]),
        span(s, class) < s.len() ==> !in_class(class, s[span(s, class) as int]),
    decreases s.len(),
{
    if s.len() > 0 && in_class(class, s[0]) {
        lemma_span_bound(s.drop_first(), class);
        assert forall|i: int| 0 <= i < span(s, class) implies in_class(class, #[trigger] s[i]) by {
            if i > 0 {
                assert(s[i] == s.drop_first()[i - 1]);
            }
        }
    }
}

/// A prefix of length `k` whose characters lie in `class`, followed by the end
/// of `s` or by a character outside it, is the span of `class`.
pub proof fn lemma_span_exact(s: Seq<char>, class: CharClass, k: int)
    requires
        0 <= k <= s.len(),
        forall|i: int| 0 <= i < k ==> in_class(class, #[trigger] s[i]),
        k < s.len() ==> !in_class(class, s[k]),
    ensures
        span(s, class) == k,
    decreases k,
{
    if k > 0 {
        assert(in_class(class, s[0]));
        assert forall|i: int| 0 <= i < k - 1 implies in_class(class, #[trigger] s.drop_first()[i]) by {
            assert(s.drop_first()[i] == s[i + 1]);
        }
        if k < s.len() {
            assert(s.drop_first()[k - 1] == s[k]);
        }
        lemma_span_exact(s.drop_first(), class, k - 1);
    }
}

/// Whether `c` lies in `class`.
pub fn char_in_class(class: CharClass, c: char) -> (r: bool)
    ensures
        r == in_class(class, c),
{
    match class {
        CharClass::Whitespace => c == ' ' || c == '\n',
        CharClass::Space => c == ' ',
        CharClass::Digit => '0' <= c && c <= '9',
        CharClass::IdentChar => is_alphanumeric(c) || c == '_',
    }
}

/// Splits `s` into the longest prefix whose characters lie in `class` and the
/// rest; returns `(rest, prefix)`. Never fails; the prefix may be empty.
pub fn take_while(s: &str, class: CharClass) -> (r: (&str, &str))
    ensures
        span(s@, class) <= s@.len(),
        r.1@ == s@.subrange(0, span(s@, class) as int),
        r.0@ == after(s@, span(s@, class) as int),
{
    let n = s.unicode_len();
    let mut i: usize = 0;
    while i < n && char_in_class(class, s.get_char(i))
        invariant
            n == s@.len(),
            0 <= i <= n,
            forall|j: int| 0 <= j < i ==> in_class(class, #[trigger] s@[j]),
        decreases n - i,
    {
        i = i + 1;
    }
    proof {
        lemma_span_exact(s@, class, i as int);
        lemma_span_bound(s@, class);
    }
    (s.substring_char(i, n), s.substring_char(0, i))
}

/// Like `take_while`, but fails when the prefix is empty.
pub fn take_while1(s: &str, class: CharClass) -> (r: Result<(&str, &str), Error>)
    ensures
        span(s@, class) <= s@.len(),
        span(s@, class) == 0 <==> r is Err,
        r matches Ok(p) ==> p.1@ == s@.subrange(0, span(s@, class) as int) && p.0@ == after(
            s@,
            span(s@, class) as int,
        ),
        r matches Err(e) ==> e == Error::Syntax,
{
    let (rest, taken) = take_while(s, class);
    if taken.unicode_len() == 0 {
        Err(Error::Syntax)
    } else {
        Ok((rest, taken))
    }
}

/// Splits off the leading digits of `s`; fails when there are none.
pub fn extract_digits(s: &str) -> (r: Result<(&str, &str), Error>)
    ensures
        span(s@, CharClass::Digit) == 0 <==> r is Err,
        r matches Ok(p) ==> p.1@ == s@.subrange(0, span(s@, CharClass::Digit) as int) && p.0@
            == after(s@, span(s@, CharClass::Digit) as int),
        r matches Err(e) ==> e == Error::Syntax,
{
    take_while1(s, CharClass::Digit)
}

/// Splits off the leading spaces and newlines of `s`, possibly none.
pub fn extract_whitespace(s: &str) -> (r: (&str, &str))
    ensures
        r.1@ == s@.subrange(0, span(s@, CharClass::Whitespace) as int),
        r.0@ == skip_whitespace(s@),
{
    take_while(s, CharClass::Whitespace)
}

/// Splits off the leading spaces and newlines of `s`; fails when there are none.
pub fn extract_whitespace1(s: &str) -> (r: Result<(&str, &str), Error>)
    ensures
        span(s@, CharClass::Whitespace) == 0 <==> r is Err,
        r matches Ok(p) ==> p.1@ == s@.subrange(0, span(s@, CharClass::Whitespace) as int)
            && p.0@ == skip_whitespace(s@),
        r matches Err(e) ==> e == Error::Syntax,
{
    take_while1(s, CharClass::Whitespace)
}

/// Strips the literal `to_extract` off the front of `s`; fails unless `s`
/// starts with it.
pub fn tag<'a>(s: &'a str, to_extract: &str) -> (r: Result<&'a str, Error>)
    ensures
        match r {
            Ok(rest) => strip_literal(s@, to_extract@) == Some(rest@),
            Err(e) => strip_literal(s@, to_extract@) is None && e == Error::Syntax,
        },
{
    let n = s.unicode_len();
    let m = to_extract.unicode_len();
    if m > n {
        return Err(Error::Syntax);
    }
    let mut i: usize = 0;
    while i < m
        invariant
            n == s@.len(),
            m == to_extract@.len(),
            m <= n,
            0 <= i <= m,
            forall|j: int| 0 <= j < i ==> s@[j] == to_extract@[j],
        decreases m - i,
    {
        if s.get_char(i) != to_extract.get_char(i) {
            assert(s@.subrange(0, m as int)[i as int] != to_extract@[i as int]);
            return Err(Error::Syntax);
        }
        i = i + 1;
    }
    assert(s@.subrange(0, m as int) =~= to_extract@);
    Ok(s.substring_char(m, n))
}

/// Splits off the identifier that `s` starts with: an ASCII letter followed by
/// alphanumeric characters and underscores.
pub fn extract_iden(s: &str) -> (r: Result<(&str, &str), Error>)
    ensures
        ident_len(s@) == 0 <==> r is Err,
        r matches Ok(p) ==> p.1@ == s@.subrange(0, ident_len(s@) as int) && p.0@ == after(
            s@,
            ident_len(s@) as int,
        ),
        r matches Err(e) ==> e == Error::Syntax,
{
    if s.unicode_len() > 0 {
        let c = s.get_char(0);
        if ('a' <= c && c <= 'z') || ('A' <= c && c <= 'Z') {
            return take_while1(s, CharClass::IdentChar);
        }
    }
    Err(Error::Syntax)
}

} // verus!
