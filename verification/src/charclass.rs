//! Unicode character classes and case mapping, as the standard library
//! computes them.

use vstd::prelude::*;

verus! {

/// Whether `c` has the Unicode `White_Space` property: the controls
/// U+0009 to U+000D, the space, U+0085, the no-break space, U+1680, the
/// spaces U+2000 to U+200A, the line and paragraph separators, U+202F,
/// U+205F and the ideographic space.
pub open spec fn is_whitespace_char(c: char) -> bool {
    ||| ('\u{9}' <= c && c <= '\u{d}')
    ||| c == ' '
    ||| c == '\u{85}'
    ||| c == '\u{a0}'
    ||| c == '\u{1680}'
    ||| ('\u{2000}' <= c && c <= '\u{200a}')
    ||| c == '\u{2028}'
    ||| c == '\u{2029}'
    ||| c == '\u{202f}'
    ||| c == '\u{205f}'
    ||| c == '\u{3000}'
}

/// Whether `c` is an ASCII letter or digit.
pub open spec fn is_ascii_alphanumeric_char(c: char) -> bool {
    ('a' <= c && c <= 'z') || ('A' <= c && c <= 'Z') || ('0' <= c && c <= '9')
}

/// Whether a character beyond ASCII is alphanumeric (alphabetic or numeric
/// in the Unicode sense), as `char::is_alphanumeric` decides it.
pub uninterp spec fn is_unicode_alphanumeric(c: char) -> bool;

/// Whether `c` is alphanumeric: among ASCII characters exactly the letters
/// and digits (the only ASCII characters with the Alphabetic property or a
/// number category); beyond ASCII as the Unicode tables say.
pub open spec fn is_alphanumeric_char(c: char) -> bool {
    if c <= '\u{7f}' {
        is_ascii_alphanumeric_char(c)
    } else {
        is_unicode_alphanumeric(c)
    }
}

/// Whether every character of `s` is ASCII.
pub open spec fn all_ascii(s: Seq<char>) -> bool {
    forall|i: int| 0 <= i < s.len() ==> #[trigger] s[i] <= '\u{7f}'
}

/// The ASCII lowercase form of `c`: `A` to `Z` become `a` to `z`, every
/// other character stays.
pub open spec fn ascii_lower_char(c: char) -> char {
    if 'A' <= c && c <= 'Z' {
        ((c as int) + 32) as char
    } else {
        c
    }
}

/// The ASCII uppercase form of `c`: `a` to `z` become `A` to `Z`, every
/// other character stays.
pub open spec fn ascii_upper_char(c: char) -> char {
    if 'a' <= c && c <= 'z' {
        ((c as int) - 32) as char
    } else {
        c
    }
}

/// `s` with every character in ASCII lowercase form.
pub open spec fn ascii_lowercase(s: Seq<char>) -> Seq<char> {
    s.map_values(|c: char| ascii_lower_char(c))
}

/// `s` with every character in ASCII uppercase form.
pub open spec fn ascii_uppercase(s: Seq<char>) -> Seq<char> {
    s.map_values(|c: char| ascii_upper_char(c))
}

/// The lowercase form of a string that holds a character beyond ASCII, as
/// `str::to_lowercase` computes it.
pub uninterp spec fn unicode_lowercase_of(s: Seq<char>) -> Seq<char>;

/// The lowercase form of a string, as `str::to_lowercase` computes it: an
/// ASCII string is lowercased letter by letter (the Unicode lowercase
/// mapping of `A` to `Z` is `a` to `z`, and leaves other ASCII characters
/// alone); any other string as the Unicode case tables say.
pub open spec fn lowercase_of(s: Seq<char>) -> Seq<char> {
    if all_ascii(s) {
        ascii_lowercase(s)
    } else {
        unicode_lowercase_of(s)
    }
}

/// Whether `c` has the Unicode `White_Space` property, as
/// `char::is_whitespace` decides it.
pub fn is_whitespace(c: char) -> (res: bool)
    ensures
        res == is_whitespace_char(c),
{
    ('\u{9}' <= c && c <= '\u{d}') || c == ' ' || c == '\u{85}' || c == '\u{a0}' || c
        == '\u{1680}' || ('\u{2000}' <= c && c <= '\u{200a}') || c == '\u{2028}' || c
        == '\u{2029}' || c == '\u{202f}' || c == '\u{205f}' || c == '\u{3000}'
}

/// Calls `char::is_alphanumeric`. The contract states the ASCII case (the
/// letters and digits); beyond ASCII it only names the result, leaving the
/// Unicode tables unsaid.
#[verifier::external_body]
pub(crate) fn is_alphanumeric(c: char) -> (res: bool)
    ensures
        c <= '\u{7f}' ==> res == is_ascii_alphanumeric_char(c),
        c > '\u{7f}' ==> res == is_unicode_alphanumeric(c),
        res == is_alphanumeric_char(c),
{
    c.is_alphanumeric()
}

/// Calls `str::to_lowercase`. The contract states the ASCII case (letters
/// lowercased one by one); for a string with a character beyond ASCII it
/// only names the result, a function of the characters of `s`, leaving the
/// Unicode case tables unsaid.
#[verifier::external_body]
pub(crate) fn to_lowercase(s: &str) -> (res: String)
    ensures
        all_ascii(s@) ==> res@ == ascii_lowercase(s@),
        !all_ascii(s@) ==> res@ == unicode_lowercase_of(s@),
        res@ == lowercase_of(s@),
{
    s.to_lowercase()
}

/// Calls `String::push`, which appends one character.
#[verifier::external_body]
pub(crate) fn push_char(s: &mut String, c: char)
    ensures
        final(s)@ == old(s)@.push(c),
{
    s.push(c)
}

} // verus!
