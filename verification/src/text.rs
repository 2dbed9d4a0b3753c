//! Character-level string helpers shared by the rest of the library.

use vstd::prelude::*;
use crate::charclass::{
    all_ascii, ascii_upper_char, ascii_uppercase, is_whitespace, is_whitespace_char,
};

verus! {

/// `needle` occurs in `hay` starting at position `i`.
pub open spec fn occurs_at(hay: Seq<char>, needle: Seq<char>, i: int) -> bool {
    &&& 0 <= i
    &&& i + needle.len() <= hay.len()
    &&& hay.subrange(i, i + needle.len()) == needle
}

/// `needle` occurs somewhere in `hay` (the empty needle occurs everywhere).
pub open spec fn has_substring(hay: Seq<char>, needle: Seq<char>) -> bool {
    exists|i: int| occurs_at(hay, needle, i)
}

/// `prefix` is a prefix of `s`.
pub open spec fn has_prefix(s: Seq<char>, prefix: Seq<char>) -> bool {
    prefix.len() <= s.len() && s.subrange(0, prefix.len() as int) == prefix
}

/// Whether two strings hold the same characters.
pub fn same_text(a: &str, b: &str) -> (res: bool)
    ensures
        res == (a@ == b@),
{
    let n = a.unicode_len();
    let m = b.unicode_len();
    if n != m {
        return false;
    }
    let mut i: usize = 0;
    while i < n
        invariant
            n == a@.len(),
            m == b@.len(),
            n == m,
            i <= n,
            forall|j: int| 0 <= j < i ==> a@[j] == b@[j],
        decreases n - i,
    {
        if a.get_char(i) != b.get_char(i) {
            return false;
        }
        i = i + 1;
    }
    assert(a@ =~= b@);
    true
}

/// Whether `needle` occurs at character position `start` of `hay`.
fn matches_at(hay: &str, needle: &str, start: usize) -> (res: bool)
    requires
        start + needle@.len() <= hay@.len(),
        hay@.len() <= usize::MAX,
    ensures
        res == occurs_at(hay@, needle@, start as int),
{
    let m = needle.unicode_len();
    let mut j: usize = 0;
    while j < m
        invariant
            m == needle@.len(),
            start + m <= hay@.len(),
            hay@.len() <= usize::MAX,
            j <= m,
            forall|k: int| 0 <= k < j ==> hay@[start + k] == needle@[k],
        decreases m - j,
    {
        if hay.get_char(start + j) != needle.get_char(j) {
            assert(hay@.subrange(start as int, start + m)[j as int] != needle@[j as int]);
            return false;
        }
        j = j + 1;
    }
    assert(hay@.subrange(start as int, start + m) =~= needle@);
    true
}

/// Whether `needle` occurs in `hay`, as `str::contains` with a string pattern.
pub fn contains_text(hay: &str, needle: &str) -> (res: bool)
    ensures
        res == has_substring(hay@, needle@),
{
    let n = hay.unicode_len();
    let m = needle.unicode_len();
    if m > n {
        assert forall|i: int| !occurs_at(hay@, needle@, i) by {}
        return false;
    }
    let last = n - m;
    let mut i: usize = 0;
    loop
        invariant
            n == hay@.len(),
            m == needle@.len(),
            last == n - m,
            i <= last,
            forall|k: int| 0 <= k < i ==> !occurs_at(hay@, needle@, k),
        ensures
            forall|k: int| 0 <= k <= last ==> !occurs_at(hay@, needle@, k),
        decreases last - i,
    {
        if matches_at(hay, needle, i) {
            return true;
        }
        if i == last {
            break;
        }
        i = i + 1;
    }
    assert forall|k: int| !occurs_at(hay@, needle@, k) by {
        if 0 <= k <= last {
        }
    }
    false
}

} // verus!

verus! {

/// `s` with leading white space removed.
pub open spec fn trim_front(s: Seq<char>) -> Seq<char>
    decreases s.len(),
{
    if s.len() > 0 && is_whitespace_char(s[0]) {
        trim_front(s.drop_first())
    } else {
        s
    }
}

/// `s` with trailing white space removed.
pub open spec fn trim_back(s: Seq<char>) -> Seq<char>
    decreases s.len(),
{
    if s.len() > 0 && is_whitespace_char(s.last()) {
        trim_back(s.drop_last())
    } else {
        s
    }
}

/// `s` with leading and trailing white space removed, as `str::trim` does.
pub open spec fn trimmed(s: Seq<char>) -> Seq<char> {
    trim_back(trim_front(s))
}

proof fn lemma_trim_front_at(s: Seq<char>, i: int)
    requires
        0 <= i <= s.len(),
        forall|k: int| 0 <= k < i ==> is_whitespace_char(s[k]),
        i == s.len() || !is_whitespace_char(s[i]),
    ensures
        trim_front(s) == s.subrange(i, s.len() as int),
    decreases i,
{
    if i == 0 {
        assert(s.subrange(0, s.len() as int) =~= s);
    } else {
        let t = s.drop_first();
        assert forall|k: int| 0 <= k < i - 1 implies is_whitespace_char(t[k]) by {
            assert(t[k] == s[k + 1]);
        }
        if i - 1 < t.len() {
            assert(t[i - 1] == s[i]);
        }
        lemma_trim_front_at(t, i - 1);
        assert(t.subrange(i - 1, t.len() as int) =~= s.subrange(i, s.len() as int));
    }
}

proof fn lemma_trim_back_at(s: Seq<char>, j: int)
    requires
        0 <= j <= s.len(),
        forall|k: int| j <= k < s.len() ==> is_whitespace_char(s[k]),
        j == 0 || !is_whitespace_char(s[j - 1]),
    ensures
        trim_back(s) == s.subrange(0, j),
    decreases s.len() - j,
{
    if j == s.len() {
        assert(s.subrange(0, j) =~= s);
    } else {
        let t = s.drop_last();
        assert forall|k: int| j <= k < t.len() implies is_whitespace_char(t[k]) by {
            assert(t[k] == s[k]);
        }
        if j > 0 {
            assert(t[j - 1] == s[j - 1]);
        }
        lemma_trim_back_at(t, j);
        assert(t.subrange(0, j) =~= s.subrange(0, j));
    }
}

/// `s` without its leading and trailing white space, as `str::trim` returns it.
pub fn trim_text(s: &str) -> (res: &str)
    ensures
        res@ == trimmed(s@),
{
    let n = s.unicode_len();
    let mut i: usize = 0;
    while i < n && is_whitespace(s.get_char(i))
        invariant
            n == s@.len(),
            i <= n,
            forall|k: int| 0 <= k < i ==> is_whitespace_char(s@[k]),
        decreases n - i,
    {
        i = i + 1;
    }
    proof {
        lemma_trim_front_at(s@, i as int);
    }
    let ghost front = s@.subrange(i as int, n as int);
    let mut j: usize = n;
    while j > i && is_whitespace(s.get_char(j - 1))
        invariant
            n == s@.len(),
            i <= j <= n,
            front == s@.subrange(i as int, n as int),
            forall|k: int| j <= k < n ==> is_whitespace_char(s@[k]),
        decreases j,
    {
        j = j - 1;
    }
    proof {
        assert forall|k: int| j - i <= k < front.len() implies is_whitespace_char(front[k]) by {
            assert(front[k] == s@[k + i]);
        }
        if j > i {
            assert(front[j - i - 1] == s@[j - 1]);
        }
        lemma_trim_back_at(front, j - i);
        assert(front.subrange(0, j - i) =~= s@.subrange(i as int, j as int));
    }
    s.substring_char(i, j)
}

} // verus!

verus! {

proof fn lemma_trim_front_starts_solid(s: Seq<char>)
    ensures
        trim_front(s).len() == 0 || !is_whitespace_char(trim_front(s)[0]),
    decreases s.len(),
{
    if s.len() > 0 && is_whitespace_char(s[0]) {
        lemma_trim_front_starts_solid(s.drop_first());
    }
}

proof fn lemma_trim_back_ends_solid(s: Seq<char>)
    ensures
        trim_back(s).len() == 0 || !is_whitespace_char(trim_back(s).last()),
    decreases s.len(),
{
    if s.len() > 0 && is_whitespace_char(s.last()) {
        lemma_trim_back_ends_solid(s.drop_last());
    }
}

proof fn lemma_trim_back_keeps_start(s: Seq<char>)
    requires
        s.len() > 0,
        !is_whitespace_char(s[0]),
    ensures
        trim_back(s).len() > 0,
        trim_back(s)[0] == s[0],
    decreases s.len(),
{
    if is_whitespace_char(s.last()) {
        assert(s.len() > 1);
        assert(s.drop_last()[0] == s[0]);
        lemma_trim_back_keeps_start(s.drop_last());
    }
}

/// Trimming a trimmed string changes nothing.
pub proof fn law_trim_idempotent(s: Seq<char>)
    ensures
        trimmed(trimmed(s)) == trimmed(s),
{
    let t = trimmed(s);
    lemma_trim_front_starts_solid(s);
    let f = trim_front(s);
    if f.len() > 0 {
        lemma_trim_back_keeps_start(f);
    }
    lemma_trim_back_ends_solid(f);
    assert(trim_front(t) == t);
    assert(trim_back(t) == t);
}

} // verus!

verus! {

proof fn lemma_upper_keeps_whitespace(c: char)
    ensures
        is_whitespace_char(ascii_upper_char(c)) == is_whitespace_char(c),
        ascii_upper_char(c) <= '\u{7f}' <==> c <= '\u{7f}',
{
}

/// Trimming and ASCII uppercasing can be done in either order.
pub proof fn lemma_trim_front_upper(s: Seq<char>)
    ensures
        trim_front(ascii_uppercase(s)) == ascii_uppercase(trim_front(s)),
    decreases s.len(),
{
    let u = ascii_uppercase(s);
    if s.len() > 0 {
        lemma_upper_keeps_whitespace(s[0]);
        assert(u[0] == ascii_upper_char(s[0]));
        if is_whitespace_char(s[0]) {
            assert(u.drop_first() =~= ascii_uppercase(s.drop_first()));
            lemma_trim_front_upper(s.drop_first());
        }
    }
}

/// Trimming and ASCII uppercasing can be done in either order.
pub proof fn lemma_trim_back_upper(s: Seq<char>)
    ensures
        trim_back(ascii_uppercase(s)) == ascii_uppercase(trim_back(s)),
    decreases s.len(),
{
    let u = ascii_uppercase(s);
    if s.len() > 0 {
        lemma_upper_keeps_whitespace(s.last());
        assert(u.last() == ascii_upper_char(s.last()));
        if is_whitespace_char(s.last()) {
            assert(u.drop_last() =~= ascii_uppercase(s.drop_last()));
            lemma_trim_back_upper(s.drop_last());
        }
    }
}

/// Trimming an ASCII string leaves an ASCII string.
pub proof fn lemma_trimmed_ascii(s: Seq<char>)
    requires
        all_ascii(s),
    ensures
        all_ascii(trimmed(s)),
{
    lemma_trim_front_ascii(s);
    lemma_trim_back_ascii(trim_front(s));
}

proof fn lemma_trim_front_ascii(s: Seq<char>)
    requires
        all_ascii(s),
    ensures
        all_ascii(trim_front(s)),
    decreases s.len(),
{
    if s.len() > 0 && is_whitespace_char(s[0]) {
        let d = s.drop_first();
        assert forall|i: int| 0 <= i < d.len() implies #[trigger] d[i] <= '\u{7f}' by {
            assert(d[i] == s[i + 1]);
        }
        lemma_trim_front_ascii(d);
    }
}

proof fn lemma_trim_back_ascii(s: Seq<char>)
    requires
        all_ascii(s),
    ensures
        all_ascii(trim_back(s)),
    decreases s.len(),
{
    if s.len() > 0 && is_whitespace_char(s.last()) {
        let d = s.drop_last();
        assert forall|i: int| 0 <= i < d.len() implies #[trigger] d[i] <= '\u{7f}' by {
            assert(d[i] == s[i]);
        }
        lemma_trim_back_ascii(d);
    }
}

} // verus!
