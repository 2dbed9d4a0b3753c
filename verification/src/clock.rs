//! Play times written as clock text (`m:ss` and `h:mm:ss`).

use vstd::prelude::*;
use crate::charclass::push_char;

verus! {

/// The decimal digit for `d`, which is below ten.
pub open spec fn digit_char(d: int) -> char {
    if d == 0 {
        '0'
    } else if d == 1 {
        '1'
    } else if d == 2 {
        '2'
    } else if d == 3 {
        '3'
    } else if d == 4 {
        '4'
    } else if d == 5 {
        '5'
    } else if d == 6 {
        '6'
    } else if d == 7 {
        '7'
    } else if d == 8 {
        '8'
    } else {
        '9'
    }
}

/// `n` in decimal, without leading zeros.
pub open spec fn decimal(n: nat) -> Seq<char>
    decreases n,
{
    if n < 10 {
        seq![digit_char(n as int)]
    } else {
        decimal(n / 10).push(digit_char((n % 10) as int))
    }
}

/// `n` in decimal, padded with a zero to at least two digits.
pub open spec fn two_digits(n: nat) -> Seq<char> {
    if n < 10 {
        seq!['0', digit_char(n as int)]
    } else {
        decimal(n)
    }
}

/// A play time of `s` seconds as `minutes:ss`.
pub open spec fn track_clock(s: nat) -> Seq<char> {
    decimal(s / 60) + seq![':'] + two_digits(s % 60)
}

/// A play time of `s` seconds as `h:mm:ss`, or as `m:ss` below an hour.
pub open spec fn queue_clock(s: nat) -> Seq<char> {
    let hours = s / 3600;
    let minutes = (s % 3600) / 60;
    let secs = s % 60;
    if hours > 0 {
        decimal(hours) + seq![':'] + two_digits(minutes) + seq![':'] + two_digits(secs)
    } else {
        decimal(minutes) + seq![':'] + two_digits(secs)
    }
}

fn digit(d: u64) -> (c: char)
    requires
        d < 10,
    ensures
        c == digit_char(d as int),
{
    if d == 0 {
        '0'
    } else if d == 1 {
        '1'
    } else if d == 2 {
        '2'
    } else if d == 3 {
        '3'
    } else if d == 4 {
        '4'
    } else if d == 5 {
        '5'
    } else if d == 6 {
        '6'
    } else if d == 7 {
        '7'
    } else if d == 8 {
        '8'
    } else {
        '9'
    }
}

fn push_decimal(s: &mut String, n: u64)
    ensures
        final(s)@ == old(s)@ + decimal(n as nat),
    decreases n,
{
    if n >= 10 {
        push_decimal(s, n / 10);
    }
    push_char(s, digit(n % 10));
    assert(s@ =~= old(s)@ + decimal(n as nat));
}

fn push_two_digits(s: &mut String, n: u64)
    ensures
        final(s)@ == old(s)@ + two_digits(n as nat),
{
    if n < 10 {
        push_char(s, '0');
        push_char(s, digit(n));
        assert(s@ =~= old(s)@ + two_digits(n as nat));
    } else {
        push_decimal(s, n);
    }
}

/// A track's play time as `minutes:ss`.
pub fn format_track_duration(seconds: u64) -> (res: String)
    ensures
        res@ == track_clock(seconds as nat),
{
    let mut s = String::new();
    push_decimal(&mut s, seconds / 60);
    push_char(&mut s, ':');
    push_two_digits(&mut s, seconds % 60);
    assert(s@ =~= track_clock(seconds as nat));
    s
}

/// The play time of the rest of the queue as `h:mm:ss`, or as `m:ss` below
/// an hour.
pub fn format_queue_duration(seconds: u64) -> (res: String)
    ensures
        res@ == queue_clock(seconds as nat),
{
    let hours = seconds / 3600;
    let minutes = (seconds % 3600) / 60;
    let secs = seconds % 60;
    let mut s = String::new();
    if hours > 0 {
        push_decimal(&mut s, hours);
        push_char(&mut s, ':');
        push_two_digits(&mut s, minutes);
        push_char(&mut s, ':');
        push_two_digits(&mut s, secs);
    } else {
        push_decimal(&mut s, minutes);
        push_char(&mut s, ':');
        push_two_digits(&mut s, secs);
    }
    assert(s@ =~= queue_clock(seconds as nat));
    s
}

/// Below an hour, the queue's clock text is the track clock text.
pub proof fn law_queue_clock_below_an_hour(s: nat)
    requires
        s < 3600,
    ensures
        queue_clock(s) == track_clock(s),
{
    assert(s / 3600 == 0);
    assert(s % 3600 == s);
}

} // verus!

verus! {

/// Whether every character of `s` is a decimal digit `0` to `9`.
pub open spec fn all_digits(s: Seq<char>) -> bool {
    forall|i: int| 0 <= i < s.len() ==> '0' <= #[trigger] s[i] && s[i] <= '9'
}

/// The number that the decimal numeral `s` denotes, reading each character
/// by its distance from `0`.
pub open spec fn numeral_value(s: Seq<char>) -> int
    decreases s.len(),
{
    if s.len() == 0 {
        0
    } else {
        numeral_value(s.drop_last()) * 10 + ((s.last() as int) - ('0' as int))
    }
}

proof fn lemma_digit_value(d: int)
    requires
        0 <= d < 10,
    ensures
        '0' <= digit_char(d) && digit_char(d) <= '9',
        (digit_char(d) as int) - ('0' as int) == d,
{
    assert(('0' as int) == 48);
    assert(('9' as int) == 57);
    if d == 0 {
    } else if d == 1 {
        assert(('1' as int) == 49);
    } else if d == 2 {
        assert(('2' as int) == 50);
    } else if d == 3 {
        assert(('3' as int) == 51);
    } else if d == 4 {
        assert(('4' as int) == 52);
    } else if d == 5 {
        assert(('5' as int) == 53);
    } else if d == 6 {
        assert(('6' as int) == 54);
    } else if d == 7 {
        assert(('7' as int) == 55);
    } else if d == 8 {
        assert(('8' as int) == 56);
    }
}

/// `n` written in decimal is a non-empty string of digits that reads back
/// as `n`.
pub proof fn law_decimal_reads_back(n: nat)
    ensures
        decimal(n).len() > 0,
        all_digits(decimal(n)),
        numeral_value(decimal(n)) == n,
    decreases n,
{
    lemma_digit_value((n % 10) as int);
    if n >= 10 {
        law_decimal_reads_back(n / 10);
        let d = decimal(n);
        let rest = decimal(n / 10);
        assert(d.drop_last() =~= rest);
        assert forall|i: int| 0 <= i < d.len() implies '0' <= #[trigger] d[i] && d[i] <= '9' by {
            if i < rest.len() {
                assert(d[i] == rest[i]);
            }
        }
        assert(d.last() == digit_char((n % 10) as int));
        assert(numeral_value(d) == numeral_value(rest) * 10 + ((d.last() as int) - ('0' as int)));
        assert(numeral_value(d) == (n / 10) * 10 + n % 10);
        assert(n == (n / 10) * 10 + n % 10);
    } else {
        let d = decimal(n);
        assert(d.drop_last() =~= Seq::<char>::empty());
        assert(numeral_value(Seq::<char>::empty()) == 0);
        assert(d.last() == digit_char(n as int));
        assert(numeral_value(d) == numeral_value(d.drop_last()) * 10 + ((d.last() as int) - ('0' as int)));
    }
}

/// A number below a hundred written with two digits reads back as itself.
pub proof fn law_two_digits_read_back(n: nat)
    requires
        n < 100,
    ensures
        two_digits(n).len() == 2,
        all_digits(two_digits(n)),
        numeral_value(two_digits(n)) == n,
{
    law_decimal_reads_back(n);
    if n < 10 {
        lemma_digit_value(n as int);
        lemma_digit_value(0);
        let t = two_digits(n);
        assert(t.drop_last() =~= seq!['0']);
        assert(seq!['0'].drop_last() =~= Seq::<char>::empty());
        assert(numeral_value(Seq::<char>::empty()) == 0);
        assert(digit_char(0) == '0');
        assert(numeral_value(seq!['0']) == numeral_value(seq!['0'].drop_last()) * 10 + (('0' as int) - ('0' as int)));
        assert(numeral_value(seq!['0']) == 0);
        assert(t.last() == digit_char(n as int));
        assert(numeral_value(t) == numeral_value(t.drop_last()) * 10 + ((t.last() as int) - ('0' as int)));
    } else {
        law_decimal_reads_back(n / 10);
        assert(n / 10 < 10);
        assert(decimal(n).len() == decimal(n / 10).len() + 1);
    }
}

/// The track clock text is a minutes field, `:`, and a two-digit seconds
/// field, which read back as the whole minutes and the remaining seconds.
pub proof fn law_track_clock_reads_back(s: nat)
    ensures
        exists|m: Seq<char>, sec: Seq<char>|
            track_clock(s) == m + seq![':'] + sec && m.len() > 0 && all_digits(m) && all_digits(
                sec,
            ) && sec.len() == 2 && numeral_value(m) == s / 60 && numeral_value(sec) == s % 60,
{
    law_decimal_reads_back(s / 60);
    law_two_digits_read_back(s % 60);
    let m = decimal(s / 60);
    let sec = two_digits(s % 60);
    assert(track_clock(s) == m + seq![':'] + sec);
}

/// The queue clock text reads back as the play time: from an hour on it is
/// hours, `:`, two-digit minutes, `:`, two-digit seconds; below an hour it is
/// minutes, `:`, two-digit seconds.
pub proof fn law_queue_clock_reads_back(s: nat)
    ensures
        s >= 3600 ==> exists|h: Seq<char>, m: Seq<char>, sec: Seq<char>|
            queue_clock(s) == h + seq![':'] + m + seq![':'] + sec && h.len() > 0 && all_digits(h)
                && all_digits(m) && all_digits(sec) && m.len() == 2 && sec.len() == 2
                && numeral_value(h) == s / 3600 && numeral_value(m) == (s % 3600) / 60
                && numeral_value(sec) == s % 60,
        s < 3600 ==> exists|m: Seq<char>, sec: Seq<char>|
            queue_clock(s) == m + seq![':'] + sec && m.len() > 0 && all_digits(m) && all_digits(
                sec,
            ) && sec.len() == 2 && numeral_value(m) == s / 60 && numeral_value(sec) == s % 60,
{
    law_decimal_reads_back(s / 3600);
    law_decimal_reads_back((s % 3600) / 60);
    law_two_digits_read_back((s % 3600) / 60);
    law_two_digits_read_back(s % 60);
    if s >= 3600 {
        let h = decimal(s / 3600);
        let m = two_digits((s % 3600) / 60);
        let sec = two_digits(s % 60);
        assert(queue_clock(s) == h + seq![':'] + m + seq![':'] + sec);
    } else {
        assert(s % 3600 == s);
        let m = decimal(s / 60);
        let sec = two_digits(s % 60);
        assert(queue_clock(s) == m + seq![':'] + sec);
    }
}

} // verus!
