//! Points in time in their RFC 3339 writing.

use vstd::prelude::*;
use crate::text::{digit_value, is_digit, to_chars};

verus! {

/// The number that the two digits at `i` write.
pub open spec fn two(s: Seq<char>, i: int) -> nat {
    digit_value(s[i]) * 10 + digit_value(s[i + 1])
}

/// Two digits stand at `i`.
pub open spec fn two_digits(s: Seq<char>, i: int) -> bool {
    is_digit(s[i]) && is_digit(s[i + 1])
}

/// The year that the four digits at the start write.
pub open spec fn year_of(s: Seq<char>) -> nat {
    two(s, 0) * 100 + two(s, 2)
}

/// Whether February has 29 days in `year`.
pub open spec fn is_leap(year: nat) -> bool {
    year % 4 == 0 && (year % 100 != 0 || year % 400 == 0)
}

/// The number of days of `month` in `year`; 0 for what is no month.
pub open spec fn days_in(year: nat, month: nat) -> nat {
    if month == 2 {
        if is_leap(year) {
            29
        } else {
            28
        }
    } else if month == 4 || month == 6 || month == 9 || month == 11 {
        30
    } else if 1 <= month <= 12 {
        31
    } else {
        0
    }
}

/// How many digits `s` starts with.
pub open spec fn leading_digits(s: Seq<char>) -> int
    decreases s.len(),
{
    if s.len() == 0 || !is_digit(s[0]) {
        0
    } else {
        1 + leading_digits(s.drop_first())
    }
}

/// `n` is [`leading_digits`]: digits before it, and no digit at it.
pub proof fn lemma_leading_digits(s: Seq<char>, n: int)
    requires
        0 <= n <= s.len(),
        forall|k: int| 0 <= k < n ==> is_digit(#[trigger] s[k]),
        n < s.len() ==> !is_digit(s[n]),
    ensures
        leading_digits(s) == n,
    decreases s.len(),
{
    if s.len() == 0 || n == 0 {
    } else {
        assert(is_digit(s[0]));
        let t = s.drop_first();
        assert forall|k: int| 0 <= k < n - 1 implies is_digit(#[trigger] t[k]) by {
            assert(t[k] == s[k + 1]);
        }
        lemma_leading_digits(t, n - 1);
    }
}

/// Whether `s` writes a date and a time of day: `yyyy-mm-ddThh:mm:ss`,
/// with a month of the year, a day of that month, and a time within the
/// day (a second may be the leap second 60).
pub open spec fn is_date_time(s: Seq<char>) -> bool {
    &&& s.len() == 19
    &&& two_digits(s, 0) && two_digits(s, 2) && s[4] == '-'
    &&& two_digits(s, 5) && s[7] == '-'
    &&& two_digits(s, 8) && (s[10] == 'T' || s[10] == 't')
    &&& two_digits(s, 11) && s[13] == ':'
    &&& two_digits(s, 14) && s[16] == ':'
    &&& two_digits(s, 17)
    &&& 1 <= two(s, 8) <= days_in(year_of(s), two(s, 5))
    &&& two(s, 11) <= 23
    &&& two(s, 14) <= 59
    &&& two(s, 17) <= 60
}

/// Whether `s` writes an offset from UTC: `Z`, or `+hh:mm` or `-hh:mm`.
pub open spec fn is_offset(s: Seq<char>) -> bool {
    ||| s.len() == 1 && (s[0] == 'Z' || s[0] == 'z')
    ||| {
        &&& s.len() == 6
        &&& (s[0] == '+' || s[0] == '-')
        &&& two_digits(s, 1) && s[3] == ':' && two_digits(s, 4)
        &&& two(s, 1) <= 23
        &&& two(s, 4) <= 59
    }
}

/// What follows the fraction of a second at the start of `s`, if `s`
/// starts with one: a `.` and at least one digit. Without a `.` at its
/// start that is `s` itself; after a `.` without a digit it is nothing.
pub open spec fn after_fraction(s: Seq<char>) -> Option<Seq<char>> {
    if s.len() > 0 && s[0] == '.' {
        if leading_digits(s.skip(1)) > 0 {
            Some(s.skip(1 + leading_digits(s.skip(1))))
        } else {
            None
        }
    } else {
        Some(s)
    }
}

/// Whether `s` writes a point in time as RFC 3339 has it: a date and a
/// time of day, a fraction of a second or none, and an offset from UTC.
pub open spec fn is_rfc3339(s: Seq<char>) -> bool {
    &&& s.len() >= 20
    &&& is_date_time(s.take(19))
    &&& after_fraction(s.skip(19)) is Some
    &&& is_offset(after_fraction(s.skip(19))->Some_0)
}

fn digit_at(v: &Vec<char>, i: usize) -> (r: Option<u32>)
    requires
        i < v.len(),
    ensures
        match r {
            Some(d) => is_digit(v@[i as int]) && d == digit_value(v@[i as int]) && d <= 9,
            None => !is_digit(v@[i as int]),
        },
{
    let c = v[i];
    if '0' <= c && c <= '9' {
        Some(c as u32 - '0' as u32)
    } else {
        None
    }
}

fn two_at(v: &Vec<char>, from: usize, i: usize) -> (r: Option<u32>)
    requires
        from + i + 1 < v.len(),
    ensures
        match r {
            Some(n) => two_digits(v@.skip(from as int), i as int) && n == two(
                v@.skip(from as int),
                i as int,
            ) && n <= 99,
            None => !two_digits(v@.skip(from as int), i as int),
        },
{
    match digit_at(v, from + i) {
        Some(a) => match digit_at(v, from + i + 1) {
            Some(b) => Some(a * 10 + b),
            None => None,
        },
        None => None,
    }
}

fn days_in_month(year: u32, month: u32) -> (r: u32)
    ensures
        r == days_in(year as nat, month as nat),
{
    if month == 2 {
        if year % 4 == 0 && (year % 100 != 0 || year % 400 == 0) {
            29
        } else {
            28
        }
    } else if month == 4 || month == 6 || month == 9 || month == 11 {
        30
    } else if 1 <= month && month <= 12 {
        31
    } else {
        0
    }
}

fn date_time(v: &Vec<char>) -> (r: bool)
    requires
        v.len() >= 19,
    ensures
        r == is_date_time(v@.take(19)),
{
    let ghost s = v@.take(19);
    assert(v@.skip(0) =~= v@);
    assert forall|k: int| 0 <= k < 19 implies s[k] == v@[k] by {}
    let (y1, y2, mo, d, h, mi, se) = match (
        two_at(v, 0, 0),
        two_at(v, 0, 2),
        two_at(v, 0, 5),
        two_at(v, 0, 8),
        two_at(v, 0, 11),
        two_at(v, 0, 14),
        two_at(v, 0, 17),
    ) {
        (Some(y1), Some(y2), Some(mo), Some(d), Some(h), Some(mi), Some(se)) => (
            y1,
            y2,
            mo,
            d,
            h,
            mi,
            se,
        ),
        _ => {
            return false;
        },
    };
    if v[4] != '-' || v[7] != '-' || (v[10] != 'T' && v[10] != 't') || v[13] != ':' || v[16]
        != ':' {
        return false;
    }
    let year = y1 * 100 + y2;
    1 <= d && d <= days_in_month(year, mo) && h <= 23 && mi <= 59 && se <= 60
}

fn offset(v: &Vec<char>, from: usize) -> (r: bool)
    requires
        from <= v.len(),
    ensures
        r == is_offset(v@.skip(from as int)),
{
    let ghost s = v@.skip(from as int);
    let n = v.len() - from;
    if n == 1 {
        assert(s[0] == v@[from as int]);
        v[from] == 'Z' || v[from] == 'z'
    } else if n == 6 {
        assert forall|k: int| 0 <= k < 6 implies s[k] == v@[from + k] by {}
        if v[from] != '+' && v[from] != '-' {
            return false;
        }
        if v[from + 3] != ':' {
            return false;
        }
        match (two_at(v, from, 1), two_at(v, from, 4)) {
            (Some(h), Some(m)) => h <= 23 && m <= 59,
            _ => false,
        }
    } else {
        false
    }
}

/// Whether `text` writes a point in time as RFC 3339 has it.
pub fn rfc3339(text: &str) -> (r: bool)
    ensures
        r == is_rfc3339(text@),
{
    let v = to_chars(text);
    if v.len() < 20 {
        return false;
    }
    if !date_time(&v) {
        return false;
    }
    let ghost rest = v@.skip(19);
    assert(rest[0] == v@[19]);
    if v[19] == '.' {
        let ghost tail = rest.skip(1);
        let mut i: usize = 20;
        while i < v.len() && '0' <= v[i] && v[i] <= '9'
            invariant
                20 <= i <= v.len(),
                tail == v@.skip(20),
                forall|k: int| 0 <= k < i - 20 ==> is_digit(#[trigger] tail[k]),
            decreases v.len() - i,
        {
            assert(tail[i - 20] == v@[i as int]);
            i += 1;
        }
        proof {
            assert(tail =~= v@.skip(20));
            if i < v.len() {
                assert(tail[i - 20] == v@[i as int]);
            }
            lemma_leading_digits(tail, i - 20);
            assert(rest.skip(1 + (i - 20)) =~= v@.skip(i as int));
        }
        if i == 20 {
            return false;
        }
        offset(&v, i)
    } else {
        offset(&v, 19)
    }
}

/// The first second of 1970 in UTC, as it is written, is a point in time.
pub proof fn lemma_epoch_is_rfc3339()
    ensures
        is_rfc3339("1970-01-01T00:00:00Z"@),
{
    reveal_strlit("1970-01-01T00:00:00Z");
    let s = "1970-01-01T00:00:00Z"@;
    let head = s.take(19);
    assert(s.len() == 20);
    assert forall|k: int| 0 <= k < 19 implies head[k] == s[k] by {}
    assert(two(head, 0) == 19 && two(head, 2) == 70);
    assert(two(head, 5) == 1 && two(head, 8) == 1);
    assert(two(head, 11) == 0 && two(head, 14) == 0 && two(head, 17) == 0);
    assert(is_date_time(head));
    let rest = s.skip(19);
    assert(rest.len() == 1 && rest[0] == 'Z');
    assert(after_fraction(rest) == Some(rest));
}

} // verus!
