//! Creation stamps, read as seconds since the Unix epoch: presets saved now
//! carry the seconds in decimal, older manifests an ISO-8601 date.

use vstd::prelude::*;
use crate::text::chars_of;

verus! {

/// An ASCII decimal digit.
pub open spec fn is_digit(c: char) -> bool {
    48 <= (c as u32) && (c as u32) <= 57
}

/// Every character of `s` is an ASCII decimal digit.
pub open spec fn all_digits(s: Seq<char>) -> bool {
    forall|i: int| 0 <= i < s.len() ==> is_digit(#[trigger] s[i])
}

/// The number that the digits of `s` write in decimal.
pub open spec fn digits_value(s: Seq<char>) -> int
    decreases s.len(),
{
    if s.len() == 0 {
        0
    } else {
        digits_value(s.drop_last()) * 10 + ((s.last() as u32) - 48)
    }
}

/// Ten to the power `n`.
pub open spec fn pow10(n: nat) -> nat
    decreases n,
{
    if n == 0 {
        1
    } else {
        10 * pow10((n - 1) as nat)
    }
}

/// The number written by the digits of `s` from `from` up to `to`.
pub open spec fn field(s: Seq<char>, from: int, to: int) -> int {
    digits_value(s.subrange(from, to))
}

/// The characters of `s` from `from` up to `to` are digits.
pub open spec fn digits_at(s: Seq<char>, from: int, to: int) -> bool {
    all_digits(s.subrange(from, to))
}

/// The number of digits `s` starts with.
pub open spec fn leading_digits(s: Seq<char>) -> nat
    decreases s.len(),
{
    if s.len() > 0 && is_digit(s[0]) {
        1 + leading_digits(s.drop_first())
    } else {
        0
    }
}

/// The stamp has a fraction of a second: a `.` right after the seconds.
pub open spec fn has_fraction(s: Seq<char>) -> bool {
    s.len() > 19 && s[19] == '.'
}

/// Where the time of day, fraction included, ends and the zone begins.
pub open spec fn zone_start(s: Seq<char>) -> int {
    if has_fraction(s) {
        20 + leading_digits(s.skip(20)) as int
    } else {
        19
    }
}

/// The milliseconds that the fraction of a second names (its first three
/// digits; further ones are finer than the order needs).
pub open spec fn fraction_millis(s: Seq<char>) -> int {
    if has_fraction(s) {
        let k: nat = if leading_digits(s.skip(20)) < 3 {
            leading_digits(s.skip(20))
        } else {
            3
        };
        field(s, 20, 20 + k as int) * pow10((3 - k) as nat)
    } else {
        0
    }
}

/// A zone designator: none (read as UTC), `Z`, or an offset `+HH:MM` or
/// `-HH:MM`.
pub open spec fn is_zone(z: Seq<char>) -> bool {
    ||| z.len() == 0
    ||| (z.len() == 1 && (z[0] == 'Z' || z[0] == 'z'))
    ||| (z.len() == 6 && (z[0] == '+' || z[0] == '-') && digits_at(z, 1, 3) && z[3] == ':' && digits_at(z, 4, 6)
        && field(z, 1, 3) < 24 && field(z, 4, 6) < 60)
}

/// The seconds a zone designator puts local time ahead of UTC.
pub open spec fn zone_offset(z: Seq<char>) -> int {
    if z.len() == 6 {
        let m = field(z, 1, 3) * 3600 + field(z, 4, 6) * 60;
        if z[0] == '-' {
            -m
        } else {
            m
        }
    } else {
        0
    }
}

/// `s` is an ISO-8601 stamp: a date `YYYY-MM-DD` (year from 1), alone or
/// followed by `T` (or `t`, or a space), a time `HH:MM:SS`, an optional
/// fraction of a second and an optional zone (see [`is_zone`]).
pub open spec fn is_iso_stamp(s: Seq<char>) -> bool {
    &&& s.len() >= 10
    &&& digits_at(s, 0, 4) && s[4] == '-' && digits_at(s, 5, 7) && s[7] == '-' && digits_at(s, 8, 10)
    &&& 1 <= field(s, 0, 4) && 1 <= field(s, 5, 7) <= 12 && 1 <= field(s, 8, 10) <= 31
    &&& s.len() > 10 ==> {
        &&& s.len() >= 19
        &&& s[10] == 'T' || s[10] == 't' || s[10] == ' '
        &&& digits_at(s, 11, 13) && s[13] == ':' && digits_at(s, 14, 16) && s[16] == ':' && digits_at(s, 17, 19)
        &&& field(s, 11, 13) < 24 && field(s, 14, 16) < 60 && field(s, 17, 19) < 60
        &&& has_fraction(s) ==> leading_digits(s.skip(20)) >= 1
        &&& is_zone(s.skip(zone_start(s)))
    }
}

/// The number of days from 1970-01-01 to the day `d` of month `m` of year
/// `y` of the proleptic Gregorian calendar (negative before it), counted by
/// 400-year eras of 146097 days, each era's years starting in March.
pub open spec fn days_from_civil(y: int, m: int, d: int) -> int {
    let yy = if m <= 2 {
        y - 1
    } else {
        y
    };
    let era = yy / 400;
    let yoe = yy - era * 400;
    let mp = if m > 2 {
        m - 3
    } else {
        m + 9
    };
    let doy = (153 * mp + 2) / 5 + d - 1;
    let doe = yoe * 365 + yoe / 4 - yoe / 100 + doy;
    era * 146097 + doe - 719468
}

/// The milliseconds since the epoch that an ISO-8601 stamp names, in UTC.
pub open spec fn iso_millis(s: Seq<char>) -> int {
    let days = days_from_civil(field(s, 0, 4), field(s, 5, 7), field(s, 8, 10));
    if s.len() == 10 {
        days * 86400000
    } else {
        (days * 86400 + field(s, 11, 13) * 3600 + field(s, 14, 16) * 60 + field(s, 17, 19) - zone_offset(
            s.skip(zone_start(s)),
        )) * 1000 + fraction_millis(s)
    }
}

/// The milliseconds since the epoch that a creation stamp names: decimal
/// seconds (one to fifteen digits) or an ISO-8601 stamp; none for anything
/// else.
pub open spec fn stamp_millis(s: Seq<char>) -> Option<int> {
    if 1 <= s.len() <= 15 && all_digits(s) {
        Some(digits_value(s) * 1000)
    } else if is_iso_stamp(s) {
        Some(iso_millis(s))
    } else {
        None
    }
}

/// The value of the digits of `cs` from `from` up to `to`, none when one of
/// them is not a digit.
fn digits_in(cs: &Vec<char>, from: usize, to: usize) -> (r: Option<u64>)
    requires
        from <= to <= cs.len(),
        to - from <= 18,
    ensures
        match r {
            Some(v) => digits_at(cs@, from as int, to as int) && v == field(cs@, from as int, to as int) && v
                < pow10((to - from) as nat),
            None => !digits_at(cs@, from as int, to as int),
        },
{
    proof {
        reveal_with_fuel(pow10, 19);
    }
    assert(pow10(18) == 1000000000000000000);
    let mut v: u64 = 0;
    let mut k: usize = from;
    assert(cs@.subrange(from as int, from as int) =~= Seq::<char>::empty());
    while k < to
        invariant
            from <= k <= to <= cs.len(),
            to - from <= 18,
            pow10(18) == 1000000000000000000,
            digits_at(cs@, from as int, k as int),
            v == field(cs@, from as int, k as int),
            v < pow10((k - from) as nat),
            pow10((k - from) as nat) <= pow10(18),
        decreases to - k,
    {
        let c = cs[k];
        let ghost sub = cs@.subrange(from as int, k + 1);
        assert(sub.drop_last() =~= cs@.subrange(from as int, k as int));
        assert(sub.last() == c);
        if !((c as u32) >= 48 && (c as u32) <= 57) {
            assert(cs@.subrange(from as int, to as int)[k - from] == c);
            return None;
        }
        proof {
            lemma_pow10_grows((k - from) as nat);
            if k + 1 - from < 18 {
                lemma_pow10_below((k + 1 - from) as nat, 18);
            }
        }
        v = v * 10 + ((c as u32) - 48) as u64;
        k = k + 1;
    }
    Some(v)
}

proof fn lemma_pow10_grows(n: nat)
    ensures
        pow10(n + 1) == 10 * pow10(n),
{
}

proof fn lemma_pow10_below(n: nat, m: nat)
    requires
        n <= m,
    ensures
        pow10(n) <= pow10(m),
    decreases m - n,
{
    if n < m {
        lemma_pow10_below(n, (m - 1) as nat);
        assert(pow10(m) == 10 * pow10((m - 1) as nat));
    }
}

/// The days from 1970-01-01 to a date, plus 719468 (the days from
/// 0000-03-01 to 1970-01-01), so that the count never goes below zero.
fn shifted_days(y: u64, m: u64, d: u64) -> (r: u64)
    requires
        1 <= y <= 9999,
        1 <= m <= 12,
        1 <= d <= 31,
    ensures
        r == days_from_civil(y as int, m as int, d as int) + 719468,
        r <= 4000000,
{
    let yy: u64 = if m <= 2 {
        y - 1
    } else {
        y
    };
    let era: u64 = yy / 400;
    let yoe: u64 = yy - era * 400;
    let mp: u64 = if m > 2 {
        m - 3
    } else {
        m + 9
    };
    let doy: u64 = (153 * mp + 2) / 5 + d - 1;
    let doe: u64 = yoe * 365 + yoe / 4 - yoe / 100 + doy;
    era * 146097 + doe
}

/// How many digits `cs` holds from `i` on, without a break.
fn digit_run(cs: &Vec<char>, i: usize) -> (k: usize)
    requires
        i <= cs.len(),
    ensures
        k == leading_digits(cs@.skip(i as int)),
        i + k <= cs.len(),
{
    let mut j = i;
    while j < cs.len() && (cs[j] as u32) >= 48 && (cs[j] as u32) <= 57
        invariant
            i <= j <= cs.len(),
            leading_digits(cs@.skip(i as int)) == (j - i) + leading_digits(cs@.skip(j as int)),
        decreases cs.len() - j,
    {
        assert(cs@.skip(j as int).drop_first() =~= cs@.skip(j + 1));
        j = j + 1;
    }
    j - i
}

proof fn lemma_leading_digits(s: Seq<char>, k: int)
    requires
        0 <= k < leading_digits(s),
    ensures
        k < s.len(),
        is_digit(s[k]),
    decreases k,
{
    assert(s.len() > 0 && is_digit(s[0]));
    if k > 0 {
        lemma_leading_digits(s.drop_first(), k - 1);
        assert(s.drop_first()[k - 1] == s[k]);
    }
}

/// Where the zone of an ISO-8601 stamp with a time of day begins, and the
/// milliseconds its fraction of a second names; none for a `.` that no
/// digit follows.
fn fraction_at(cs: &Vec<char>) -> (r: Option<(usize, i64)>)
    requires
        cs.len() >= 19,
    ensures
        match r {
            Some((pos, frac)) => {
                &&& pos == zone_start(cs@)
                &&& pos <= cs.len()
                &&& frac == fraction_millis(cs@)
                &&& 0 <= frac < 1000
                &&& has_fraction(cs@) ==> leading_digits(cs@.skip(20)) >= 1
            },
            None => has_fraction(cs@) && leading_digits(cs@.skip(20)) == 0,
        },
{
    if !(cs.len() > 19 && cs[19] == '.') {
        return Some((19, 0));
    }
    let k = digit_run(cs, 20);
    if k == 0 {
        return None;
    }
    let t: usize = if k < 3 {
        k
    } else {
        3
    };
    proof {
        assert forall|q: int| 0 <= q < t implies is_digit(#[trigger] cs@.subrange(20, 20 + t)[q]) by {
            lemma_leading_digits(cs@.skip(20), q);
        }
    }
    let f = match digits_in(cs, 20, 20 + t) {
        Some(v) => v,
        None => {
            return None;
        },
    };
    proof {
        reveal_with_fuel(pow10, 4);
    }
    assert(pow10(1) == 10 && pow10(2) == 100 && pow10(3) == 1000 && pow10(0) == 1);
    assert(f < pow10(t as nat));
    let frac: i64 = if t == 1 {
        (f as i64) * 100
    } else if t == 2 {
        (f as i64) * 10
    } else {
        f as i64
    };
    assert(fraction_millis(cs@) == f * pow10((3 - t) as nat));
    proof {
        let p = pow10((3 - t) as nat);
        if t == 1 {
            assert(p == 100);
            assert(frac == f * p) by (nonlinear_arith)
                requires
                    p == 100,
                    frac == f * 100,
            ;
        } else if t == 2 {
            assert(p == 10);
            assert(frac == f * p) by (nonlinear_arith)
                requires
                    p == 10,
                    frac == f * 10,
            ;
        } else {
            assert(p == 1);
            assert(frac == f * p) by (nonlinear_arith)
                requires
                    p == 1,
                    frac == f,
            ;
        }
    }
    Some((20 + k, frac))
}

/// The offset, in seconds, that the zone designator from `pos` on names;
/// none when what is there is no zone designator.
fn zone_at(cs: &Vec<char>, pos: usize) -> (r: Option<i64>)
    requires
        pos <= cs.len(),
    ensures
        match r {
            Some(o) => is_zone(cs@.skip(pos as int)) && o == zone_offset(cs@.skip(pos as int)) && -86400 < o < 86400,
            None => !is_zone(cs@.skip(pos as int)),
        },
{
    let ghost z = cs@.skip(pos as int);
    let n = cs.len();
    assert(z.len() == n - pos);
    if n - pos == 0 {
        return Some(0);
    }
    assert(z[0] == cs@[pos as int]);
    if n - pos == 1 {
        if cs[pos] == 'Z' || cs[pos] == 'z' {
            return Some(0);
        }
        return None;
    }
    if n - pos != 6 {
        return None;
    }
    assert(z[3] == cs@[pos + 3]);
    if !(cs[pos] == '+' || cs[pos] == '-') || cs[pos + 3] != ':' {
        return None;
    }
    assert(z.subrange(1, 3) =~= cs@.subrange(pos + 1, pos + 3));
    assert(z.subrange(4, 6) =~= cs@.subrange(pos + 4, pos + 6));
    let oh = match digits_in(cs, pos + 1, pos + 3) {
        Some(v) => v,
        None => {
            return None;
        },
    };
    let om = match digits_in(cs, pos + 4, pos + 6) {
        Some(v) => v,
        None => {
            return None;
        },
    };
    if oh >= 24 || om >= 60 {
        return None;
    }
    let off = (oh * 3600 + om * 60) as i64;
    if cs[pos] == '-' {
        Some(-off)
    } else {
        Some(off)
    }
}

/// The milliseconds since the epoch that a creation stamp names (see
/// [`stamp_millis`]).
pub fn stamp_time(stamp: &str) -> (t: Option<i64>)
    ensures
        match t {
            Some(v) => stamp_millis(stamp@) == Some(v as int),
            None => stamp_millis(stamp@) is None,
        },
{
    let cs = chars_of(stamp);
    let n = cs.len();
    if 1 <= n && n <= 15 {
        assert(cs@.subrange(0, n as int) =~= cs@);
        match digits_in(&cs, 0, n) {
            Some(v) => {
                proof {
                    lemma_pow10_below(n as nat, 15);
                    reveal_with_fuel(pow10, 16);
                }
                assert(pow10(15) == 1000000000000000);
                return Some((v as i64) * 1000);
            },
            None => {},
        }
    }
    if n < 10 || cs[4] != '-' || cs[7] != '-' {
        return None;
    }
    let y = match digits_in(&cs, 0, 4) {
        Some(v) => v,
        None => {
            return None;
        },
    };
    let m = match digits_in(&cs, 5, 7) {
        Some(v) => v,
        None => {
            return None;
        },
    };
    let d = match digits_in(&cs, 8, 10) {
        Some(v) => v,
        None => {
            return None;
        },
    };
    proof {
        reveal_with_fuel(pow10, 5);
    }
    if y < 1 || m < 1 || m > 12 || d < 1 || d > 31 {
        return None;
    }
    let days = shifted_days(y, m, d);
    if n == 10 {
        assert(is_iso_stamp(cs@));
        return Some(((days as i64) - 719468) * 86400000);
    }
    if n < 19 || !(cs[10] == 'T' || cs[10] == 't' || cs[10] == ' ') || cs[13] != ':' || cs[16] != ':' {
        return None;
    }
    let h = match digits_in(&cs, 11, 13) {
        Some(v) => v,
        None => {
            return None;
        },
    };
    let mi = match digits_in(&cs, 14, 16) {
        Some(v) => v,
        None => {
            return None;
        },
    };
    let se = match digits_in(&cs, 17, 19) {
        Some(v) => v,
        None => {
            return None;
        },
    };
    if h >= 24 || mi >= 60 || se >= 60 {
        return None;
    }
    let (pos, frac) = match fraction_at(&cs) {
        Some(p) => p,
        None => {
            return None;
        },
    };
    let ghost z = cs@.skip(pos as int);
    let off = match zone_at(&cs, pos) {
        Some(o) => o,
        None => {
            return None;
        },
    };
    assert(is_iso_stamp(cs@));
    assert(off == zone_offset(z));
    assert(days as int == days_from_civil(y as int, m as int, d as int) + 719468);
    let secs: i64 = (days as i64) * 86400 + (h * 3600 + mi * 60 + se) as i64 - off - 62162035200;
    Some(secs * 1000 + frac)
}

} // verus!
