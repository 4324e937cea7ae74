//! `Retry-After` header values (RFC 7231): either whole seconds or an
//! IMF-fixdate such as `Wed, 21 Oct 2015 07:28:00 GMT`.
use vstd::prelude::*;

use crate::resilience::Delay;
use crate::text::{chars_of, decimal, digit_char};

verus! {

/// Unicode `White_Space`, the set that `str::trim` removes.
pub open spec fn is_whitespace(c: char) -> bool {
    let u = c as u32;
    ||| 0x09 <= u <= 0x0D
    ||| u == 0x20
    ||| u == 0x85
    ||| u == 0xA0
    ||| u == 0x1680
    ||| 0x2000 <= u <= 0x200A
    ||| u == 0x2028
    ||| u == 0x2029
    ||| u == 0x202F
    ||| u == 0x205F
    ||| u == 0x3000
}

fn whitespace(c: char) -> (b: bool)
    ensures
        b == is_whitespace(c),
{
    let u = c as u32;
    (0x09 <= u && u <= 0x0D) || u == 0x20 || u == 0x85 || u == 0xA0 || u == 0x1680 || (0x2000 <= u
        && u <= 0x200A) || u == 0x2028 || u == 0x2029 || u == 0x202F || u == 0x205F || u == 0x3000
}

/// Index of the first non-whitespace character at or after `i`.
pub open spec fn skip_ws_from(s: Seq<char>, i: nat) -> nat
    decreases s.len() - i,
{
    if i < s.len() && is_whitespace(s[i as int]) {
        skip_ws_from(s, i + 1)
    } else {
        i
    }
}

/// End of the text once trailing whitespace down to `lo` is dropped.
pub open spec fn drop_ws_before(s: Seq<char>, j: nat, lo: nat) -> nat
    decreases j,
{
    if j > lo && j <= s.len() && is_whitespace(s[j - 1]) {
        drop_ws_before(s, (j - 1) as nat, lo)
    } else {
        j
    }
}

/// The text without leading and trailing whitespace.
pub open spec fn trimmed(s: Seq<char>) -> Seq<char> {
    let a = skip_ws_from(s, 0);
    s.subrange(a as int, drop_ws_before(s, s.len(), a) as int)
}

/// Whether a character is an ASCII decimal digit.
pub open spec fn is_digit(c: char) -> bool {
    '0' <= c <= '9'
}

/// Reads decimal digits into a `u64`, most significant first; `None` on a
/// non-digit or when the value leaves `u64`. Empty text reads as zero.
pub open spec fn u64_digits(d: Seq<char>) -> Option<u64>
    decreases d.len(),
{
    if d.len() == 0 {
        Some(0)
    } else {
        match u64_digits(d.drop_last()) {
            Some(v) => if is_digit(d.last()) && v * 10 + (d.last() as u32 - 48) <= u64::MAX {
                Some((v * 10 + (d.last() as u32 - 48)) as u64)
            } else {
                None
            },
            None => None,
        }
    }
}

/// What `str::parse::<u64>` gives: an optional `+`, then at least one digit.
pub open spec fn parse_u64(s: Seq<char>) -> Option<u64> {
    let d = if s.len() > 0 && s[0] == '+' {
        s.drop_first()
    } else {
        s
    };
    if d.len() == 0 {
        None
    } else {
        u64_digits(d)
    }
}

/// What `str::parse::<i64>` gives: an optional `+` or `-`, then at least one
/// digit, within the range of `i64`.
pub open spec fn parse_i64(s: Seq<char>) -> Option<int> {
    let neg = s.len() > 0 && s[0] == '-';
    let d = if s.len() > 0 && (s[0] == '+' || s[0] == '-') {
        s.drop_first()
    } else {
        s
    };
    if d.len() == 0 {
        None
    } else {
        match u64_digits(d) {
            Some(m) => if neg && m <= 0x8000_0000_0000_0000 {
                Some(-(m as int))
            } else if !neg && m <= i64::MAX {
                Some(m as int)
            } else {
                None
            },
            None => None,
        }
    }
}

/// The pieces of `s` between occurrences of `c` (as `str::split` with a
/// char pattern: empty pieces kept, always at least one piece).
pub open spec fn split_on(s: Seq<char>, c: char) -> Seq<Seq<char>>
    decreases s.len(),
{
    if s.len() == 0 {
        seq![seq![]]
    } else {
        let rest = split_on(s.drop_last(), c);
        if s.last() == c {
            rest.push(seq![])
        } else {
            rest.update(rest.len() - 1, rest.last().push(s.last()))
        }
    }
}

/// Index of the first `", "` at or after `i`, if any.
pub open spec fn find_comma_space(s: Seq<char>, i: nat) -> Option<nat>
    decreases s.len() - i,
{
    if i + 1 >= s.len() {
        None
    } else if s[i as int] == ',' && s[(i + 1) as int] == ' ' {
        Some(i)
    } else {
        find_comma_space(s, i + 1)
    }
}

/// The month number of an English three-letter month name.
pub open spec fn month_of(name: Seq<char>) -> Option<nat> {
    if name == seq!['J', 'a', 'n'] {
        Some(1)
    } else if name == seq!['F', 'e', 'b'] {
        Some(2)
    } else if name == seq!['M', 'a', 'r'] {
        Some(3)
    } else if name == seq!['A', 'p', 'r'] {
        Some(4)
    } else if name == seq!['M', 'a', 'y'] {
        Some(5)
    } else if name == seq!['J', 'u', 'n'] {
        Some(6)
    } else if name == seq!['J', 'u', 'l'] {
        Some(7)
    } else if name == seq!['A', 'u', 'g'] {
        Some(8)
    } else if name == seq!['S', 'e', 'p'] {
        Some(9)
    } else if name == seq!['O', 'c', 't'] {
        Some(10)
    } else if name == seq!['N', 'o', 'v'] {
        Some(11)
    } else if name == seq!['D', 'e', 'c'] {
        Some(12)
    } else {
        None
    }
}

/// Gregorian leap year.
pub open spec fn is_leap(year: int) -> bool {
    (year % 4 == 0 && year % 100 != 0) || year % 400 == 0
}

/// Days in a month of a year; `None` for a month outside 1..=12.
pub open spec fn month_days(year: int, month: nat) -> Option<nat> {
    if month == 1 || month == 3 || month == 5 || month == 7 || month == 8 || month == 10 || month
        == 12 {
        Some(31)
    } else if month == 4 || month == 6 || month == 9 || month == 11 {
        Some(30)
    } else if month == 2 {
        Some(
            if is_leap(year) {
                29
            } else {
                28
            },
        )
    } else {
        None
    }
}

/// Days from 1970-01-01 to the given civil date (proleptic Gregorian), for
/// years from 0 on.
pub open spec fn days_from_civil_spec(year: int, month: nat, day: nat) -> int {
    let y = if month <= 2 {
        year - 1
    } else {
        year
    };
    let era = if y >= 0 {
        y / 400
    } else {
        (y - 399) / 400
    };
    let yoe = y - era * 400;
    let mp = (month + 9) % 12;
    let doy = (153 * mp + 2) / 5 + day - 1;
    let doe = yoe * 365 + yoe / 4 - yoe / 100 + doy;
    era * 146097 + doe - 719468
}

/// Seconds since the Unix epoch named by an IMF-fixdate
/// (`Www, DD Mon YYYY hh:mm:ss GMT`), when it is well formed, names a
/// real calendar day in years 0..=9999 with hour <= 23, minute <= 59 and
/// second <= 60, and is not before the epoch.
pub open spec fn http_date_secs(s: Seq<char>) -> Option<nat> {
    let gmt = " GMT"@;
    if s.len() < 4 || s.skip(s.len() - 4) != gmt {
        None
    } else {
        let body = s.take(s.len() - 4);
        match find_comma_space(body, 0) {
            None => None,
            Some(c) => {
                let parts = split_on(body.skip((c + 2) as int), ' ');
                if parts.len() != 4 {
                    None
                } else {
                    let clock = split_on(parts[3], ':');
                    match (
                        parse_u64(parts[0]),
                        month_of(parts[1]),
                        parse_i64(parts[2]),
                    ) {
                        (Some(day), Some(month), Some(year)) => {
                            if year < 0 || year > 9999 || clock.len() != 3 {
                                None
                            } else {
                                match (parse_u64(clock[0]), parse_u64(clock[1]), parse_u64(clock[2]), month_days(year, month)) {
                                    (Some(h), Some(mi), Some(sec), Some(max_day)) => {
                                        if h > 23 || mi > 59 || sec > 60 || day == 0 || day > max_day {
                                            None
                                        } else {
                                            let epoch = days_from_civil_spec(year, month, day as nat) * 86400
                                                + h * 3600 + mi * 60 + sec;
                                            if epoch < 0 {
                                                None
                                            } else {
                                                Some(epoch as nat)
                                            }
                                        }
                                    },
                                    _ => None,
                                }
                            }
                        },
                        _ => None,
                    }
                }
            },
        }
    }
}

/// Earliest instant a system clock reports, in nanoseconds from the Unix
/// epoch (`i64::MIN` whole seconds).
pub open spec fn clock_min_nanos() -> int {
    -9_223_372_036_854_775_808_000_000_000
}

/// Latest instant a system clock reports, in nanoseconds from the Unix
/// epoch (`i64::MAX` whole seconds and the nanoseconds of a second).
pub open spec fn clock_max_nanos() -> int {
    9_223_372_036_854_775_807_999_999_999
}

/// The delay a `Retry-After` value asks for at instant `now` (nanoseconds
/// from the Unix epoch): whole seconds when the trimmed value parses as a
/// `u64`; otherwise the time until the named date, zero once it is past;
/// `None` when it is neither.
pub open spec fn retry_after_nanos(header: Seq<char>, now: int) -> Option<nat> {
    let t = trimmed(header);
    match parse_u64(t) {
        Some(secs) => Some((secs * 1_000_000_000) as nat),
        None => match http_date_secs(t) {
            Some(target) => Some(
                if target * 1_000_000_000 - now > 0 {
                    (target * 1_000_000_000 - now) as nat
                } else {
                    0
                },
            ),
            None => None,
        },
    }
}

proof fn lemma_u64_digits_step(d: Seq<char>, i: int)
    requires
        0 <= i < d.len(),
    ensures
        u64_digits(d.take(i + 1)) == match u64_digits(d.take(i)) {
            Some(v) => if is_digit(d[i]) && v * 10 + (d[i] as u32 - 48) <= u64::MAX {
                Some((v * 10 + (d[i] as u32 - 48)) as u64)
            } else {
                None
            },
            None => None,
        },
{
    assert(d.take(i + 1).drop_last() =~= d.take(i));
}

/// Once a prefix fails to read, the whole text fails.
proof fn lemma_u64_digits_prefix_none(d: Seq<char>, k: int)
    requires
        0 <= k <= d.len(),
        u64_digits(d.take(k)) is None,
    ensures
        u64_digits(d) is None,
    decreases d.len(),
{
    if k == d.len() {
        assert(d.take(k) =~= d);
    } else {
        assert(d.drop_last().take(k) =~= d.take(k));
        lemma_u64_digits_prefix_none(d.drop_last(), k);
    }
}

/// Reads `v[from..to]` as decimal digits into a `u64`.
fn read_digits(v: &Vec<char>, from: usize, to: usize) -> (r: Option<u64>)
    requires
        from <= to <= v.len(),
    ensures
        r == u64_digits(v@.subrange(from as int, to as int)),
{
    let ghost d = v@.subrange(from as int, to as int);
    let mut acc: u64 = 0;
    let mut i: usize = from;
    assert(d.take(0) =~= Seq::<char>::empty());
    while i < to
        invariant
            from <= i <= to <= v.len(),
            d == v@.subrange(from as int, to as int),
            u64_digits(d.take(i - from)) == Some(acc),
        decreases to - i,
    {
        proof {
            lemma_u64_digits_step(d, i - from);
        }
        let c = v[i];
        if c < '0' || c > '9' {
            proof {
                lemma_u64_digits_prefix_none(d, i - from + 1);
            }
            return None;
        }
        let digit = (c as u32 - 48) as u64;
        if acc > 1844674407370955161u64 || (acc == 1844674407370955161u64 && digit > 5) {
            proof {
                lemma_u64_digits_prefix_none(d, i - from + 1);
            }
            return None;
        }
        acc = acc * 10 + digit;
        i = i + 1;
    }
    assert(d.take(to - from) =~= d);
    Some(acc)
}

/// `str::parse::<u64>` of `v[from..to]`.
fn parse_u64_at(v: &Vec<char>, from: usize, to: usize) -> (r: Option<u64>)
    requires
        from <= to <= v.len(),
    ensures
        r == parse_u64(v@.subrange(from as int, to as int)),
{
    let ghost s = v@.subrange(from as int, to as int);
    let start = if from < to && v[from] == '+' {
        from + 1
    } else {
        from
    };
    assert(s.len() > 0 && s[0] == '+' ==> s.drop_first() =~= v@.subrange(start as int, to as int));
    if start == to {
        return None;
    }
    read_digits(v, start, to)
}

/// `str::parse::<i64>` of `v[from..to]`.
fn parse_i64_at(v: &Vec<char>, from: usize, to: usize) -> (r: Option<i64>)
    requires
        from <= to <= v.len(),
    ensures
        match parse_i64(v@.subrange(from as int, to as int)) {
            Some(x) => r == Some(x as i64),
            None => r is None,
        },
{
    let ghost s = v@.subrange(from as int, to as int);
    let neg = from < to && v[from] == '-';
    let start = if from < to && (v[from] == '+' || v[from] == '-') {
        from + 1
    } else {
        from
    };
    assert(s.len() > 0 && (s[0] == '+' || s[0] == '-') ==> s.drop_first() =~= v@.subrange(start as int, to as int));
    if start == to {
        return None;
    }
    match read_digits(v, start, to) {
        Some(m) => {
            if neg && m <= 0x8000_0000_0000_0000u64 {
                if m == 0x8000_0000_0000_0000u64 {
                    Some(i64::MIN)
                } else {
                    Some(-(m as i64))
                }
            } else if !neg && m <= 0x7fff_ffff_ffff_ffffu64 {
                Some(m as i64)
            } else {
                None
            }
        },
        None => None,
    }
}

/// Splits `v[from..to]` at every `c`, as index ranges.
fn split_ranges(v: &Vec<char>, from: usize, to: usize, c: char) -> (r: Vec<(usize, usize)>)
    requires
        from <= to <= v.len(),
    ensures
        r@.len() == split_on(v@.subrange(from as int, to as int), c).len(),
        forall|k: int|
            0 <= k < r@.len() ==> {
                &&& from <= (#[trigger] r@[k]).0 <= r@[k].1 <= to
                &&& v@.subrange(r@[k].0 as int, r@[k].1 as int) == split_on(
                    v@.subrange(from as int, to as int),
                    c,
                )[k]
            },
{
    let ghost s = v@.subrange(from as int, to as int);
    let mut r: Vec<(usize, usize)> = Vec::new();
    r.push((from, from));
    let mut i: usize = from;
    assert(s.take(0) =~= Seq::<char>::empty());
    assert(split_on(s.take(0), c) =~= seq![Seq::<char>::empty()]);
    while i < to
        invariant
            from <= i <= to <= v.len(),
            s == v@.subrange(from as int, to as int),
            r@.len() == split_on(s.take(i - from), c).len(),
            r@.len() >= 1,
            r@.last().1 == i,
            forall|k: int|
                0 <= k < r@.len() ==> {
                    &&& from <= (#[trigger] r@[k]).0 <= r@[k].1 <= i
                    &&& v@.subrange(r@[k].0 as int, r@[k].1 as int) == split_on(s.take(i - from), c)[k]
                },
        decreases to - i,
    {
        let ghost before = split_on(s.take(i - from), c);
        assert(s.take(i + 1 - from).drop_last() =~= s.take(i - from));
        assert(s.take(i + 1 - from).last() == v@[i as int]);
        if v[i] == c {
            r.push((i + 1, i + 1));
            proof {
                let after = split_on(s.take(i + 1 - from), c);
                assert(after == before.push(seq![]));
                assert forall|k: int| 0 <= k < r@.len() implies v@.subrange(
                    (#[trigger] r@[k]).0 as int,
                    r@[k].1 as int,
                ) == after[k] by {
                    if k == r@.len() - 1 {
                        assert(v@.subrange(r@[k].0 as int, r@[k].1 as int) =~= Seq::<char>::empty());
                    }
                }
            }
        } else {
            let last = r.len() - 1;
            let (a, _) = r[last];
            r.set(last, (a, i + 1));
            proof {
                let after = split_on(s.take(i + 1 - from), c);
                assert(after == before.update(before.len() - 1, before.last().push(v@[i as int])));
                assert forall|k: int| 0 <= k < r@.len() implies v@.subrange(
                    (#[trigger] r@[k]).0 as int,
                    r@[k].1 as int,
                ) == after[k] by {
                    if k == r@.len() - 1 {
                        assert(v@.subrange(a as int, i + 1) =~= v@.subrange(a as int, i as int).push(v@[i as int]));
                    }
                }
            }
        }
        i = i + 1;
    }
    assert(s.take(to - from) =~= s);
    r
}

/// The month number of `v[from..to]` as an English three-letter name.
fn month_number(v: &Vec<char>, from: usize, to: usize) -> (r: Option<u64>)
    requires
        from <= to <= v.len(),
    ensures
        match month_of(v@.subrange(from as int, to as int)) {
            Some(m) => r == Some(m as u64),
            None => r is None,
        },
{
    let ghost s = v@.subrange(from as int, to as int);
    if to - from != 3 {
        assert(s.len() != 3);
        return None;
    }
    let a = v[from];
    let b = v[from + 1];
    let c = v[from + 2];
    assert(s =~= seq![a, b, c]);
    if a == 'J' && b == 'a' && c == 'n' {
        Some(1)
    } else if a == 'F' && b == 'e' && c == 'b' {
        Some(2)
    } else if a == 'M' && b == 'a' && c == 'r' {
        Some(3)
    } else if a == 'A' && b == 'p' && c == 'r' {
        Some(4)
    } else if a == 'M' && b == 'a' && c == 'y' {
        Some(5)
    } else if a == 'J' && b == 'u' && c == 'n' {
        Some(6)
    } else if a == 'J' && b == 'u' && c == 'l' {
        Some(7)
    } else if a == 'A' && b == 'u' && c == 'g' {
        Some(8)
    } else if a == 'S' && b == 'e' && c == 'p' {
        Some(9)
    } else if a == 'O' && b == 'c' && c == 't' {
        Some(10)
    } else if a == 'N' && b == 'o' && c == 'v' {
        Some(11)
    } else if a == 'D' && b == 'e' && c == 'c' {
        Some(12)
    } else {
        None
    }
}

/// Days in a month of a year; `None` for a month outside 1..=12.
fn days_in_month(year: i64, month: u64) -> (r: Option<u64>)
    ensures
        match month_days(year as int, month as nat) {
            Some(d) => r == Some(d as u64),
            None => r is None,
        },
{
    if month == 1 || month == 3 || month == 5 || month == 7 || month == 8 || month == 10 || month
        == 12 {
        Some(31)
    } else if month == 4 || month == 6 || month == 9 || month == 11 {
        Some(30)
    } else if month == 2 {
        let leap = (year % 4 == 0 && year % 100 != 0) || year % 400 == 0;
        assert(leap == is_leap(year as int)) by {
            if year >= 0 {
            } else {
                assert(leap == is_leap(year as int)) by (nonlinear_arith)
                    requires
                        year < 0,
                        leap == ((year % 4 == 0 && year % 100 != 0) || year % 400 == 0),
                ;
            }
        }
        Some(
            if leap {
                29
            } else {
                28
            },
        )
    } else {
        None
    }
}

/// Days from 1970-01-01 to a civil date, for years 0..=9999.
fn days_from_civil(year: i64, month: u64, day: u64) -> (r: i64)
    requires
        0 <= year <= 9999,
        1 <= month <= 12,
        1 <= day <= 31,
    ensures
        r == days_from_civil_spec(year as int, month as nat, day as nat),
        -800_000 <= r <= 3_000_000,
{
    let y: i64 = if month <= 2 {
        year - 1
    } else {
        year
    };
    let era: i64 = if y >= 0 {
        y / 400
    } else {
        -1
    };
    assert(y < 0 ==> (y - 399) / 400 == -1);
    let yoe: u64 = (y - era * 400) as u64;
    let mp: u64 = (month + 9) % 12;
    let doy: u64 = (153 * mp + 2) / 5 + day - 1;
    let doe: u64 = yoe * 365 + yoe / 4 - yoe / 100 + doy;
    era * 146097 + doe as i64 - 719468
}

/// Seconds since the epoch named by an IMF-fixdate held in `v[from..to]`.
#[verifier::rlimit(40)]
fn parse_http_date(v: &Vec<char>, from: usize, to: usize) -> (r: Option<u64>)
    requires
        from <= to <= v.len(),
    ensures
        match http_date_secs(v@.subrange(from as int, to as int)) {
            Some(t) => r == Some(t as u64),
            None => r is None,
        },
        r matches Some(t) ==> t <= 300_000_000_000,
{
    let ghost s = v@.subrange(from as int, to as int);
    if to - from < 4 || v[to - 4] != ' ' || v[to - 3] != 'G' || v[to - 2] != 'M' || v[to - 1] != 'T' {
        proof {
            reveal_strlit(" GMT");
            if s.len() >= 4 {
                if s.skip(s.len() - 4) == " GMT"@ {
                    assert(s.skip(s.len() - 4)[0] == v@[to - 4]);
                    assert(s.skip(s.len() - 4)[1] == v@[to - 3]);
                    assert(s.skip(s.len() - 4)[2] == v@[to - 2]);
                    assert(s.skip(s.len() - 4)[3] == v@[to - 1]);
                }
            }
        }
        return None;
    }
    proof {
        reveal_strlit(" GMT");
        assert(s.skip(s.len() - 4) =~= " GMT"@);
    }
    let end = to - 4;
    let ghost body = s.take(s.len() - 4);
    assert(body =~= v@.subrange(from as int, end as int));
    let mut c: usize = from;
    while end - c > 1 && !(v[c] == ',' && v[c + 1] == ' ')
        invariant
            from <= c <= end,
            end <= to <= v.len(),
            body == v@.subrange(from as int, end as int),
            find_comma_space(body, 0) == find_comma_space(body, (c - from) as nat),
        decreases end - c,
    {
        c = c + 1;
    }
    if end - c <= 1 {
        return None;
    }
    assert(find_comma_space(body, (c - from) as nat) == Some((c - from) as nat));
    let rest_from = c + 2;
    assert(body.skip(c - from + 2) =~= v@.subrange(rest_from as int, end as int));
    let parts = split_ranges(v, rest_from, end, ' ');
    if parts.len() != 4 {
        return None;
    }
    let day_opt = parse_u64_at(v, parts[0].0, parts[0].1);
    let month_opt = month_number(v, parts[1].0, parts[1].1);
    let year_opt = parse_i64_at(v, parts[2].0, parts[2].1);
    let (day, month, year) = match (day_opt, month_opt, year_opt) {
        (Some(d), Some(m), Some(y)) => (d, m, y),
        _ => {
            return None;
        },
    };
    if year < 0 || year > 9999 {
        return None;
    }
    let clock = split_ranges(v, parts[3].0, parts[3].1, ':');
    if clock.len() != 3 {
        return None;
    }
    let h_opt = parse_u64_at(v, clock[0].0, clock[0].1);
    let mi_opt = parse_u64_at(v, clock[1].0, clock[1].1);
    let s_opt = parse_u64_at(v, clock[2].0, clock[2].1);
    let md_opt = days_in_month(year, month);
    let (hour, minute, second, max_day) = match (h_opt, mi_opt, s_opt, md_opt) {
        (Some(h), Some(mi), Some(se), Some(md)) => (h, mi, se, md),
        _ => {
            return None;
        },
    };
    if hour > 23 || minute > 59 || second > 60 || day == 0 || day > max_day {
        return None;
    }
    let days = days_from_civil(year, month, day);
    let epoch: i64 = days * 86400 + (hour * 3600 + minute * 60 + second) as i64;
    if epoch < 0 {
        return None;
    }
    Some(epoch as u64)
}

/// Parse a `Retry-After` value at the instant `now_unix_nanos`
/// (nanoseconds from the Unix epoch, negative before it).
pub fn parse_retry_after_at(header_value: &str, now_unix_nanos: i128) -> (r: Option<Delay>)
    requires
        clock_min_nanos() <= now_unix_nanos <= clock_max_nanos(),
    ensures
        match retry_after_nanos(header_value@, now_unix_nanos as int) {
            Some(n) => r matches Some(d) && d@ == n,
            None => r is None,
        },
{
    let v = chars_of(header_value);
    let ghost s = v@;
    let mut a: usize = 0;
    while a < v.len() && whitespace(v[a])
        invariant
            a <= v.len(),
            s == v@,
            skip_ws_from(s, 0) == skip_ws_from(s, a as nat),
        decreases v.len() - a,
    {
        a = a + 1;
    }
    let mut b: usize = v.len();
    while b > a && whitespace(v[b - 1])
        invariant
            a <= b <= v.len(),
            s == v@,
            drop_ws_before(s, s.len(), a as nat) == drop_ws_before(s, b as nat, a as nat),
        decreases b,
    {
        b = b - 1;
    }
    assert(trimmed(s) =~= v@.subrange(a as int, b as int));
    match parse_u64_at(&v, a, b) {
        Some(secs) => {
            return Some(Delay::from_secs(secs));
        },
        None => {},
    }
    match parse_http_date(&v, a, b) {
        Some(target) => {
            let t: i128 = target as i128 * 1_000_000_000;
            let diff: i128 = t - now_unix_nanos;
            if diff > 0 {
                Some(Delay::from_nanos_total(diff as u128))
            } else {
                Some(Delay::zero())
            }
        },
        None => None,
    }
}

/// The system clock, read with `std::time::SystemTime::now`: `Ok` with the
/// nanoseconds since the Unix epoch, or `Err` with the nanoseconds before it
/// (as `duration_since(UNIX_EPOCH)` reports them). Nothing is promised of
/// the reading; callers take it as it comes.
#[verifier::external_body]
fn unix_time_nanos() -> (n: Result<u128, u128>) {
    match std::time::SystemTime::now().duration_since(std::time::UNIX_EPOCH) {
        Ok(d) => Ok(d.as_nanos()),
        Err(e) => Err(e.duration().as_nanos()),
    }
}

/// Parse a `Retry-After` value at the current time: what
/// [`parse_retry_after_at`] gives at some instant a system clock reports
/// (a reading beyond that range is clamped into it). Whole seconds do not
/// depend on the instant at all.
pub fn parse_retry_after(header_value: &str) -> (r: Option<Delay>)
    ensures
        exists|now: int|
            clock_min_nanos() <= now <= clock_max_nanos() && match #[trigger] retry_after_nanos(header_value@, now) {
                Some(n) => r matches Some(d) && d@ == n,
                None => r is None,
            },
        parse_u64(trimmed(header_value@)) matches Some(secs) ==> r matches Some(d) && d@ == secs * 1_000_000_000,
{
    let now: i128 = match unix_time_nanos() {
        Ok(after) => if after > 9_223_372_036_854_775_807_999_999_999u128 {
            9_223_372_036_854_775_807_999_999_999i128
        } else {
            after as i128
        },
        Err(before) => if before > 9_223_372_036_854_775_808_000_000_000u128 {
            -9_223_372_036_854_775_808_000_000_000i128
        } else {
            -(before as i128)
        },
    };
    let r = parse_retry_after_at(header_value, now);
    assert(clock_min_nanos() <= now as int <= clock_max_nanos());
    r
}

proof fn lemma_decimal_reads_back(n: nat)
    ensures
        decimal(n).len() >= 1,
        forall|i: int| 0 <= i < decimal(n).len() ==> is_digit(#[trigger] decimal(n)[i]),
        n <= u64::MAX ==> u64_digits(decimal(n)) == Some(n as u64),
    decreases n,
{
    let d = decimal(n);
    if n < 10 {
        assert(d == seq![digit_char(n)]);
        assert(d.drop_last() =~= Seq::<char>::empty());
        assert(digit_char(n) as u32 == 48 + n);
        assert(u64_digits(d.drop_last()) == Some(0u64));
        assert(d.last() == digit_char(n));
        assert(u64_digits(d) == Some(n as u64));
    } else {
        lemma_decimal_reads_back(n / 10);
        let init = decimal(n / 10);
        assert(d == init.push(digit_char(n % 10)));
        assert(d.drop_last() =~= init);
        assert(digit_char(n % 10) as u32 == 48 + n % 10);
        assert forall|i: int| 0 <= i < d.len() implies is_digit(#[trigger] d[i]) by {
            if i < init.len() {
                assert(d[i] == init[i]);
            }
        }
        assert((n / 10) * 10 + n % 10 == n);
        if n <= u64::MAX {
            assert(u64_digits(d.drop_last()) == Some((n / 10) as u64));
            assert(d.last() == digit_char(n % 10));
            assert(u64_digits(d) == Some(n as u64));
        }
    }
}

/// Whether every character of a text is whitespace.
pub open spec fn all_whitespace(s: Seq<char>) -> bool {
    forall|i: int| 0 <= i < s.len() ==> is_whitespace(#[trigger] s[i])
}

proof fn lemma_skip_ws(s: Seq<char>, i: nat, k: nat)
    requires
        i <= k <= s.len(),
        forall|j: int| i <= j < k ==> is_whitespace(#[trigger] s[j]),
        k == s.len() || !is_whitespace(s[k as int]),
    ensures
        skip_ws_from(s, i) == k,
    decreases k - i,
{
    if i < k {
        lemma_skip_ws(s, i + 1, k);
    }
}

proof fn lemma_drop_ws(s: Seq<char>, j: nat, lo: nat, k: nat)
    requires
        lo <= k <= j <= s.len(),
        forall|x: int| k <= x < j ==> is_whitespace(#[trigger] s[x]),
        k == lo || !is_whitespace(s[k - 1]),
    ensures
        drop_ws_before(s, j, lo) == k,
    decreases j - k,
{
    if k < j {
        lemma_drop_ws(s, (j - 1) as nat, lo, k);
    }
}

proof fn lemma_trimmed_digits(lead: Seq<char>, d: Seq<char>, trail: Seq<char>)
    requires
        d.len() >= 1,
        forall|i: int| 0 <= i < d.len() ==> is_digit(#[trigger] d[i]),
        all_whitespace(lead),
        all_whitespace(trail),
    ensures
        trimmed(lead + d + trail) == d,
{
    let s = lead + d + trail;
    let a = lead.len();
    let b = lead.len() + d.len();
    assert(s[a as int] == d[0]);
    assert(is_digit(d[0]));
    assert forall|j: int| 0 <= j < a implies is_whitespace(#[trigger] s[j]) by {
        assert(s[j] == lead[j]);
    }
    lemma_skip_ws(s, 0, a);
    assert(s[b - 1] == d[d.len() - 1]);
    assert(is_digit(d[d.len() - 1]));
    assert forall|x: int| b <= x < s.len() implies is_whitespace(#[trigger] s[x]) by {
        assert(s[x] == trail[x - b]);
    }
    lemma_drop_ws(s, s.len(), a, b);
    assert(s.subrange(a as int, b as int) =~= d);
}

/// A `Retry-After` of whole seconds, with any whitespace around it, asks
/// for exactly that many seconds, whenever it is read.
pub proof fn law_retry_after_whole_seconds(secs: u64, lead: Seq<char>, trail: Seq<char>, now: int)
    requires
        all_whitespace(lead),
        all_whitespace(trail),
    ensures
        retry_after_nanos(lead + decimal(secs as nat) + trail, now) == Some((secs * 1_000_000_000) as nat),
{
    let d = decimal(secs as nat);
    lemma_decimal_reads_back(secs as nat);
    lemma_trimmed_digits(lead, d, trail);
    assert(d[0] != '+');
}

/// Whether a year, month and day name a real day of the proleptic
/// Gregorian calendar.
pub open spec fn is_civil_date(year: int, month: nat, day: nat) -> bool {
    &&& 1 <= month <= 12
    &&& 1 <= day
    &&& day <= month_days(year, month).unwrap()
}

/// The calendar day after the given one.
pub open spec fn next_civil_day(year: int, month: nat, day: nat) -> (int, nat, nat) {
    if day < month_days(year, month).unwrap() {
        (year, month, day + 1)
    } else if month < 12 {
        (year, month + 1, 1)
    } else {
        (year + 1, 1, 1)
    }
}

/// Days from 0000-03-01 to March 1 of year `y` (the part of
/// `days_from_civil_spec` that depends on the year alone).
spec fn year_base(y: int) -> int {
    let era = if y >= 0 {
        y / 400
    } else {
        (y - 399) / 400
    };
    let yoe = y - era * 400;
    era * 146097 + yoe * 365 + yoe / 4 - yoe / 100
}

proof fn lemma_civil_split(year: int, month: nat, day: nat)
    ensures
        days_from_civil_spec(year, month, day) == year_base(
            if month <= 2 {
                year - 1
            } else {
                year
            },
        ) + (153 * ((month + 9) % 12) + 2) / 5 + day - 1 - 719468,
{
}

/// The twelve months from March 1 of `y - 1` to March 1 of `y` hold 366
/// days when `y` is a leap year, else 365.
proof fn lemma_year_length(y: int)
    requires
        0 <= y <= 9999,
    ensures
        year_base(y) - year_base(y - 1) == if is_leap(y) {
            366int
        } else {
            365int
        },
{
    if y == 0 {
        assert(year_base(-1) == -366);
        assert(year_base(0) == 0);
    } else {
        let e = y / 400;
        let r = y % 400;
        assert(y == 400 * e + r && 0 <= r < 400 && 0 <= e <= 24) by (nonlinear_arith)
            requires
                1 <= y <= 9999,
                e == y / 400,
                r == y % 400,
        ;
        assert(y % 4 == r % 4 && y % 100 == r % 100) by (nonlinear_arith)
            requires
                y == 400 * e + r,
                0 <= r < 400,
                0 <= e,
        ;
        if r == 0 {
            assert((y - 1) / 400 == e - 1) by (nonlinear_arith)
                requires
                    y == 400 * e,
                    1 <= e,
            ;
            assert(year_base(y) == e * 146097);
            assert(year_base(y - 1) == (e - 1) * 146097 + 399 * 365 + 99 - 3);
        } else {
            assert((y - 1) / 400 == e) by (nonlinear_arith)
                requires
                    y == 400 * e + r,
                    1 <= r < 400,
            ;
            assert(year_base(y) == e * 146097 + r * 365 + r / 4 - r / 100);
            assert(year_base(y - 1) == e * 146097 + (r - 1) * 365 + (r - 1) / 4 - (r - 1) / 100);
        }
    }
}

/// Days are counted from 1970-01-01, and each real calendar day of the
/// years 0..=9999 is followed by a day numbered exactly one higher.
pub proof fn law_calendar_successor(year: int, month: nat, day: nat)
    requires
        0 <= year <= 9999,
        is_civil_date(year, month, day),
    ensures
        days_from_civil_spec(1970, 1, 1) == 0,
        ({
            let (y2, m2, d2) = next_civil_day(year, month, day);
            &&& is_civil_date(y2, m2, d2)
            &&& days_from_civil_spec(y2, m2, d2) == days_from_civil_spec(year, month, day) + 1
        }),
{
    let (y2, m2, d2) = next_civil_day(year, month, day);
    lemma_civil_split(year, month, day);
    lemma_civil_split(y2, m2, d2);
    if month == 2 && day == month_days(year, month).unwrap() {
        lemma_year_length(year);
    }
}

/// The English three-letter month names, January first.
pub open spec fn month_names() -> Seq<Seq<char>> {
    seq![
        "Jan"@, "Feb"@, "Mar"@, "Apr"@, "May"@, "Jun"@,
        "Jul"@, "Aug"@, "Sep"@, "Oct"@, "Nov"@, "Dec"@,
    ]
}

/// A month name reads as its place in the calendar: the `m`-th name of the
/// year is month `m`, and no other text names a month.
pub proof fn law_month_names_in_calendar_order(name: Seq<char>, m: int)
    requires
        1 <= m <= 12,
    ensures
        month_of(month_names()[m - 1]) == Some(m as nat),
        month_of(name) matches Some(n) ==> 1 <= n <= 12 && name == month_names()[n - 1],
{
    reveal_strlit("Jan");
    reveal_strlit("Feb");
    reveal_strlit("Mar");
    reveal_strlit("Apr");
    reveal_strlit("May");
    reveal_strlit("Jun");
    reveal_strlit("Jul");
    reveal_strlit("Aug");
    reveal_strlit("Sep");
    reveal_strlit("Oct");
    reveal_strlit("Nov");
    reveal_strlit("Dec");
    assert("Jan"@ =~= seq!['J', 'a', 'n']);
    assert("Feb"@ =~= seq!['F', 'e', 'b']);
    assert("Mar"@ =~= seq!['M', 'a', 'r']);
    assert("Apr"@ =~= seq!['A', 'p', 'r']);
    assert("May"@ =~= seq!['M', 'a', 'y']);
    assert("Jun"@ =~= seq!['J', 'u', 'n']);
    assert("Jul"@ =~= seq!['J', 'u', 'l']);
    assert("Aug"@ =~= seq!['A', 'u', 'g']);
    assert("Sep"@ =~= seq!['S', 'e', 'p']);
    assert("Oct"@ =~= seq!['O', 'c', 't']);
    assert("Nov"@ =~= seq!['N', 'o', 'v']);
    assert("Dec"@ =~= seq!['D', 'e', 'c']);
}

proof fn lemma_split_on_len(s: Seq<char>, c: char)
    ensures
        split_on(s, c).len() >= 1,
    decreases s.len(),
{
    if s.len() > 0 {
        lemma_split_on_len(s.drop_last(), c);
    }
}

proof fn lemma_split_on_plain(s: Seq<char>, c: char)
    requires
        forall|i: int| 0 <= i < s.len() ==> s[i] != c,
    ensures
        split_on(s, c) == seq![s],
    decreases s.len(),
{
    if s.len() > 0 {
        let init = s.drop_last();
        lemma_split_on_plain(init, c);
        assert(init.push(s.last()) =~= s);
        assert(split_on(s, c) =~= seq![s]);
    } else {
        assert(s =~= Seq::<char>::empty());
    }
}

proof fn lemma_split_on_join(a: Seq<char>, b: Seq<char>, c: char)
    ensures
        split_on(a + seq![c] + b, c) == split_on(a, c) + split_on(b, c),
    decreases b.len(),
{
    let s = a + seq![c] + b;
    if b.len() == 0 {
        assert(s.drop_last() =~= a);
        assert(split_on(b, c) =~= seq![Seq::<char>::empty()]);
        assert(split_on(s, c) =~= split_on(a, c) + split_on(b, c));
    } else {
        let b0 = b.drop_last();
        lemma_split_on_join(a, b0, c);
        lemma_split_on_len(b0, c);
        assert(s.drop_last() =~= a + seq![c] + b0);
        assert(s.last() == b.last());
        let ra = split_on(a, c);
        let rb = split_on(b0, c);
        if b.last() == c {
            assert(split_on(s, c) =~= ra + split_on(b, c));
        } else {
            let whole = ra + rb;
            assert(whole.update(whole.len() - 1, whole.last().push(b.last())) =~= ra + rb.update(
                rb.len() - 1,
                rb.last().push(b.last()),
            ));
            assert(split_on(s, c) =~= ra + split_on(b, c));
        }
    }
}

proof fn lemma_find_comma_space(s: Seq<char>, i: nat, c: nat)
    requires
        i <= c,
        c + 1 < s.len(),
        s[c as int] == ',',
        s[c + 1 as int] == ' ',
        forall|k: int| i <= k < c ==> s[k] != ',',
    ensures
        find_comma_space(s, i) == Some(c),
    decreases c - i,
{
    if i < c {
        lemma_find_comma_space(s, i + 1, c);
    }
}

/// A number below 100 as two decimal digits (`05`, `42`).
pub open spec fn two_digits(n: nat) -> Seq<char> {
    seq![digit_char(n / 10), digit_char(n % 10)]
}

/// A number below 10000 as four decimal digits (`0042`, `2026`).
pub open spec fn four_digits(n: nat) -> Seq<char> {
    seq![digit_char(n / 1000), digit_char(n / 100 % 10), digit_char(n / 10 % 10), digit_char(n % 10)]
}

/// An IMF-fixdate, `Www, DD Mon YYYY hh:mm:ss GMT`, with the month named
/// by its English three-letter name.
pub open spec fn imf_fixdate(
    weekday: Seq<char>,
    day: nat,
    month: nat,
    year: nat,
    hour: nat,
    minute: nat,
    second: nat,
) -> Seq<char> {
    weekday + seq![',', ' '] + two_digits(day) + seq![' '] + month_names()[month - 1] + seq![' '] + four_digits(year)
        + seq![' '] + two_digits(hour) + seq![':'] + two_digits(minute) + seq![':'] + two_digits(second) + " GMT"@
}

proof fn lemma_digits_plain(d: Seq<char>)
    requires
        forall|i: int| 0 <= i < d.len() ==> is_digit(#[trigger] d[i]),
    ensures
        forall|i: int| 0 <= i < d.len() ==> d[i] != ' ' && d[i] != ':' && d[i] != ',' && d[i] != '+' && d[i]
            != '-',
{
}

proof fn lemma_two_digits(n: nat)
    requires
        n < 100,
    ensures
        parse_u64(two_digits(n)) == Some(n as u64),
        forall|i: int| 0 <= i < two_digits(n).len() ==> is_digit(#[trigger] two_digits(n)[i]),
{
    let d = two_digits(n);
    assert(digit_char(n / 10) as u32 == 48 + n / 10);
    assert(digit_char(n % 10) as u32 == 48 + n % 10);
    assert(d.drop_last() =~= seq![digit_char(n / 10)]);
    assert(d.drop_last().drop_last() =~= Seq::<char>::empty());
    assert(u64_digits(Seq::<char>::empty()) == Some(0u64));
    assert(d.drop_last().last() == digit_char(n / 10));
    assert(is_digit(digit_char(n / 10)));
    assert(u64_digits(d.drop_last()) == Some((n / 10) as u64));
    assert(u64_digits(d) == Some(n as u64));
}

proof fn lemma_four_digits(n: nat)
    requires
        n < 10000,
    ensures
        parse_i64(four_digits(n)) == Some(n as int),
        forall|i: int| 0 <= i < four_digits(n).len() ==> is_digit(#[trigger] four_digits(n)[i]),
{
    let d = four_digits(n);
    let a = n / 1000;
    let b = n / 100 % 10;
    let c = n / 10 % 10;
    let e = n % 10;
    assert(digit_char(a) as u32 == 48 + a);
    assert(digit_char(b) as u32 == 48 + b);
    assert(digit_char(c) as u32 == 48 + c);
    assert(digit_char(e) as u32 == 48 + e);
    let d1 = seq![digit_char(a)];
    let d2 = d1.push(digit_char(b));
    let d3 = d2.push(digit_char(c));
    assert(d =~= d3.push(digit_char(e)));
    assert(d1.drop_last() =~= Seq::<char>::empty());
    assert(u64_digits(Seq::<char>::empty()) == Some(0u64));
    assert(d1.last() == digit_char(a));
    assert(u64_digits(d1) == Some(a as u64));
    assert(d2.drop_last() =~= d1);
    assert(u64_digits(d2) == Some((a * 10 + b) as u64));
    assert(d3.drop_last() =~= d2);
    assert(u64_digits(d3) == Some((a * 100 + b * 10 + c) as u64));
    assert(d.drop_last() =~= d3);
    assert(u64_digits(d) == Some((a * 1000 + b * 100 + c * 10 + e) as u64));
    assert(a * 1000 + b * 100 + c * 10 + e == n);
}

proof fn lemma_month_name_plain(m: nat)
    requires
        1 <= m <= 12,
    ensures
        month_names()[m - 1].len() == 3,
        forall|i: int| 0 <= i < 3 ==> #[trigger] month_names()[m - 1][i] != ' ',
        month_of(month_names()[m - 1]) == Some(m),
{
    law_month_names_in_calendar_order(month_names()[m - 1], m as int);
}

/// An HTTP date names the second of the calendar that its fields say:
/// `Www, DD Mon YYYY hh:mm:ss GMT`, for any real day of the years 0..=9999
/// not before 1970 and any time of day (a leap second included), reads as
/// that day's number from 1970-01-01 times 86400, plus the time of day,
/// with `Mon` read by its place among the twelve month names.
pub proof fn law_imf_fixdate_reads_as_calendar_time(
    weekday: Seq<char>,
    day: nat,
    month: nat,
    year: nat,
    hour: nat,
    minute: nat,
    second: nat,
)
    requires
        forall|i: int| 0 <= i < weekday.len() ==> weekday[i] != ',',
        year <= 9999,
        is_civil_date(year as int, month, day),
        days_from_civil_spec(year as int, month, day) >= 0,
        hour <= 23,
        minute <= 59,
        second <= 60,
    ensures
        http_date_secs(imf_fixdate(weekday, day, month, year, hour, minute, second)) == Some(
            (days_from_civil_spec(year as int, month, day) * 86400 + hour * 3600 + minute * 60 + second) as nat,
        ),
{
    let dd = two_digits(day);
    let name = month_names()[month - 1];
    let yy = four_digits(year);
    let hh = two_digits(hour);
    let mm = two_digits(minute);
    let ss = two_digits(second);
    lemma_two_digits(day);
    lemma_two_digits(hour);
    lemma_two_digits(minute);
    lemma_two_digits(second);
    lemma_four_digits(year);
    lemma_month_name_plain(month);
    lemma_digits_plain(dd);
    lemma_digits_plain(yy);
    lemma_digits_plain(hh);
    lemma_digits_plain(mm);
    lemma_digits_plain(ss);
    let clock = hh + seq![':'] + (mm + seq![':'] + ss);
    let rest = dd + seq![' '] + (name + seq![' '] + (yy + seq![' '] + clock));
    let body = weekday + seq![',', ' '] + rest;
    let s = imf_fixdate(weekday, day, month, year, hour, minute, second);
    reveal_strlit(" GMT");
    assert(s =~= body + " GMT"@);
    assert(s.skip(s.len() - 4) =~= " GMT"@);
    assert(s.take(s.len() - 4) =~= body);
    let c = weekday.len();
    assert forall|k: int| 0 <= k < c implies body[k] != ',' by {
        assert(body[k] == weekday[k]);
    }
    lemma_find_comma_space(body, 0, c);
    assert(body.skip((c + 2) as int) =~= rest);
    // The four space-separated parts.
    assert forall|i: int| 0 <= i < clock.len() implies clock[i] != ' ' by {
        if i < 2 {
            assert(clock[i] == hh[i]);
        } else if 3 <= i < 5 {
            assert(clock[i] == mm[i - 3]);
        } else if 6 <= i {
            assert(clock[i] == ss[i - 6]);
        }
    }
    lemma_split_on_plain(dd, ' ');
    lemma_split_on_plain(name, ' ');
    lemma_split_on_plain(yy, ' ');
    lemma_split_on_plain(clock, ' ');
    lemma_split_on_join(yy, clock, ' ');
    lemma_split_on_join(name, yy + seq![' '] + clock, ' ');
    lemma_split_on_join(dd, name + seq![' '] + (yy + seq![' '] + clock), ' ');
    let parts = split_on(rest, ' ');
    assert(parts =~= seq![dd, name, yy, clock]);
    // The three colon-separated fields of the time.
    lemma_split_on_plain(hh, ':');
    lemma_split_on_plain(mm, ':');
    lemma_split_on_plain(ss, ':');
    lemma_split_on_join(mm, ss, ':');
    lemma_split_on_join(hh, mm + seq![':'] + ss, ':');
    assert(split_on(clock, ':') =~= seq![hh, mm, ss]);
}

} // verus!
