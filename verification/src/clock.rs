//! Calendar dates and times of day, counted in seconds from 1970.
use vstd::prelude::*;

use crate::decimal;
use crate::decimal::padded_of;
use crate::order;
use crate::text;

verus! {

/// Whether the Gregorian calendar gives the year a 29th of February.
pub open spec fn leap(y: int) -> bool {
    (y % 4 == 0 && y % 100 != 0) || y % 400 == 0
}

/// The number of days in a year.
pub open spec fn days_in_year(y: int) -> int {
    if leap(y) {
        366
    } else {
        365
    }
}

/// The number of leap years from year 1 up to and with `y`.
pub open spec fn leap_years_through(y: int) -> int {
    y / 4 - y / 100 + y / 400
}

/// The number of days from the start of 1970 to the start of year `y`.
pub open spec fn days_before_year(y: int) -> int {
    365 * (y - 1970) + leap_years_through(y - 1) - leap_years_through(1969)
}

/// The number of days in month `mo` (1 to 12) of year `y`.
pub open spec fn days_in_month(y: int, mo: int) -> int {
    if mo == 2 {
        if leap(y) {
            29
        } else {
            28
        }
    } else if mo == 4 || mo == 6 || mo == 9 || mo == 11 {
        30
    } else {
        31
    }
}

/// The number of days from the start of year `y` to the start of its month `mo`.
pub open spec fn days_before_month(y: int, mo: int) -> int
    decreases mo,
{
    if mo <= 1 {
        0
    } else {
        days_before_month(y, mo - 1) + days_in_month(y, mo - 1)
    }
}

/// Whether the numbers name a day of the calendar from 1970 on and a time of day.
pub open spec fn valid_time(y: int, mo: int, d: int, h: int, mi: int, s: int) -> bool {
    &&& 1970 <= y
    &&& 1 <= mo <= 12
    &&& 1 <= d <= days_in_month(y, mo)
    &&& 0 <= h < 24
    &&& 0 <= mi < 60
    &&& 0 <= s < 60
}

/// The seconds from the start of 1970 to the given day and time.
pub open spec fn seconds_at(y: int, mo: int, d: int, h: int, mi: int, s: int) -> int {
    (days_before_year(y) + days_before_month(y, mo) + d - 1) * 86400 + h * 3600 + mi * 60 + s
}

/// Whether the second belongs to a year that an `i32` can hold.
pub open spec fn year_fits(secs: int) -> bool {
    secs / 86400 < days_before_year(0x8000_0000)
}

/// Each year ends where the next begins.
pub proof fn days_before_year_step(y: int)
    ensures
        days_before_year(y + 1) == days_before_year(y) + days_in_year(y),
        days_before_year(1970) == 0,
{
}

/// Later years begin later.
pub proof fn days_before_year_monotone(a: int, b: int)
    requires
        a <= b,
    ensures
        days_before_year(a) + 365 * (b - a) <= days_before_year(b),
    decreases b - a,
{
    if a < b {
        days_before_year_monotone(a, b - 1);
        days_before_year_step(b - 1);
    }
}

/// The twelve months fill the year.
pub proof fn months_fill_year(y: int)
    ensures
        days_before_month(y, 13) == days_in_year(y),
{
    reveal_with_fuel(days_before_month, 13);
}

/// Later months begin later, and no day of an earlier month falls into them.
pub proof fn days_before_month_monotone(y: int, a: int, b: int)
    requires
        1 <= a < b <= 13,
    ensures
        days_before_month(y, a) + days_in_month(y, a) <= days_before_month(y, b),
    decreases b - a,
{
    if a + 1 < b {
        days_before_month_monotone(y, a, b - 1);
    }
}

/// Whether the first of two days and times comes before the second, read field by
/// field from the year down.
pub open spec fn earlier(
    a: (i32, u32, u32, u32, u32, u32),
    b: (i32, u32, u32, u32, u32, u32),
) -> bool {
    ||| a.0 < b.0
    ||| a.0 == b.0 && a.1 < b.1
    ||| a.0 == b.0 && a.1 == b.1 && a.2 < b.2
    ||| a.0 == b.0 && a.1 == b.1 && a.2 == b.2 && a.3 < b.3
    ||| a.0 == b.0 && a.1 == b.1 && a.2 == b.2 && a.3 == b.3 && a.4 < b.4
    ||| a.0 == b.0 && a.1 == b.1 && a.2 == b.2 && a.3 == b.3 && a.4 == b.4 && a.5 < b.5
}

/// Whether `t` is the calendar day and the time of day of the second `secs`.
pub open spec fn is_time_of(t: (i32, u32, u32, u32, u32, u32), secs: int) -> bool {
    &&& valid_time(t.0 as int, t.1 as int, t.2 as int, t.3 as int, t.4 as int, t.5 as int)
    &&& seconds_at(t.0 as int, t.1 as int, t.2 as int, t.3 as int, t.4 as int, t.5 as int) == secs
}

/// The order of days and times field by field is the order of their seconds.
pub proof fn seconds_follow_fields(
    a: (i32, u32, u32, u32, u32, u32),
    b: (i32, u32, u32, u32, u32, u32),
    sa: int,
    sb: int,
)
    requires
        is_time_of(a, sa),
        is_time_of(b, sb),
        earlier(a, b),
    ensures
        sa < sb,
{
    let (ya, ma) = (a.0 as int, a.1 as int);
    let (yb, mb) = (b.0 as int, b.1 as int);
    let da = days_before_year(ya) + days_before_month(ya, ma) + a.2 - 1;
    let db = days_before_year(yb) + days_before_month(yb, mb) + b.2 - 1;
    days_before_month_nonneg(yb, mb);
    if ya < yb {
        days_before_month_monotone(ya, ma, 13);
        months_fill_year(ya);
        days_before_year_step(ya);
        days_before_year_monotone(ya + 1, yb);
        assert(da < db);
    } else if ma < mb {
        days_before_month_monotone(ya, ma, mb);
        assert(da < db);
    }
}

/// A month begins no earlier than its year.
pub proof fn days_before_month_nonneg(y: int, mo: int)
    ensures
        0 <= days_before_month(y, mo),
    decreases mo,
{
    if mo > 1 {
        days_before_month_nonneg(y, mo - 1);
    }
}

/// Each second has one calendar day and time of day only.
pub proof fn time_of_second_is_unique(
    a: (i32, u32, u32, u32, u32, u32),
    b: (i32, u32, u32, u32, u32, u32),
    secs: int,
)
    requires
        is_time_of(a, secs),
        is_time_of(b, secs),
    ensures
        a == b,
{
    if earlier(a, b) {
        seconds_follow_fields(a, b, secs, secs);
    } else if earlier(b, a) {
        seconds_follow_fields(b, a, secs, secs);
    }
}

/// The year that holds a day, at or after a year that begins no later.
proof fn year_holding(day: int, from: int) -> (y: int)
    requires
        days_before_year(from) <= day,
    ensures
        from <= y,
        days_before_year(y) <= day < days_before_year(y + 1),
    decreases day - days_before_year(from),
{
    days_before_year_step(from);
    if day < days_before_year(from + 1) {
        from
    } else {
        year_holding(day, from + 1)
    }
}

/// The month that holds a day of a year, at or after a month that begins no later.
proof fn month_holding(y: int, day: int, from: int) -> (mo: int)
    requires
        1 <= from <= 12,
        days_before_month(y, from) <= day < days_in_year(y),
    ensures
        1 <= mo <= 12,
        days_before_month(y, mo) <= day < days_before_month(y, mo) + days_in_month(y, mo),
    decreases 13 - from,
{
    months_fill_year(y);
    if day < days_before_month(y, from) + days_in_month(y, from) {
        from
    } else {
        assert(from < 12) by {
            if from == 12 {
                assert(days_before_month(y, 13) == days_before_month(y, 12) + days_in_month(y, 12));
            }
        }
        month_holding(y, day, from + 1)
    }
}

/// Every second of a year that an `i32` can hold has a calendar day and a time of day.
pub proof fn every_second_has_a_time(secs: int)
    requires
        0 <= secs,
        year_fits(secs),
    ensures
        is_time_of(time_of(secs), secs),
{
    let day = secs / 86400;
    days_before_year_step(1970);
    let y = year_holding(day, 1970);
    assert(y < 0x8000_0000) by {
        if y >= 0x8000_0000 {
            days_before_year_monotone(0x8000_0000, y);
        }
    }
    days_before_year_step(y);
    let in_year = day - days_before_year(y);
    let mo = month_holding(y, in_year, 1);
    let rest = secs % 86400;
    let t = (
        y as i32,
        mo as u32,
        (in_year - days_before_month(y, mo) + 1) as u32,
        (rest / 3600) as u32,
        (rest % 3600 / 60) as u32,
        (rest % 60) as u32,
    );
    assert(rest == rest / 3600 * 3600 + rest % 3600 / 60 * 60 + rest % 60);
    assert(is_time_of(t, secs));
}

/// Whether the year has a 29th of February.
pub fn is_leap(y: i32) -> (r: bool)
    ensures
        r == leap(y as int),
{
    (y % 4 == 0 && y % 100 != 0) || y % 400 == 0
}

/// The number of days in a year.
fn year_length(y: i32) -> (r: i64)
    ensures
        r == days_in_year(y as int),
{
    if is_leap(y) {
        366
    } else {
        365
    }
}

/// The year of a day counted from 1970, and the days of that year before it.
fn year_of_day(day: i64) -> (r: (i32, i64))
    requires
        0 <= day < days_before_year(0x8000_0000),
    ensures
        1970 <= r.0,
        day == days_before_year(r.0 as int) + r.1,
        0 <= r.1 < days_in_year(r.0 as int),
{
    let mut days: i64 = day;
    let mut y: i32 = 1970;
    while days >= year_length(y)
        invariant
            1970 <= y,
            0 <= days,
            day < days_before_year(0x8000_0000),
            day == days_before_year(y as int) + days,
        decreases days,
    {
        proof {
            days_before_year_step(y as int);
        }
        days = days - year_length(y);
        y = y + 1;
    }
    (y, days)
}

/// The month of a day of a year, and the days of that month before it.
fn month_of_day(y: i32, day: i64) -> (r: (u32, i64))
    requires
        0 <= day < days_in_year(y as int),
    ensures
        1 <= r.0 <= 12,
        day == days_before_month(y as int, r.0 as int) + r.1,
        0 <= r.1 < days_in_month(y as int, r.0 as int),
{
    let february: i64 = if is_leap(y) {
        29
    } else {
        28
    };
    let mdays: [i64; 12] = [31, february, 31, 30, 31, 30, 31, 31, 30, 31, 30, 31];
    let mut days: i64 = day;
    let mut mo: u32 = 1;
    proof {
        months_fill_year(y as int);
    }
    while mo <= 12 && days >= mdays[mo as usize - 1]
        invariant
            1 <= mo <= 13,
            0 <= days,
            february == (if leap(y as int) {
                29int
            } else {
                28int
            }),
            mdays@ == seq![31i64, february, 31, 30, 31, 30, 31, 31, 30, 31, 30, 31],
            day == days_before_month(y as int, mo as int) + days,
            day < days_before_month(y as int, 13),
        decreases 13 - mo,
    {
        assert(mdays@[mo - 1] == days_in_month(y as int, mo as int));
        days = days - mdays[mo as usize - 1];
        mo = mo + 1;
    }
    assert(mdays@[mo - 1] == days_in_month(y as int, mo as int));
    (mo, days)
}

/// Whether the second belongs to a year that an `i32` can hold.
pub fn has_calendar_year(secs: u64) -> (r: bool)
    ensures
        r == year_fits(secs as int),
{
    secs / 86400 < 784351576777
}

/// The calendar day and the time of day, in UTC, of a second counted from 1970: year,
/// month, day, hour, minute, second.
pub fn epoch_to_ymdhms(secs: u64) -> (r: (i32, u32, u32, u32, u32, u32))
    requires
        year_fits(secs as int),
    ensures
        is_time_of(r, secs as int),
{
    let minutes: u64 = secs / 60;
    let hours: u64 = minutes / 60;
    let days: u64 = hours / 24;
    let s: u32 = (secs % 60) as u32;
    let mi: u32 = (minutes % 60) as u32;
    let h: u32 = (hours % 24) as u32;
    assert(secs == days * 86400 + h * 3600 + mi * 60 + s);
    let (y, in_year) = year_of_day(days as i64);
    let (mo, in_month) = month_of_day(y, in_year);
    (y, mo, (in_month + 1) as u32, h, mi, s)
}

/// The calendar day and the time of day of a second: there is one only.
pub open spec fn time_of(secs: int) -> (i32, u32, u32, u32, u32, u32) {
    choose|t: (i32, u32, u32, u32, u32, u32)| is_time_of(t, secs)
}

/// A day and time as text: year, month and day with hyphens, `T`, then hour, minute
/// and second with `sep` between them, and `Z`.
pub open spec fn stamp(t: (i32, u32, u32, u32, u32, u32), sep: char) -> Seq<char> {
    decimal::padded(t.0 as nat, 4) + seq!['-'] + decimal::padded(t.1 as nat, 2) + seq!['-']
        + decimal::padded(t.2 as nat, 2) + seq!['T'] + decimal::padded(t.3 as nat, 2) + seq![sep]
        + decimal::padded(t.4 as nat, 2) + seq![sep] + decimal::padded(t.5 as nat, 2) + seq!['Z']
}

/// The second `secs`, counted from 1970, as an RFC 3339 time in UTC.
pub fn rfc3339_now(secs: u64) -> (r: String)
    requires
        year_fits(secs as int),
    ensures
        r@ == stamp(time_of(secs as int), ':'),
{
    let (y, mo, d, h, mi, s) = epoch_to_ymdhms(secs);
    proof {
        time_of_second_is_unique((y, mo, d, h, mi, s), time_of(secs as int), secs as int);
    }
    let mut r = padded_of(y as u64, 4);
    r.push('-');
    r.append(padded_of(mo as u64, 2).as_str());
    r.push('-');
    r.append(padded_of(d as u64, 2).as_str());
    r.push('T');
    r.append(padded_of(h as u64, 2).as_str());
    r.push(':');
    r.append(padded_of(mi as u64, 2).as_str());
    r.push(':');
    r.append(padded_of(s as u64, 2).as_str());
    r.push('Z');
    assert(r@ =~= stamp((y, mo, d, h, mi, s), ':'));
    r
}

/// Six fields of digits with separators between them, from the right.
spec fn six_fields(f: Seq<Seq<char>>, sep: char) -> Seq<char> {
    f[0] + seq!['-'] + (f[1] + seq!['-'] + (f[2] + seq!['T'] + (f[3] + seq![sep] + (f[4] + seq![
        sep,
    ] + (f[5] + seq!['Z'])))))
}

/// The fields of a day and time in digits.
spec fn fields(t: (i32, u32, u32, u32, u32, u32)) -> Seq<Seq<char>> {
    seq![
        decimal::padded(t.0 as nat, 4),
        decimal::padded(t.1 as nat, 2),
        decimal::padded(t.2 as nat, 2),
        decimal::padded(t.3 as nat, 2),
        decimal::padded(t.4 as nat, 2),
        decimal::padded(t.5 as nat, 2),
    ]
}

proof fn stamp_fields(t: (i32, u32, u32, u32, u32, u32), sep: char)
    ensures
        stamp(t, sep) == six_fields(fields(t), sep),
{
    let f = fields(t);
    let l1 = f[0] + seq!['-'];
    let l2 = l1 + f[1] + seq!['-'];
    let l3 = l2 + f[2] + seq!['T'];
    let l4 = l3 + f[3] + seq![sep];
    let l5 = l4 + f[4] + seq![sep];
    let r5 = f[5] + seq!['Z'];
    let r4 = f[4] + seq![sep] + r5;
    let r3 = f[3] + seq![sep] + r4;
    let r2 = f[2] + seq!['T'] + r3;
    assert(l5 + f[5] + seq!['Z'] =~= l5 + r5);
    regroup(l4, f[4], seq![sep], r5);
    regroup(l3, f[3], seq![sep], r4);
    regroup(l2, f[2], seq!['T'], r3);
    regroup(l1, f[1], seq!['-'], r2);
}

proof fn regroup(l: Seq<char>, f: Seq<char>, p: Seq<char>, r: Seq<char>)
    ensures
        l + f + p + r == l + (f + p + r),
{
    assert(l + f + p + r =~= l + (f + p + r));
}

/// Fields of equal width sort by the first field in which they differ.
proof fn six_fields_order(f: Seq<Seq<char>>, g: Seq<Seq<char>>, k: int, sep: char)
    requires
        f.len() == 6,
        g.len() == 6,
        0 <= k < 6,
        f[k].len() == g[k].len(),
        order::less(f[k], g[k]),
        forall|i: int| 0 <= i < k ==> f[i] == g[i],
    ensures
        order::less(six_fields(f, sep), six_fields(g, sep)),
{
    let f5 = f[5] + seq!['Z'];
    let g5 = g[5] + seq!['Z'];
    let f4 = f[4] + seq![sep] + f5;
    let g4 = g[4] + seq![sep] + g5;
    let f3 = f[3] + seq![sep] + f4;
    let g3 = g[3] + seq![sep] + g4;
    let f2 = f[2] + seq!['T'] + f3;
    let g2 = g[2] + seq!['T'] + g3;
    let f1 = f[1] + seq!['-'] + f2;
    let g1 = g[1] + seq!['-'] + g2;
    if k == 5 {
        order::lemma_less_front(f[5], g[5], seq!['Z'], seq!['Z']);
    }
    if k >= 4 {
        order::lemma_less_fields(f[4], seq![sep], f5, g[4], g5);
    }
    if k >= 3 {
        order::lemma_less_fields(f[3], seq![sep], f4, g[3], g4);
    }
    if k >= 2 {
        order::lemma_less_fields(f[2], seq!['T'], f3, g[2], g3);
    }
    if k >= 1 {
        order::lemma_less_fields(f[1], seq!['-'], f2, g[1], g2);
    }
    order::lemma_less_fields(f[0], seq!['-'], f1, g[0], g1);
}

/// The text of an earlier day and time sorts before that of a later one.
proof fn stamp_order(
    s: (i32, u32, u32, u32, u32, u32),
    t: (i32, u32, u32, u32, u32, u32),
    sep: char,
)
    requires
        valid_time(s.0 as int, s.1 as int, s.2 as int, s.3 as int, s.4 as int, s.5 as int),
        valid_time(t.0 as int, t.1 as int, t.2 as int, t.3 as int, t.4 as int, t.5 as int),
        earlier(s, t),
        t.0 <= 9999,
    ensures
        order::less(stamp(s, sep), stamp(t, sep)),
{
    stamp_fields(s, sep);
    stamp_fields(t, sep);
    decimal::lemma_padded_4(s.0 as nat, t.0 as nat);
    decimal::lemma_padded_2(s.1 as nat, t.1 as nat);
    decimal::lemma_padded_2(s.2 as nat, t.2 as nat);
    decimal::lemma_padded_2(s.3 as nat, t.3 as nat);
    decimal::lemma_padded_2(s.4 as nat, t.4 as nat);
    decimal::lemma_padded_2(s.5 as nat, t.5 as nat);
    let k: int = if s.0 < t.0 {
        0
    } else if s.1 < t.1 {
        1
    } else if s.2 < t.2 {
        2
    } else if s.3 < t.3 {
        3
    } else if s.4 < t.4 {
        4
    } else {
        5
    };
    six_fields_order(fields(s), fields(t), k, sep);
}

/// Up to the year 9999 the text of an earlier second sorts before that of a later
/// one, whatever character stands between hours, minutes and seconds.
pub proof fn stamps_sort_by_time(a: int, b: int, sep: char)
    requires
        0 <= a < b,
        year_fits(b),
        time_of(b).0 <= 9999,
    ensures
        order::less(stamp(time_of(a), sep), stamp(time_of(b), sep)),
{
    every_second_has_a_time(a);
    every_second_has_a_time(b);
    let s = time_of(a);
    let t = time_of(b);
    if !earlier(s, t) {
        if earlier(t, s) {
            seconds_follow_fields(t, s, b, a);
        }
        assert(false);
    }
    stamp_order(s, t, sep);
}

/// Putting hyphens for the colons of a time gives the same time with hyphens.
pub proof fn stamp_with_hyphens(t: (i32, u32, u32, u32, u32, u32))
    requires
        valid_time(t.0 as int, t.1 as int, t.2 as int, t.3 as int, t.4 as int, t.5 as int),
    ensures
        text::replace(stamp(t, ':'), seq![':'], seq!['-']) == stamp(t, '-'),
{
    decimal::lemma_padded_digits(t.0 as nat, 4);
    decimal::lemma_padded_digits(t.1 as nat, 2);
    decimal::lemma_padded_digits(t.2 as nat, 2);
    decimal::lemma_padded_digits(t.3 as nat, 2);
    decimal::lemma_padded_digits(t.4 as nat, 2);
    decimal::lemma_padded_digits(t.5 as nat, 2);
    text::lemma_replace_char(stamp(t, ':'), ':', '-');
    assert(text::replace(stamp(t, ':'), seq![':'], seq!['-']) =~= stamp(t, '-'));
}

/// Up to the year 9999 the text of a day and time has the year in its first four characters
/// and the other fields in two characters each, at the places that the format gives them, and
/// each field is read back from its digits.
pub proof fn fields_are_read_back(t: (i32, u32, u32, u32, u32, u32), sep: char)
    requires
        valid_time(t.0 as int, t.1 as int, t.2 as int, t.3 as int, t.4 as int, t.5 as int),
        t.0 <= 9999,
    ensures
        ({
            let s = stamp(t, sep);
            &&& s.len() == 20
            &&& decimal::number_in(s.subrange(0, 4)) == t.0
            &&& decimal::number_in(s.subrange(5, 7)) == t.1
            &&& decimal::number_in(s.subrange(8, 10)) == t.2
            &&& decimal::number_in(s.subrange(11, 13)) == t.3
            &&& decimal::number_in(s.subrange(14, 16)) == t.4
            &&& decimal::number_in(s.subrange(17, 19)) == t.5
            &&& s[4] == '-' && s[7] == '-' && s[10] == 'T' && s[13] == sep && s[16] == sep
            &&& s[19] == 'Z'
        }),
{
    decimal::lemma_padded_4(t.0 as nat, t.0 as nat);
    decimal::lemma_padded_2(t.1 as nat, t.1 as nat);
    decimal::lemma_padded_2(t.2 as nat, t.2 as nat);
    decimal::lemma_padded_2(t.3 as nat, t.3 as nat);
    decimal::lemma_padded_2(t.4 as nat, t.4 as nat);
    decimal::lemma_padded_2(t.5 as nat, t.5 as nat);
    decimal::padding_keeps_the_number(t.0 as nat, 4);
    decimal::padding_keeps_the_number(t.1 as nat, 2);
    decimal::padding_keeps_the_number(t.2 as nat, 2);
    decimal::padding_keeps_the_number(t.3 as nat, 2);
    decimal::padding_keeps_the_number(t.4 as nat, 2);
    decimal::padding_keeps_the_number(t.5 as nat, 2);
    let s = stamp(t, sep);
    assert(s.subrange(0, 4) =~= decimal::padded(t.0 as nat, 4));
    assert(s.subrange(5, 7) =~= decimal::padded(t.1 as nat, 2));
    assert(s.subrange(8, 10) =~= decimal::padded(t.2 as nat, 2));
    assert(s.subrange(11, 13) =~= decimal::padded(t.3 as nat, 2));
    assert(s.subrange(14, 16) =~= decimal::padded(t.4 as nat, 2));
    assert(s.subrange(17, 19) =~= decimal::padded(t.5 as nat, 2));
}

/// The day after a day is the next of its month, the first of the next month, or the first of
/// the next year, each where the one before has ended.
pub proof fn days_follow_each_other(y: int, mo: int, d: int)
    requires
        1970 <= y,
        1 <= mo <= 12,
        1 <= d <= days_in_month(y, mo),
    ensures
        d < days_in_month(y, mo) ==> seconds_at(y, mo, d + 1, 0, 0, 0) == seconds_at(
            y,
            mo,
            d,
            0,
            0,
            0,
        ) + 86400,
        d == days_in_month(y, mo) && mo < 12 ==> seconds_at(y, mo + 1, 1, 0, 0, 0) == seconds_at(
            y,
            mo,
            d,
            0,
            0,
            0,
        ) + 86400,
        d == 31 && mo == 12 ==> seconds_at(y + 1, 1, 1, 0, 0, 0) == seconds_at(y, mo, d, 0, 0, 0)
            + 86400,
        seconds_at(1970, 1, 1, 0, 0, 0) == 0,
{
    days_before_year_step(y);
    days_before_year_step(1970);
    months_fill_year(y);
    assert(days_before_month(y, 13) == days_before_month(y, 12) + days_in_month(y, 12));
}

} // verus!
