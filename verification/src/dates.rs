//! How the time stamps of `fmt_unix_pub` order: the text follows the time,
//! to the minute.

use vstd::prelude::*;
use crate::format::{civil, unix_text};
use crate::order::text_lt;
use crate::text::{decimal, digit_char, zero_pad};

verus! {

/// The day number the calendar conversion starts from, for day `dn` after
/// the epoch.
pub open spec fn shifted(dn: int) -> int {
    dn + 2440588 + 68569
}

/// The century (counted from year -4900) that day `dn` falls in.
pub open spec fn century_of(dn: int) -> int {
    4 * shifted(dn) / 146097
}

/// The day within its century (counted from 1 March) of day `dn`.
pub open spec fn day_in_century(dn: int) -> int {
    shifted(dn) - (146097 * century_of(dn) + 3) / 4
}

/// Year within the century, month and day of the `p`-th day of a century.
pub open spec fn ymd_in_century(p: int) -> (int, int, int) {
    let y = 4000 * (p + 1) / 1461001;
    let p2 = p - 1461 * y / 4 + 31;
    let m = 80 * p2 / 2447;
    let d = p2 - 2447 * m / 80;
    (y + m / 11, m + 2 - 12 * (m / 11), d)
}

/// Year, month and day of day `dn` after the epoch.
pub open spec fn date_of(dn: int) -> (int, int, int) {
    let o = ymd_in_century(day_in_century(dn));
    (100 * (century_of(dn) - 49) + o.0, o.1, o.2)
}

/// Dates in calendar order.
pub open spec fn date_lt(a: (int, int, int), b: (int, int, int)) -> bool {
    a.0 < b.0 || (a.0 == b.0 && (a.1 < b.1 || (a.1 == b.1 && a.2 < b.2)))
}

/// The last day (counted from 0) of century `q`: centuries whose count is
/// a multiple of 4 end in a leap year and are a day longer.
pub open spec fn century_last(q: int) -> int {
    if q % 4 == 0 { 36524 } else { 36523 }
}

proof fn lemma_century_step(dn: int)
    requires
        dn >= 0,
    ensures
        0 <= day_in_century(dn) <= century_last(century_of(dn)),
        (century_of(dn + 1) == century_of(dn) && day_in_century(dn + 1) == day_in_century(dn) + 1)
            || (century_of(dn + 1) == century_of(dn) + 1 && day_in_century(dn + 1) == 0
                && day_in_century(dn) == century_last(century_of(dn))),
{
    let p0 = shifted(dn);
    let q = century_of(dn);
    let q1 = century_of(dn + 1);
    assert(146097 * q <= 4 * p0 < 146097 * q + 146097);
    assert(146097 * q1 <= 4 * p0 + 4 < 146097 * q1 + 146097);
    let f = (146097 * q + 3) / 4;
    assert(4 * f <= 146097 * q + 3 < 4 * f + 4);
    let g = (q + 3) / 4;
    assert(4 * g <= q + 3 < 4 * g + 4);
    assert(f == 36524 * q + g);
    let f2 = (146097 * (q + 1) + 3) / 4;
    assert(4 * f2 <= 146097 * (q + 1) + 3 < 4 * f2 + 4);
    let g2 = (q + 4) / 4;
    assert(4 * g2 <= q + 4 < 4 * g2 + 4);
    assert(f2 == 36524 * (q + 1) + g2);
    assert(q % 4 == 0 ==> g2 == g + 1);
    assert(q % 4 != 0 ==> g2 == g);
    assert(4 * p0 + 4 <= 146097 * (q + 1) ==> p0 + 1 <= f2);
    assert(p0 < f2);
    if q1 == q {
    } else {
        assert(q1 == q + 1);
        assert(p0 + 1 == f2);
    }
}

/// The parts of `ymd_in_century(p)` with their ranges: the year `y` of a
/// four-year count, the day `p2` from 1 March of that year, the month
/// count `m`.
proof fn lemma_in_century_parts(p: int)
    requires
        0 <= p <= 36524,
    ensures
        ({
            let y = 4000 * (p + 1) / 1461001;
            let p2 = p - 1461 * y / 4 + 31;
            let m = 80 * p2 / 2447;
            &&& 0 <= y <= 99
            &&& 31 <= p2 <= 396
            &&& 1 <= m <= 12
            &&& 0 <= p2 - 2447 * m / 80 <= 31
        }),
{
    let y = 4000 * (p + 1) / 1461001;
    assert(1461001 * y <= 4000 * (p + 1) < 1461001 * y + 1461001);
    let g = 1461 * y / 4;
    assert(4 * g <= 1461 * y < 4 * g + 4);
    let p2 = p - g + 31;
    let m = 80 * p2 / 2447;
    assert(2447 * m <= 80 * p2 < 2447 * m + 2447);
    let h = 2447 * m / 80;
    assert(80 * h <= 2447 * m < 80 * h + 80);
}

proof fn lemma_in_century_step(p: int)
    requires
        0 <= p < 36524,
    ensures
        date_lt(ymd_in_century(p), ymd_in_century(p + 1)),
{
    lemma_in_century_parts(p);
    lemma_in_century_parts(p + 1);
    let y = 4000 * (p + 1) / 1461001;
    let y1 = 4000 * (p + 2) / 1461001;
    assert(1461001 * y <= 4000 * (p + 1) < 1461001 * y + 1461001);
    assert(1461001 * y1 <= 4000 * (p + 2) < 1461001 * y1 + 1461001);
    let g = 1461 * y / 4;
    assert(4 * g <= 1461 * y < 4 * g + 4);
    let g1 = 1461 * y1 / 4;
    assert(4 * g1 <= 1461 * y1 < 4 * g1 + 4);
    let p2 = p - g + 31;
    let p21 = p + 1 - g1 + 31;
    let m = 80 * p2 / 2447;
    let m1 = 80 * p21 / 2447;
    assert(2447 * m <= 80 * p2 < 2447 * m + 2447);
    assert(2447 * m1 <= 80 * p21 < 2447 * m1 + 2447);
    let h = 2447 * m / 80;
    let h1 = 2447 * m1 / 80;
    assert(80 * h <= 2447 * m < 80 * h + 80);
    assert(80 * h1 <= 2447 * m1 < 80 * h1 + 80);
    if y1 == y {
        assert(p21 == p2 + 1);
        if m1 == m {
        } else {
            assert(m1 == m + 1);
            if m <= 9 {
            } else if m == 10 {
            } else {
                assert(m == 11);
            }
        }
    } else {
        assert(y1 == y + 1);
        assert(p2 >= 368);
        assert(m == 12);
        assert(p21 < 61);
        assert(m1 == 1);
    }
}

proof fn lemma_century_ends()
    ensures
        ymd_in_century(0) == (0int, 3int, 1int),
        ymd_in_century(36523).0 == 100 && ymd_in_century(36523).1 == 2,
        ymd_in_century(36524).0 == 100 && ymd_in_century(36524).1 == 2,
{
    assert(4000 * (0 + 1) / 1461001 == 0);
    assert(80 * 31 / 2447 == 1);
    assert(2447 * 1 / 80 == 30);
    assert(4000 * (36523 + 1) / 1461001 == 99);
    assert(4000 * (36524 + 1) / 1461001 == 99);
    assert(1461 * 99 / 4 == 36159);
    assert(80 * (36523 - 36159 + 31) / 2447 == 12);
    assert(80 * (36524 - 36159 + 31) / 2447 == 12);
}

/// The date of the next day is later.
proof fn lemma_date_step(dn: int)
    requires
        dn >= 0,
    ensures
        date_lt(date_of(dn), date_of(dn + 1)),
{
    lemma_century_step(dn);
    let p = day_in_century(dn);
    if century_of(dn + 1) == century_of(dn) {
        lemma_in_century_step(p);
    } else {
        lemma_century_ends();
    }
}

/// Later days have later dates.
pub proof fn lemma_date_increasing(d1: int, d2: int)
    requires
        0 <= d1 < d2,
    ensures
        date_lt(date_of(d1), date_of(d2)),
    decreases d2 - d1,
{
    lemma_date_step(d2 - 1);
    if d1 < d2 - 1 {
        lemma_date_increasing(d1, d2 - 1);
    }
}

/// The month and day of any date are in range.
pub proof fn lemma_date_ranges(dn: int)
    requires
        dn >= 0,
    ensures
        1 <= date_of(dn).1 <= 12,
        0 <= date_of(dn).2 <= 31,
{
    lemma_century_step(dn);
    lemma_in_century_parts(day_in_century(dn));
}

/// The date part of `civil` is the date of the day the second falls in.
proof fn lemma_civil_is_date(secs: nat)
    ensures
        civil(secs).0 == date_of((secs / 86400) as int).0,
        civil(secs).1 == date_of((secs / 86400) as int).1,
        civil(secs).2 == date_of((secs / 86400) as int).2,
        civil(secs).3 == (secs % 86400) / 3600,
        civil(secs).4 == ((secs % 86400) % 3600) / 60,
{
}

/// The dates up to the last day of year 9999 have years 1970 to 9999.
proof fn lemma_four_digit_years(dn: int)
    requires
        0 <= dn <= 2932896,
    ensures
        1970 <= date_of(dn).0 <= 9999,
{
    assert(century_of(0) == 68);
    assert(day_in_century(0) == 25508);
    assert(4000 * (25508 + 1) / 1461001 == 69);
    assert(1461 * 69 / 4 == 25202);
    assert(80 * (25508 - 25202 + 31) / 2447 == 11);
    assert(date_of(0).0 == 1970);
    assert(century_of(2932896) == 148);
    assert(day_in_century(2932896) == 36464);
    assert(4000 * (36464 + 1) / 1461001 == 99);
    assert(1461 * 99 / 4 == 36159);
    assert(80 * (36464 - 36159 + 31) / 2447 == 10);
    assert(date_of(2932896).0 == 9999);
    if dn > 0 {
        lemma_date_increasing(0, dn);
    }
    if dn < 2932896 {
        lemma_date_increasing(dn, 2932896);
    }
}

/// Leap years of the Gregorian calendar.
pub open spec fn is_leap(y: int) -> bool {
    y % 4 == 0 && (y % 100 != 0 || y % 400 == 0)
}

/// The number of days of month `m` of year `y`.
pub open spec fn month_len(y: int, m: int) -> int {
    if m == 2 {
        if is_leap(y) { 29 } else { 28 }
    } else if m == 4 || m == 6 || m == 9 || m == 11 {
        30
    } else {
        31
    }
}

/// The day after date `t` in the Gregorian calendar.
pub open spec fn next_date(t: (int, int, int)) -> (int, int, int) {
    if t.2 < month_len(t.0, t.1) {
        (t.0, t.1, t.2 + 1)
    } else if t.1 < 12 {
        (t.0, t.1 + 1, 1)
    } else {
        (t.0 + 1, 1, 1)
    }
}

/// The date of the `p`-th day of century `q`.
spec fn date_in(q: int, p: int) -> (int, int, int) {
    let o = ymd_in_century(p);
    (100 * (q - 49) + o.0, o.1, o.2)
}

/// The date of day `p2` (counted so that 1 March is 31) of the `y`-th
/// March-to-February year of century `q`.
spec fn md(q: int, y: int, p2: int) -> (int, int, int) {
    let m = 80 * p2 / 2447;
    (100 * (q - 49) + y + m / 11, m + 2 - 12 * (m / 11), p2 - 2447 * m / 80)
}

/// The length of February ending the `y`-th March-to-February year of
/// century `q`.
proof fn lemma_feb_len(q: int, y: int)
    requires
        0 <= y <= 99,
    ensures
        month_len(100 * (q - 49) + y + 1, 2) == 28 + if y == 99 {
            if q % 4 == 0 { 1int } else { 0 }
        } else {
            if (y + 1) % 4 == 0 { 1int } else { 0 }
        },
{
    let yy = 100 * (q - 49) + y + 1;
    let t = q / 4;
    let r = q % 4;
    assert(q == 4 * t + r && 0 <= r < 4);
    assert(yy == 4 * (100 * t + 25 * r - 1225) + (y + 1));
    assert(yy % 4 == (y + 1) % 4);
    if y == 99 {
        assert(yy == 400 * (t - 12) + 100 * r);
        assert(yy % 100 == 0);
        assert(yy % 400 == 100 * r);
    } else {
        assert(yy == 100 * (q - 49) + (y + 1));
        assert(yy % 100 == y + 1);
    }
}

proof fn lemma_md_next(q: int, y: int, p2: int, flen: int)
    requires
        0 <= y <= 99,
        31 <= p2,
        p2 + 1 <= 367 + flen,
        flen == month_len(100 * (q - 49) + y + 1, 2),
        28 <= flen <= 29,
    ensures
        md(q, y, p2 + 1) == next_date(md(q, y, p2)),
{
    let m = 80 * p2 / 2447;
    let m1 = 80 * (p2 + 1) / 2447;
    assert(2447 * m <= 80 * p2 < 2447 * m + 2447);
    assert(2447 * m1 <= 80 * (p2 + 1) < 2447 * m1 + 2447);
    let h = 2447 * m / 80;
    let h1 = 2447 * m1 / 80;
    assert(80 * h <= 2447 * m < 80 * h + 80);
    assert(80 * h1 <= 2447 * m1 < 80 * h1 + 80);
    assert(1 <= m <= 12);
    if m == 1 { assert(h == 30); }
    else if m == 2 { assert(h == 61); }
    else if m == 3 { assert(h == 91); }
    else if m == 4 { assert(h == 122); }
    else if m == 5 { assert(h == 152); }
    else if m == 6 { assert(h == 183); }
    else if m == 7 { assert(h == 214); }
    else if m == 8 { assert(h == 244); }
    else if m == 9 { assert(h == 275); }
    else if m == 10 { assert(h == 305); }
    else if m == 11 { assert(h == 336); }
    else { assert(h == 367); }
    if m1 == m + 1 {
        if m1 == 2 { assert(h1 == 61); }
        else if m1 == 3 { assert(h1 == 91); }
        else if m1 == 4 { assert(h1 == 122); }
        else if m1 == 5 { assert(h1 == 152); }
        else if m1 == 6 { assert(h1 == 183); }
        else if m1 == 7 { assert(h1 == 214); }
        else if m1 == 8 { assert(h1 == 244); }
        else if m1 == 9 { assert(h1 == 275); }
        else if m1 == 10 { assert(h1 == 305); }
        else if m1 == 11 { assert(h1 == 336); }
        else { assert(m1 == 12); assert(h1 == 367); }
    } else {
        assert(m1 == m);
    }
}

proof fn lemma_md_year_end(q: int, y: int, flen: int)
    requires
        0 <= y <= 99,
        flen == month_len(100 * (q - 49) + y + 1, 2),
        28 <= flen <= 29,
    ensures
        md(q, y, 367 + flen) == (100 * (q - 49) + y + 1, 2int, flen),
        next_date(md(q, y, 367 + flen)) == md(q, y + 1, 31),
{
    if flen == 28 {
        assert(80 * (367 + 28) / 2447 == 12);
    } else {
        assert(80 * (367 + 29) / 2447 == 12);
    }
    assert(2447 * 12 / 80 == 367);
    assert(12int / 11 == 1);
    assert(80 * 31 / 2447 == 1);
    assert(2447 * 1 / 80 == 30);
    assert(1int / 11 == 0);
}

proof fn lemma_in_century_next(q: int, p: int)
    requires
        0 <= p < century_last(q),
    ensures
        date_in(q, p + 1) == next_date(date_in(q, p)),
{
    lemma_in_century_parts(p);
    lemma_in_century_parts(p + 1);
    let y = 4000 * (p + 1) / 1461001;
    let y1 = 4000 * (p + 2) / 1461001;
    assert(1461001 * y <= 4000 * (p + 1) < 1461001 * y + 1461001);
    assert(1461001 * y1 <= 4000 * (p + 2) < 1461001 * y1 + 1461001);
    let g = 1461 * y / 4;
    assert(4 * g <= 1461 * y < 4 * g + 4);
    let g1 = 1461 * y1 / 4;
    assert(4 * g1 <= 1461 * y1 < 4 * g1 + 4);
    let k = y / 4;
    assert(4 * k <= y < 4 * k + 4);
    assert(g == 365 * y + k);
    let p2 = p - g + 31;
    assert(date_in(q, p) == md(q, y, p2));
    lemma_feb_len(q, y);
    let flen = month_len(100 * (q - 49) + y + 1, 2);
    if y1 == y {
        assert(date_in(q, p + 1) == md(q, y, p2 + 1));
        if y <= 98 {
            let gn = 1461 * (y + 1) / 4;
            assert(4 * gn <= 1461 * (y + 1) < 4 * gn + 4);
            let kn = (y + 1) / 4;
            assert(4 * kn <= y + 1 < 4 * kn + 4);
            assert(gn == 365 * (y + 1) + kn);
            assert(p + 1 < gn);
            assert((y + 1) % 4 == 0 <==> kn == k + 1);
            assert(kn == k || kn == k + 1);
        } else {
            assert(g == 36159);
        }
        lemma_md_next(q, y, p2, flen);
    } else {
        assert(y1 == y + 1);
        let kn = (y + 1) / 4;
        assert(4 * kn <= y + 1 < 4 * kn + 4);
        assert(g1 == 365 * (y + 1) + kn);
        assert(p + 1 == g1);
        assert(y <= 98);
        assert((y + 1) % 4 == 0 <==> kn == k + 1);
        assert(kn == k || kn == k + 1);
        assert(p2 == 367 + flen);
        assert(date_in(q, p + 1) == md(q, y + 1, 31));
        lemma_md_year_end(q, y, flen);
    }
}

/// The date of the day after day `dn` is the next Gregorian date.
proof fn lemma_date_next(dn: int)
    requires
        dn >= 0,
    ensures
        date_of(dn + 1) == next_date(date_of(dn)),
{
    lemma_century_step(dn);
    lemma_century_step(dn + 1);
    let q = century_of(dn);
    let p = day_in_century(dn);
    assert(date_of(dn) == date_in(q, p));
    if century_of(dn + 1) == q {
        assert(date_of(dn + 1) == date_in(q, p + 1));
        lemma_in_century_next(q, p);
    } else {
        lemma_century_ends();
        assert(4000 * (36523 + 1) / 1461001 == 99);
        assert(4000 * (36524 + 1) / 1461001 == 99);
        assert(1461 * 99 / 4 == 36159);
        lemma_feb_len(q, 99);
        let flen = month_len(100 * (q - 49) + 99 + 1, 2);
        assert(p - 36159 + 31 == 367 + flen);
        assert(date_in(q, p) == md(q, 99, 367 + flen));
        lemma_md_year_end(q, 99, flen);
        assert(80 * 31 / 2447 == 1);
        assert(2447 * 1 / 80 == 30);
        assert(date_of(dn + 1) == date_in(q + 1, 0));
    }
}

/// Every date is a real Gregorian date: its day is within its month.
proof fn lemma_date_valid(dn: int)
    requires
        dn >= 0,
    ensures
        1 <= date_of(dn).1 <= 12,
        1 <= date_of(dn).2 <= month_len(date_of(dn).0, date_of(dn).1),
    decreases dn,
{
    if dn == 0 {
        lemma_epoch_date();
    } else {
        lemma_date_valid(dn - 1);
        lemma_date_next(dn - 1);
    }
}

proof fn lemma_epoch_date()
    ensures
        date_of(0) == (1970int, 1int, 1int),
{
    assert(century_of(0) == 68);
    assert(day_in_century(0) == 25508);
    assert(4000 * (25508 + 1) / 1461001 == 69);
    assert(1461 * 69 / 4 == 25202);
    assert(80 * (25508 - 25202 + 31) / 2447 == 11);
    assert(2447 * 11 / 80 == 336);
}

/// Law: the date `fmt_unix_pub` writes is the proleptic Gregorian date of
/// the day (UTC): the epoch falls on 1970-01-01, each day's date is a
/// valid one, and a day later is the next date of the calendar.
pub proof fn law_gregorian_dates(secs: nat)
    ensures
        (civil(0).0, civil(0).1, civil(0).2) == (1970int, 1int, 1int),
        1 <= civil(secs).1 <= 12,
        1 <= civil(secs).2 <= month_len(civil(secs).0, civil(secs).1),
        (civil(secs + 86400).0, civil(secs + 86400).1, civil(secs + 86400).2)
            == next_date((civil(secs).0, civil(secs).1, civil(secs).2)),
{
    lemma_civil_is_date(0);
    lemma_epoch_date();
    lemma_civil_is_date(secs);
    let s1 = (secs + 86400) as nat;
    lemma_civil_is_date(s1);
    assert(s1 / 86400 == secs / 86400 + 1);
    lemma_date_valid((secs / 86400) as int);
    lemma_date_next((secs / 86400) as int);
}

/// Two decimal digits of `k` (below 100).
pub open spec fn two(k: int) -> Seq<char> {
    seq![digit_char(k / 10), digit_char(k % 10)]
}

proof fn lemma_pad2(n: nat)
    requires
        n < 100,
    ensures
        zero_pad(decimal(n), 2) == two(n as int),
{
    reveal_with_fuel(decimal, 3);
    if n < 10 {
        assert(zero_pad(decimal(n), 2) =~= two(n as int));
    } else {
        assert(decimal(n) == decimal(n / 10).push(digit_char((n % 10) as int)));
        assert(zero_pad(decimal(n), 2) =~= two(n as int));
    }
}

proof fn lemma_pad4(n: nat)
    requires
        n < 10000,
    ensures
        zero_pad(decimal(n), 4) == two((n / 100) as int) + two((n % 100) as int),
{
    reveal_with_fuel(decimal, 5);
    if n < 10 {
        assert(zero_pad(decimal(n), 4) =~= two((n / 100) as int) + two((n % 100) as int));
    } else if n < 100 {
        assert(decimal(n) == decimal(n / 10).push(digit_char((n % 10) as int)));
        assert(zero_pad(decimal(n), 4) =~= two((n / 100) as int) + two((n % 100) as int));
    } else if n < 1000 {
        assert(decimal(n) == decimal(n / 10).push(digit_char((n % 10) as int)));
        assert(decimal(n / 10) == decimal(n / 10 / 10).push(digit_char((n / 10 % 10) as int)));
        assert(zero_pad(decimal(n), 4) =~= two((n / 100) as int) + two((n % 100) as int));
    } else {
        assert(decimal(n) == decimal(n / 10).push(digit_char((n % 10) as int)));
        assert(decimal(n / 10) == decimal(n / 10 / 10).push(digit_char((n / 10 % 10) as int)));
        assert(decimal(n / 10 / 10) == decimal(n / 10 / 10 / 10).push(digit_char((n / 10 / 10 % 10) as int)));
        assert(zero_pad(decimal(n), 4) =~= two((n / 100) as int) + two((n % 100) as int));
    }
}

proof fn lemma_lt_concat(a1: Seq<char>, a2: Seq<char>, r1: Seq<char>, r2: Seq<char>)
    requires
        a1.len() == a2.len(),
    ensures
        text_lt(a1, a2) ==> text_lt(a1 + r1, a2 + r2),
        a1 == a2 ==> (text_lt(a1 + r1, a2 + r2) == text_lt(r1, r2)),
    decreases a1.len(),
{
    if a1.len() == 0 {
        assert(a1 + r1 =~= r1);
        assert(a2 + r2 =~= r2);
    } else {
        lemma_lt_concat(a1.drop_first(), a2.drop_first(), r1, r2);
        assert((a1 + r1).drop_first() =~= a1.drop_first() + r1);
        assert((a2 + r2).drop_first() =~= a2.drop_first() + r2);
        assert((a1 + r1)[0] == a1[0]);
        assert((a2 + r2)[0] == a2[0]);
        if a1 == a2 {
            assert(a1.drop_first() == a2.drop_first());
        }
    }
}

proof fn lemma_digit_lt(x: int, y: int)
    requires
        0 <= x < y <= 9,
    ensures
        digit_char(x) < digit_char(y),
{
}

proof fn lemma_two_lt(a: int, b: int)
    requires
        0 <= a < b < 100,
    ensures
        text_lt(two(a), two(b)),
{
    reveal_with_fuel(text_lt, 3);
    if a / 10 < b / 10 {
        lemma_digit_lt(a / 10, b / 10);
    } else {
        assert(a / 10 == b / 10);
        lemma_digit_lt(a % 10, b % 10);
        assert(two(a).drop_first() =~= seq![digit_char(a % 10)]);
        assert(two(b).drop_first() =~= seq![digit_char(b % 10)]);
    }
}

/// Year, month, day, hour and minute in time order.
pub open spec fn stamp_lt(a: (int, int, int, int, int), b: (int, int, int, int, int)) -> bool {
    date_lt((a.0, a.1, a.2), (b.0, b.1, b.2)) || (a.0 == b.0 && a.1 == b.1 && a.2 == b.2 && (a.3 < b.3
        || (a.3 == b.3 && a.4 < b.4)))
}

/// Every part fits its field: four digits of year, two of the others.
pub open spec fn stamp_fits(t: (int, int, int, int, int)) -> bool {
    0 <= t.0 < 10000 && 0 <= t.1 < 100 && 0 <= t.2 < 100 && 0 <= t.3 < 100 && 0 <= t.4 < 100
}

spec fn tail_mi(t: (int, int, int, int, int)) -> Seq<char> {
    seq![':'] + two(t.4)
}

spec fn tail_h(t: (int, int, int, int, int)) -> Seq<char> {
    seq![' '] + (two(t.3) + tail_mi(t))
}

spec fn tail_d(t: (int, int, int, int, int)) -> Seq<char> {
    seq!['-'] + (two(t.2) + tail_h(t))
}

spec fn tail_mo(t: (int, int, int, int, int)) -> Seq<char> {
    seq!['-'] + (two(t.1) + tail_d(t))
}

/// `"YYYY-MM-DD HH:MM"` for the parts `t`.
spec fn layout(t: (int, int, int, int, int)) -> Seq<char> {
    two(t.0 / 100) + (two(t.0 % 100) + tail_mo(t))
}

proof fn lemma_layout_lt(t1: (int, int, int, int, int), t2: (int, int, int, int, int))
    requires
        stamp_fits(t1),
        stamp_fits(t2),
        stamp_lt(t1, t2),
    ensures
        text_lt(layout(t1), layout(t2)),
{
    let (y1, y2) = (t1.0, t2.0);
    if y1 != y2 {
        if y1 / 100 < y2 / 100 {
            lemma_two_lt(y1 / 100, y2 / 100);
            lemma_lt_concat(two(y1 / 100), two(y2 / 100), two(y1 % 100) + tail_mo(t1), two(y2 % 100) + tail_mo(t2));
        } else {
            assert(y1 / 100 == y2 / 100);
            lemma_two_lt(y1 % 100, y2 % 100);
            lemma_lt_concat(two(y1 / 100), two(y2 / 100), two(y1 % 100) + tail_mo(t1), two(y2 % 100) + tail_mo(t2));
            lemma_lt_concat(two(y1 % 100), two(y2 % 100), tail_mo(t1), tail_mo(t2));
        }
    } else {
        lemma_lt_concat(two(y1 / 100), two(y2 / 100), two(y1 % 100) + tail_mo(t1), two(y2 % 100) + tail_mo(t2));
        lemma_lt_concat(two(y1 % 100), two(y2 % 100), tail_mo(t1), tail_mo(t2));
        lemma_lt_concat(seq!['-'], seq!['-'], two(t1.1) + tail_d(t1), two(t2.1) + tail_d(t2));
        if t1.1 != t2.1 {
            lemma_two_lt(t1.1, t2.1);
            lemma_lt_concat(two(t1.1), two(t2.1), tail_d(t1), tail_d(t2));
        } else {
            lemma_lt_concat(two(t1.1), two(t2.1), tail_d(t1), tail_d(t2));
            lemma_lt_concat(seq!['-'], seq!['-'], two(t1.2) + tail_h(t1), two(t2.2) + tail_h(t2));
            if t1.2 != t2.2 {
                lemma_two_lt(t1.2, t2.2);
                lemma_lt_concat(two(t1.2), two(t2.2), tail_h(t1), tail_h(t2));
            } else {
                lemma_lt_concat(two(t1.2), two(t2.2), tail_h(t1), tail_h(t2));
                lemma_lt_concat(seq![' '], seq![' '], two(t1.3) + tail_mi(t1), two(t2.3) + tail_mi(t2));
                if t1.3 != t2.3 {
                    lemma_two_lt(t1.3, t2.3);
                    lemma_lt_concat(two(t1.3), two(t2.3), tail_mi(t1), tail_mi(t2));
                } else {
                    lemma_lt_concat(two(t1.3), two(t2.3), tail_mi(t1), tail_mi(t2));
                    lemma_lt_concat(seq![':'], seq![':'], two(t1.4), two(t2.4));
                    lemma_two_lt(t1.4, t2.4);
                }
            }
        }
    }
}

/// Day, hour and minute of a second depend only on its minute `secs / 60`.
proof fn lemma_minute_parts(secs: nat)
    ensures
        secs / 86400 == (secs / 60) / 1440,
        (secs % 86400) / 3600 == ((secs / 60) % 1440) / 60,
        ((secs % 86400) % 3600) / 60 == (secs / 60) % 60,
{
    let k = secs / 60;
    let r = secs % 60;
    let dn = k / 1440;
    let t = k % 1440;
    let h = t / 60;
    let mi = t % 60;
    assert(secs == 60 * k + r);
    assert(k == 1440 * dn + t);
    assert(t == 60 * h + mi);
    assert(secs == 86400 * dn + 3600 * h + 60 * mi + r);
    assert(secs / 86400 == dn);
    assert(secs % 86400 == 3600 * h + 60 * mi + r);
    assert((secs % 86400) / 3600 == h);
    assert((secs % 86400) % 3600 == 60 * mi + r);
    assert(((secs % 86400) % 3600) / 60 == mi);
}

/// The parts `civil` gives for `secs`.
spec fn parts(secs: nat) -> (int, int, int, int, int) {
    civil(secs)
}

/// The stamp text of parts `t`, written as `unix_text` writes it.
spec fn stamp_text(t: (int, int, int, int, int)) -> Seq<char> {
    zero_pad(decimal(t.0 as nat), 4) + seq!['-'] + zero_pad(decimal(t.1 as nat), 2) + seq!['-']
        + zero_pad(decimal(t.2 as nat), 2) + seq![' '] + zero_pad(decimal(t.3 as nat), 2) + seq![':']
        + zero_pad(decimal(t.4 as nat), 2)
}

proof fn lemma_regroup(a: Seq<char>, b: Seq<char>, c: Seq<char>, d: Seq<char>, e: Seq<char>, s1: char, s2: char, s3: char, s4: char)
    ensures
        a + seq![s1] + b + seq![s2] + c + seq![s3] + d + seq![s4] + e
            == a + (seq![s1] + (b + (seq![s2] + (c + (seq![s3] + (d + (seq![s4] + e))))))),
{
    let t4 = seq![s4] + e;
    let t3 = d + t4;
    let u3 = seq![s3] + t3;
    let t2 = c + u3;
    let u2 = seq![s2] + t2;
    let t1 = b + u2;
    let u1 = seq![s1] + t1;
    vstd::seq_lib::lemma_concat_associative(d, seq![s4], e);
    vstd::seq_lib::lemma_concat_associative(seq![s3], d + seq![s4], e);
    vstd::seq_lib::lemma_concat_associative(seq![s3], d, seq![s4]);
    assert(a + seq![s1] + b + seq![s2] + c + seq![s3] + d + seq![s4] + e =~= a + u1);
}

proof fn lemma_stamp_text_layout(t: (int, int, int, int, int))
    requires
        stamp_fits(t),
    ensures
        stamp_text(t) == layout(t),
{
    let a = zero_pad(decimal(t.0 as nat), 4);
    let b = zero_pad(decimal(t.1 as nat), 2);
    let c = zero_pad(decimal(t.2 as nat), 2);
    let d = zero_pad(decimal(t.3 as nat), 2);
    let e = zero_pad(decimal(t.4 as nat), 2);
    lemma_regroup(a, b, c, d, e, '-', '-', ' ', ':');
    lemma_pad4(t.0 as nat);
    lemma_pad2(t.1 as nat);
    lemma_pad2(t.2 as nat);
    lemma_pad2(t.3 as nat);
    lemma_pad2(t.4 as nat);
    let r = seq!['-'] + (b + (seq!['-'] + (c + (seq![' '] + (d + (seq![':'] + e))))));
    assert(r == tail_mo(t));
    vstd::seq_lib::lemma_concat_associative(two(t.0 / 100), two(t.0 % 100), r);
}

proof fn lemma_unix_layout(secs: nat)
    requires
        secs < 253402300800,
    ensures
        stamp_fits(parts(secs)),
        unix_text(secs) == layout(parts(secs)),
{
    lemma_civil_is_date(secs);
    let dn = (secs / 86400) as int;
    lemma_four_digit_years(dn);
    lemma_date_ranges(dn);
    let t = parts(secs);
    assert(t.3 < 24);
    assert(t.4 < 60);
    assert(unix_text(secs) == stamp_text(t));
    lemma_stamp_text_layout(t);
}

/// Law: the time stamp text drops the seconds, is the same for two times
/// in the same minute, and sorts (as text) strictly before the text of any
/// later minute, for all times before the year 10000.
pub proof fn law_stamp_text_order(s1: nat, s2: nat)
    requires
        s1 <= s2 < 253402300800,
    ensures
        unix_text(s1) == unix_text((s1 - s1 % 60) as nat),
        s1 / 60 == s2 / 60 ==> unix_text(s1) == unix_text(s2),
        s1 / 60 < s2 / 60 ==> text_lt(unix_text(s1), unix_text(s2)),
{
    let s0 = (s1 - s1 % 60) as nat;
    assert(s0 / 60 == s1 / 60);
    lemma_minute_parts(s0);
    lemma_minute_parts(s1);
    lemma_minute_parts(s2);
    assert(civil(s0) == civil(s1));
    if s1 / 60 == s2 / 60 {
        assert(civil(s1) == civil(s2));
    } else if s1 / 60 < s2 / 60 {
        lemma_unix_layout(s1);
        lemma_unix_layout(s2);
        lemma_civil_is_date(s1);
        lemma_civil_is_date(s2);
        let d1 = (s1 / 86400) as int;
        let d2 = (s2 / 86400) as int;
        if d1 < d2 {
            lemma_date_increasing(d1, d2);
        } else {
            assert(d1 == d2);
        }
        assert(stamp_lt(parts(s1), parts(s2)));
        lemma_layout_lt(parts(s1), parts(s2));
    }
}

} // verus!
