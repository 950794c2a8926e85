//! Human-readable sizes and timestamps.

use vstd::prelude::*;
use crate::text::{decimal, digit_char, zero_pad, push_decimal, push_padded, push_str};

verus! {

pub const KB: u64 = 1024;
pub const MB: u64 = 1048576;
pub const GB: u64 = 1073741824;

/// The nearest integer to `n / d`, ties going to the even neighbour.
pub open spec fn round_half_even(n: int, d: int) -> int
    recommends
        n >= 0,
        d > 0,
{
    let q = n / d;
    let r = n % d;
    if 2 * r < d {
        q
    } else if 2 * r > d {
        q + 1
    } else if q % 2 == 0 {
        q
    } else {
        q + 1
    }
}

/// The spacing of `f64` values around `b`: 1 below 2^53, doubling with
/// each further bit of `b`.
pub open spec fn f64_grain(b: nat) -> nat
    decreases b,
{
    if b < 0x20_0000_0000_0000 {
        1
    } else {
        2 * f64_grain(b / 2)
    }
}

/// The value of `b as f64`: `b` rounded to the nearest multiple of its
/// grain, ties to even.
pub open spec fn as_f64(b: nat) -> int {
    round_half_even(b as int, f64_grain(b) as int) * f64_grain(b)
}

/// `t` tenths written with one decimal: `"12.3"` for 123.
pub open spec fn one_decimal(t: nat) -> Seq<char> {
    decimal(t / 10) + seq!['.', digit_char((t % 10) as int)]
}

/// `b / unit` (computed as `f64`) written with one decimal, as `{:.1}` does.
pub open spec fn scaled(b: u64, unit: u64) -> Seq<char> {
    one_decimal(round_half_even(10 * as_f64(b as nat), unit as int) as nat)
}

/// The text `fmt_size` gives for `b` bytes.
pub open spec fn size_text(b: u64) -> Seq<char> {
    if b >= GB {
        scaled(b, GB) + seq![' ', 'G', 'B']
    } else if b >= MB {
        scaled(b, MB) + seq![' ', 'M', 'B']
    } else if b >= KB {
        scaled(b, KB) + seq![' ', 'K', 'B']
    } else {
        decimal(b as nat) + seq![' ', 'B']
    }
}

proof fn lemma_grain_step(g: nat, x: nat, b: nat)
    requires
        x >= 0x20_0000_0000_0000,
        g * x <= b,
        b < 0x1_0000_0000_0000_0000,
        g >= 1,
    ensures
        g * f64_grain(x) == (2 * g) * f64_grain(x / 2),
        (2 * g) * (x / 2) <= b,
        2 * g <= 4096,
{
    assert(f64_grain(x) == 2 * f64_grain(x / 2));
    let h = f64_grain(x / 2);
    assert(g * (2 * h) == (2 * g) * h) by (nonlinear_arith);
    assert((2 * g) * (x / 2) <= g * x) by (nonlinear_arith);
    assert(g * 0x20_0000_0000_0000 <= g * x) by (nonlinear_arith)
        requires
            x >= 0x20_0000_0000_0000,
    ;
}

/// The `f64` value nearest to `b`, as an integer (it may be 2^64).
fn u64_as_f64(b: u64) -> (f: u128)
    ensures
        f == as_f64(b as nat),
        f <= 0x1_0000_0000_0000_1000,
{
    let mut x: u64 = b;
    let mut g: u128 = 1;
    while x >= 0x20_0000_0000_0000
        invariant
            1 <= g <= 4096,
            g * (x as nat) <= b,
            f64_grain(b as nat) == g * f64_grain(x as nat),
        decreases x,
    {
        proof {
            lemma_grain_step(g as nat, x as nat, b as nat);
        }
        x = x / 2;
        g = g * 2;
    }
    assert(f64_grain(x as nat) == 1);
    assert(g * f64_grain(x as nat) == g) by (nonlinear_arith)
        requires
            f64_grain(x as nat) == 1,
    ;
    let wide: u128 = b as u128;
    let q: u128 = wide / g;
    let r: u128 = wide % g;
    let k: u128 = if 2 * r < g {
        q
    } else if 2 * r > g {
        q + 1
    } else if q % 2 == 0 {
        q
    } else {
        q + 1
    };
    assert(q * g <= wide) by (nonlinear_arith)
        requires
            q == wide / g,
            g >= 1,
    ;
    assert(k * g <= wide + g) by (nonlinear_arith)
        requires
            k <= q + 1,
            q * g <= wide,
    ;
    k * g
}

/// Appends `b / unit` with one decimal, as `format!("{:.1}", b as f64 / unit as f64)` does.
fn push_scaled(s: &mut String, b: u64, unit: u64)
    requires
        unit == KB || unit == MB || unit == GB,
    ensures
        final(s)@ == old(s)@ + scaled(b, unit),
{
    let f = u64_as_f64(b);
    let n: u128 = 10 * f;
    let d: u128 = unit as u128;
    let q: u128 = n / d;
    let r: u128 = n % d;
    assert(q * 1024 <= n) by (nonlinear_arith)
        requires
            q == n / d,
            d >= 1024,
    ;
    let t: u128 = if 2 * r < d {
        q
    } else if 2 * r > d {
        q + 1
    } else if q % 2 == 0 {
        q
    } else {
        q + 1
    };
    let ghost tt = round_half_even(10 * as_f64(b as nat), unit as int);
    assert(t == tt);
    push_decimal(s, (t / 10) as u64);
    s.push('.');
    let last: u8 = (t % 10) as u8;
    s.push((last + 48) as char);
    assert(s@ == old(s)@ + one_decimal(t as nat));
}

/// Renders a byte count: plain bytes below 1 KiB, otherwise KB, MB or GB
/// (powers of 1024) with one decimal.
pub fn fmt_size(bytes: u64) -> (res: String)
    ensures
        res@ == size_text(bytes),
{
    let mut s = String::new();
    if bytes >= GB {
        push_scaled(&mut s, bytes, GB);
        push_str(&mut s, " GB");
        proof { reveal_strlit(" GB"); }
    } else if bytes >= MB {
        push_scaled(&mut s, bytes, MB);
        push_str(&mut s, " MB");
        proof { reveal_strlit(" MB"); }
    } else if bytes >= KB {
        push_scaled(&mut s, bytes, KB);
        push_str(&mut s, " KB");
        proof { reveal_strlit(" KB"); }
    } else {
        push_decimal(&mut s, bytes);
        push_str(&mut s, " B");
        proof { reveal_strlit(" B"); }
    }
    s
}

/// Calendar date and time of day for `secs` seconds after the Unix epoch,
/// by the Fliegel–Van Flandern Julian-day conversion:
/// `(year, month, day, hour, minute)`.
pub open spec fn civil(secs: nat) -> (int, int, int, int, int) {
    let days = secs / 86400;
    let rem = secs % 86400;
    let hour = rem / 3600;
    let minute = (rem % 3600) / 60;
    let jd = days + 2440588;
    let p0 = jd + 68569;
    let q = 4 * p0 / 146097;
    let p1 = p0 - (146097 * q + 3) / 4;
    let y = 4000 * (p1 + 1) / 1461001;
    let p2 = p1 - 1461 * y / 4 + 31;
    let m = 80 * p2 / 2447;
    let d = p2 - 2447 * m / 80;
    let m2 = m + 2 - 12 * (m / 11);
    let y2 = 100 * (q - 49) + y + m / 11;
    (y2, m2, d, hour as int, minute as int)
}

/// `"YYYY-MM-DD HH:MM"` for `secs` seconds after the Unix epoch.
pub open spec fn unix_text(secs: nat) -> Seq<char> {
    let (y, mo, d, h, mi) = civil(secs);
    zero_pad(decimal(y as nat), 4) + seq!['-'] + zero_pad(decimal(mo as nat), 2) + seq!['-']
        + zero_pad(decimal(d as nat), 2) + seq![' '] + zero_pad(decimal(h as nat), 2) + seq![':']
        + zero_pad(decimal(mi as nat), 2)
}

/// Formats a Unix timestamp as `"YYYY-MM-DD HH:MM"` (UTC).
pub fn fmt_unix_pub(secs: u64) -> (res: String)
    ensures
        res@ == unix_text(secs as nat),
        civil(secs as nat).0 >= 1970,
        1 <= civil(secs as nat).1 <= 12,
        0 <= civil(secs as nat).2,
        0 <= civil(secs as nat).3 < 24,
        0 <= civil(secs as nat).4 < 60,
{
    let days: u64 = secs / 86400;
    let rem: u64 = secs % 86400;
    let hour: u64 = rem / 3600;
    let minute: u64 = (rem % 3600) / 60;
    let jd: u64 = days + 2440588;
    let p0: u64 = jd + 68569;
    let q: u64 = 4 * p0 / 146097;
    assert(146097 * q <= 4 * p0);
    let p1: u64 = p0 - (146097 * q + 3) / 4;
    assert(p1 <= 36525);
    let y: u64 = 4000 * (p1 + 1) / 1461001;
    assert(1461 * y <= 4 * (p1 + 1));
    let p2: u64 = p1 - 1461 * y / 4 + 31;
    let m: u64 = 80 * p2 / 2447;
    assert(2447 * m <= 80 * p2);
    let d: u64 = p2 - 2447 * m / 80;
    let m2: u64 = m + 2 - 12 * (m / 11);
    let y2: u64 = 100 * (q - 49) + y + m / 11;
    let mut s = String::new();
    push_padded(&mut s, y2, 4);
    s.push('-');
    push_padded(&mut s, m2, 2);
    s.push('-');
    push_padded(&mut s, d, 2);
    s.push(' ');
    push_padded(&mut s, hour, 2);
    s.push(':');
    push_padded(&mut s, minute, 2);
    s
}

/// A file time as the explorer reads it: before the Unix epoch, or a
/// whole number of seconds after it.
#[derive(Clone, Copy, Debug, PartialEq, Eq, Structural)]
pub enum Stamp {
    BeforeEpoch,
    Secs(u64),
}

/// Seconds after the epoch, when the time is not before it.
pub open spec fn stamp_secs(t: Option<Stamp>) -> Option<u64> {
    match t {
        Some(Stamp::Secs(s)) => Some(s),
        _ => None,
    }
}

/// The text `fmt_system_time` gives: an em dash when the time is unknown,
/// the epoch itself for a time before it.
pub open spec fn system_time_text(t: Option<Stamp>) -> Seq<char> {
    match t {
        None => seq!['\u{2014}'],
        Some(Stamp::BeforeEpoch) => unix_text(0),
        Some(Stamp::Secs(s)) => unix_text(s as nat),
    }
}

/// Formats an optional file time; unknown times show as an em dash and
/// times before the epoch as the epoch.
pub fn fmt_system_time(t: Option<Stamp>) -> (res: String)
    ensures
        res@ == system_time_text(t),
{
    match t {
        None => {
            let mut s = String::new();
            s.push('\u{2014}');
            s
        },
        Some(Stamp::BeforeEpoch) => fmt_unix_pub(0),
        Some(Stamp::Secs(secs)) => fmt_unix_pub(secs),
    }
}

/// The modification column of a row: the formatted time, or nothing when
/// it is unknown or before the epoch.
pub open spec fn modified_text(t: Option<Stamp>) -> Seq<char> {
    match stamp_secs(t) {
        Some(s) => unix_text(s as nat),
        None => Seq::empty(),
    }
}

/// Text for a row's modification time (empty when unknown).
pub fn fmt_modified(t: Option<Stamp>) -> (res: String)
    ensures
        res@ == modified_text(t),
{
    match t {
        Some(Stamp::Secs(secs)) => fmt_unix_pub(secs),
        _ => String::new(),
    }
}

} // verus!
