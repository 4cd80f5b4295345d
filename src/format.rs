//! Human-readable text for byte counts, uptimes and device identities.
use vstd::prelude::*;
use vstd::string::*;

verus! {

/// The character of a decimal digit `d` (0 to 9).
pub open spec fn digit_char(d: int) -> char {
    if d == 0 {
        '0'
    } else if d == 1 {
        '1'
    } else if d == 2 {
        '2'
    } else if d == 3 {
        '3'
    } else if d == 4 {
        '4'
    } else if d == 5 {
        '5'
    } else if d == 6 {
        '6'
    } else if d == 7 {
        '7'
    } else if d == 8 {
        '8'
    } else {
        '9'
    }
}

/// The decimal digits of `n`, without leading zeros.
pub open spec fn decimal(n: nat) -> Seq<char>
    decreases n,
{
    if n < 10 {
        seq![digit_char(n as int)]
    } else {
        decimal(n / 10).push(digit_char((n % 10) as int))
    }
}

/// A decimal integer with a leading minus sign when it is negative.
pub open spec fn signed_decimal(x: int) -> Seq<char> {
    if x < 0 {
        "-"@ + decimal((-x) as nat)
    } else {
        decimal(x as nat)
    }
}

fn digit_str(d: u128) -> (r: &'static str)
    requires
        d < 10,
    ensures
        r@ == seq![digit_char(d as int)],
{
    proof {
        reveal_strlit("0");
        reveal_strlit("1");
        reveal_strlit("2");
        reveal_strlit("3");
        reveal_strlit("4");
        reveal_strlit("5");
        reveal_strlit("6");
        reveal_strlit("7");
        reveal_strlit("8");
        reveal_strlit("9");
    }
    let r = if d == 0 {
        "0"
    } else if d == 1 {
        "1"
    } else if d == 2 {
        "2"
    } else if d == 3 {
        "3"
    } else if d == 4 {
        "4"
    } else if d == 5 {
        "5"
    } else if d == 6 {
        "6"
    } else if d == 7 {
        "7"
    } else if d == 8 {
        "8"
    } else {
        "9"
    };
    assert(r@ =~= seq![digit_char(d as int)]);
    r
}

fn append_decimal(s: &mut String, n: u128)
    ensures
        final(s)@ == old(s)@ + decimal(n as nat),
    decreases n,
{
    if n >= 10 {
        append_decimal(s, n / 10);
    }
    s.append(digit_str(n % 10));
    assert(s@ =~= old(s)@ + decimal(n as nat));
}


/// The unit that a positive byte count is shown in: the smallest of
/// B, KB, MB, GB and TB (index 0 to 4) in which the scaled value is below
/// 1024, or TB when there is none.
pub open spec fn unit_index(b: nat) -> nat {
    if b < 1024 {
        0
    } else if b < 1048576 {
        1
    } else if b < 1073741824 {
        2
    } else if b < 1099511627776 {
        3
    } else {
        4
    }
}

/// How many bytes one of unit `k` holds: `1024` to the power `k`.
pub open spec fn unit_divisor(k: nat) -> nat {
    if k == 0 {
        1
    } else if k == 1 {
        1024
    } else if k == 2 {
        1048576
    } else if k == 3 {
        1073741824
    } else {
        1099511627776
    }
}

pub open spec fn unit_name(k: nat) -> Seq<char> {
    if k == 0 {
        "B"@
    } else if k == 1 {
        "KB"@
    } else if k == 2 {
        "MB"@
    } else if k == 3 {
        "GB"@
    } else {
        "TB"@
    }
}

/// `n / d` rounded to the nearest integer, ties to the even one.
pub open spec fn round_half_even(n: nat, d: nat) -> nat {
    let q = n / d;
    let r = n % d;
    if 2 * r > d || (2 * r == d && q % 2 == 1) {
        q + 1
    } else {
        q
    }
}

/// `q / 100` written with two decimal places.
pub open spec fn two_places(q: nat) -> Seq<char> {
    decimal(q / 100) + "."@ + seq![digit_char(((q / 10) % 10) as int), digit_char((q % 10) as int)]
}

/// `q / 10` written with one decimal place.
pub open spec fn one_place(q: nat) -> Seq<char> {
    decimal(q / 10) + "."@ + seq![digit_char((q % 10) as int)]
}

/// The number part for a positive byte count: the value scaled to its unit,
/// with two decimals below 10 and one decimal otherwise.
pub open spec fn scaled_text(b: nat) -> Seq<char> {
    let d = unit_divisor(unit_index(b));
    if b < 10 * d {
        two_places(round_half_even(b * 100, d))
    } else {
        one_place(round_half_even(b * 10, d))
    }
}

/// The text of a byte count: "0 B" for zero, the scaled value and its unit
/// otherwise. A negative count stays in bytes, with two decimals.
pub open spec fn bytes_text(b: int) -> Seq<char> {
    if b == 0 {
        "0 B"@
    } else if b < 0 {
        "-"@ + two_places(((-b) * 100) as nat) + " B"@
    } else {
        scaled_text(b as nat) + " "@ + unit_name(unit_index(b as nat))
    }
}

fn unit_str(k: u128) -> (r: &'static str)
    ensures
        r@ == unit_name(k as nat),
{
    if k == 0 {
        "B"
    } else if k == 1 {
        "KB"
    } else if k == 2 {
        "MB"
    } else if k == 3 {
        "GB"
    } else {
        "TB"
    }
}

fn round_div(n: u128, d: u128) -> (r: u128)
    requires
        0 < d <= 1099511627776,
        n < 0x1_0000_0000_0000_0000_0000_0000,
    ensures
        r == round_half_even(n as nat, d as nat),
{
    let q = n / d;
    let r = n % d;
    assert(q <= n) by (nonlinear_arith)
        requires q == n / d, d > 0;
    if 2 * r > d || (2 * r == d && q % 2 == 1) {
        q + 1
    } else {
        q
    }
}

fn append_two_places(s: &mut String, q: u128)
    ensures
        final(s)@ == old(s)@ + two_places(q as nat),
{
    append_decimal(s, q / 100);
    s.append(".");
    s.append(digit_str((q / 10) % 10));
    s.append(digit_str(q % 10));
    assert(s@ =~= old(s)@ + two_places(q as nat));
}

fn append_one_place(s: &mut String, q: u128)
    ensures
        final(s)@ == old(s)@ + one_place(q as nat),
{
    append_decimal(s, q / 10);
    s.append(".");
    s.append(digit_str(q % 10));
    assert(s@ =~= old(s)@ + one_place(q as nat));
}

/// Formats a byte count in binary units (B, KB, MB, GB, TB).
pub fn format_bytes(bytes: i64) -> (r: String)
    ensures
        r@ == bytes_text(bytes as int),
{
    if bytes == 0 {
        return String::from_str("0 B");
    }
    let mut out = String::new();
    if bytes < 0 {
        let mag = (0i128 - bytes as i128) as u128;
        out.append("-");
        append_two_places(&mut out, mag * 100);
        out.append(" B");
        assert(out@ =~= bytes_text(bytes as int));
        return out;
    }
    let b = bytes as u128;
    let k: u128 = if b < 1024 {
        0
    } else if b < 1048576 {
        1
    } else if b < 1073741824 {
        2
    } else if b < 1099511627776 {
        3
    } else {
        4
    };
    let d: u128 = if k == 0 {
        1
    } else if k == 1 {
        1024
    } else if k == 2 {
        1048576
    } else if k == 3 {
        1073741824
    } else {
        1099511627776
    };
    assert(k == unit_index(b as nat) && d == unit_divisor(k as nat));
    if b < 10 * d {
        append_two_places(&mut out, round_div(b * 100, d));
    } else {
        append_one_place(&mut out, round_div(b * 10, d));
    }
    out.append(" ");
    out.append(unit_str(k));
    assert(out@ =~= bytes_text(bytes as int));
    out
}

/// The days, hours and minutes of an uptime in seconds, each truncated
/// towards zero as integer division does.
pub open spec fn uptime_parts(s: int) -> (int, int, int) {
    if s >= 0 {
        (s / 86400, (s % 86400) / 3600, (s % 3600) / 60)
    } else {
        let t = -s;
        (-(t / 86400), -((t % 86400) / 3600), -((t % 3600) / 60))
    }
}

pub open spec fn uptime_text(s: int) -> Seq<char> {
    let p = uptime_parts(s);
    signed_decimal(p.0) + "d "@ + signed_decimal(p.1) + "h "@ + signed_decimal(p.2) + "m"@
}

fn append_signed(s: &mut String, negative: bool, n: u128)
    ensures
        final(s)@ == old(s)@ + signed_decimal(if negative { -(n as int) } else { n as int }),
{
    if negative && n != 0 {
        s.append("-");
    }
    append_decimal(s, n);
    assert(s@ =~= old(s)@ + signed_decimal(if negative { -(n as int) } else { n as int }));
}

/// Formats an uptime as `<days>d <hours>h <minutes>m`.
pub fn format_uptime(seconds: i64) -> (r: String)
    ensures
        r@ == uptime_text(seconds as int),
        seconds >= 0 ==> r@ == decimal((seconds / 86400) as nat) + "d "@ + decimal(
            ((seconds % 86400) / 3600) as nat,
        ) + "h "@ + decimal(((seconds % 3600) / 60) as nat) + "m"@,
{
    let negative = seconds < 0;
    let t: u128 = if negative {
        (0i128 - seconds as i128) as u128
    } else {
        seconds as u128
    };
    let mut out = String::new();
    append_signed(&mut out, negative, t / 86400);
    out.append("d ");
    append_signed(&mut out, negative, (t % 86400) / 3600);
    out.append("h ");
    append_signed(&mut out, negative, (t % 3600) / 60);
    out.append("m");
    assert(out@ =~= uptime_text(seconds as int));
    out
}

/// The first seven characters of an identity, or all of it when shorter.
pub open spec fn short_form(id: Seq<char>) -> Seq<char> {
    id.subrange(0, if id.len() < 7 { id.len() as int } else { 7 })
}

/// Shortens an identity for display.
pub fn short_id(id: &str) -> (r: String)
    ensures
        r@ == short_form(id@),
        r@.len() == if id@.len() < 7 { id@.len() } else { 7 },
        r@ == id@.subrange(0, r@.len() as int),
{
    let len = id.unicode_len();
    let end: usize = if len < 7 { len } else { 7 };
    String::from_str(id.substring_char(0, end))
}

} // verus!
