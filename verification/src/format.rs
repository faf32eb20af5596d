//! Human-readable sizes and durations for the status line.
use vstd::prelude::*;

verus! {

use vstd::string::StringExecFns;
use crate::hashing::hex_digits;

/// The decimal digits of a number, most significant first.
pub open spec fn decimal_digits(n: int) -> Seq<char>
    decreases n,
{
    if n < 10 {
        seq![hex_digits()[if n < 0 { 0 } else { n }]]
    } else {
        decimal_digits(n / 10) + seq![hex_digits()[n % 10]]
    }
}

/// One decimal digit as text.
fn digit_str(d: u64) -> (r: &'static str)
    requires
        d < 10,
    ensures
        r@ == seq![hex_digits()[d as int]],
{
    proof {
        reveal_strlit("0");
        reveal_strlit("1");
        reveal_strlit("2");
        reveal_strlit("3");
        reveal_strlit("4");
        reveal_strlit("5");
        reveal_strlit("6");
        reveal_strlit("7");
        reveal_strlit("8");
        reveal_strlit("9");
    }
    match d {
        0 => "0",
        1 => "1",
        2 => "2",
        3 => "3",
        4 => "4",
        5 => "5",
        6 => "6",
        7 => "7",
        8 => "8",
        _ => "9",
    }
}

/// A number as decimal text.
pub fn u64_to_string(n: u64) -> (r: String)
    ensures
        r@ == decimal_digits(n as int),
    decreases n,
{
    if n < 10 {
        let mut s = String::new();
        s.append(digit_str(n));
        assert(s@ =~= decimal_digits(n as int));
        s
    } else {
        let mut s = u64_to_string(n / 10);
        s.append(digit_str(n % 10));
        assert(s@ =~= decimal_digits(n as int));
        s
    }
}

/// `<whole>.<2-digit fraction> <unit>`, the fraction truncated.
pub open spec fn scaled_text(whole: int, frac2: int, unit: Seq<char>) -> Seq<char> {
    decimal_digits(whole) + seq!['.'] + seq![hex_digits()[frac2 / 10], hex_digits()[frac2 % 10]]
        + unit
}

/// Append `.<2-digit fraction> <unit>` to a whole part.
fn append_scaled(s: &mut String, frac2: u64, unit: &str)
    requires
        frac2 < 100,
    ensures
        final(s)@ == old(s)@ + seq!['.'] + seq![
            hex_digits()[frac2 as int / 10],
            hex_digits()[frac2 as int % 10],
        ] + unit@,
{
    proof {
        reveal_strlit(".");
    }
    s.append(".");
    s.append(digit_str(frac2 / 10));
    s.append(digit_str(frac2 % 10));
    s.append(unit);
}

/// A byte count as `B`, `KB`, `MB` or `GB` text with two decimals,
/// truncated.
pub fn format_bytes(bytes: u64) -> (r: String)
    ensures
        bytes >= 1000000000 ==> r@ == scaled_text(
            bytes as int / 1000000000,
            (bytes as int % 1000000000) / 10000000,
            " GB"@,
        ),
        1000000 <= bytes < 1000000000 ==> r@ == scaled_text(
            bytes as int / 1000000,
            (bytes as int % 1000000) / 10000,
            " MB"@,
        ),
        1000 <= bytes < 1000000 ==> r@ == scaled_text(
            bytes as int / 1000,
            (bytes as int % 1000) / 10,
            " KB"@,
        ),
        bytes < 1000 ==> r@ == decimal_digits(bytes as int) + " B"@,
{
    if bytes >= 1000000000 {
        let mut s = u64_to_string(bytes / 1000000000);
        append_scaled(&mut s, bytes % 1000000000 / 10000000, " GB");
        s
    } else if bytes >= 1000000 {
        let mut s = u64_to_string(bytes / 1000000);
        append_scaled(&mut s, bytes % 1000000 / 10000, " MB");
        s
    } else if bytes >= 1000 {
        let mut s = u64_to_string(bytes / 1000);
        append_scaled(&mut s, bytes % 1000 / 10, " KB");
        s
    } else {
        let mut s = u64_to_string(bytes);
        s.append(" B");
        s
    }
}

/// A duration in seconds as the two most significant units:
/// `<d>d <h>h`, `<h>h <m>m`, `<m>m <s>s`, or `<s>s`.
pub fn format_uptime(secs: u64) -> (r: String)
    ensures
        secs >= 86400 ==> r@ == decimal_digits(secs as int / 86400) + "d "@ + decimal_digits(
            (secs as int % 86400) / 3600,
        ) + "h"@,
        3600 <= secs < 86400 ==> r@ == decimal_digits(secs as int / 3600) + "h "@ + decimal_digits(
            (secs as int % 3600) / 60,
        ) + "m"@,
        60 <= secs < 3600 ==> r@ == decimal_digits(secs as int / 60) + "m "@ + decimal_digits(
            secs as int % 60,
        ) + "s"@,
        secs < 60 ==> r@ == decimal_digits(secs as int) + "s"@,
{
    if secs >= 86400 {
        let mut s = u64_to_string(secs / 86400);
        s.append("d ");
        let h = u64_to_string(secs % 86400 / 3600);
        s.append(h.as_str());
        s.append("h");
        s
    } else if secs >= 3600 {
        let mut s = u64_to_string(secs / 3600);
        s.append("h ");
        let m = u64_to_string(secs % 3600 / 60);
        s.append(m.as_str());
        s.append("m");
        s
    } else if secs >= 60 {
        let mut s = u64_to_string(secs / 60);
        s.append("m ");
        let sec = u64_to_string(secs % 60);
        s.append(sec.as_str());
        s.append("s");
        s
    } else {
        let mut s = u64_to_string(secs);
        s.append("s");
        s
    }
}

} // verus!
