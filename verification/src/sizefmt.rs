//! Rendering byte counts as human-readable sizes.

use vstd::prelude::*;

verus! {

pub const KB: u64 = 1024;

pub const MB: u64 = 1024 * 1024;

pub const GB: u64 = 1024 * 1024 * 1024;

/// The character for one decimal digit.
pub open spec fn spec_digit_char(d: int) -> char {
    if d == 0 {
        '0'
    } else if d == 1 {
        '1'
    } else if d == 2 {
        '2'
    } else if d == 3 {
        '3'
    } else if d == 4 {
        '4'
    } else if d == 5 {
        '5'
    } else if d == 6 {
        '6'
    } else if d == 7 {
        '7'
    } else if d == 8 {
        '8'
    } else {
        '9'
    }
}

/// The decimal digits of `n`, most significant first, no leading zeroes.
pub open spec fn spec_u64_digits(n: int) -> Seq<char>
    decreases n when n >= 0
{
    if n < 10 {
        seq![spec_digit_char(n)]
    } else {
        spec_u64_digits(n / 10) + seq![spec_digit_char(n % 10)]
    }
}

/// The one-character string for a decimal digit.
fn digit_str(d: u64) -> (r: &'static str)
    requires
        d < 10,
    ensures
        r@ == seq![spec_digit_char(d as int)],
{
    proof {
        reveal_strlit("0");
        reveal_strlit("1");
        reveal_strlit("2");
        reveal_strlit("3");
        reveal_strlit("4");
        reveal_strlit("5");
        reveal_strlit("6");
        reveal_strlit("7");
        reveal_strlit("8");
        reveal_strlit("9");
    }
    let r: &'static str = if d == 0 {
        "0"
    } else if d == 1 {
        "1"
    } else if d == 2 {
        "2"
    } else if d == 3 {
        "3"
    } else if d == 4 {
        "4"
    } else if d == 5 {
        "5"
    } else if d == 6 {
        "6"
    } else if d == 7 {
        "7"
    } else if d == 8 {
        "8"
    } else {
        "9"
    };
    proof {
        assert(r@ =~= seq![spec_digit_char(d as int)]);
    }
    r
}

/// Writes `n` in decimal.
pub fn u64_to_string(n: u64) -> (r: String)
    ensures
        r@ == spec_u64_digits(n as int),
    decreases n,
{
    if n < 10 {
        digit_str(n).to_owned()
    } else {
        let mut r = u64_to_string(n / 10);
        r.append(digit_str(n % 10));
        r
    }
}

/// `bytes` rendered human-readably: gigabytes to one decimal place,
/// megabytes and kilobytes to the nearest whole unit, plain bytes below
/// that. Rounding is to nearest, ties upward.
pub open spec fn spec_human_readable_size(bytes: u64) -> Seq<char> {
    if bytes >= GB {
        let tenths = (10 * (bytes as int) + (GB as int) / 2) / (GB as int);
        spec_u64_digits(tenths / 10) + "."@ + spec_u64_digits(tenths % 10) + " GB"@
    } else if bytes >= MB {
        spec_u64_digits(((bytes as int) + (MB as int) / 2) / (MB as int)) + " MB"@
    } else if bytes >= KB {
        spec_u64_digits(((bytes as int) + (KB as int) / 2) / (KB as int)) + " KB"@
    } else {
        spec_u64_digits(bytes as int) + " B"@
    }
}

/// Renders `bytes` as a human-readable size.
pub fn human_readable_size(bytes: u64) -> (r: String)
    ensures
        r@ == spec_human_readable_size(bytes),
{
    if bytes >= GB {
        let tenths128: u128 = (10 * (bytes as u128) + (GB as u128) / 2) / (GB as u128);
        let tenths: u64 = tenths128 as u64;
        proof {
            assert(tenths128 < 0x10000000000000000u128);
            assert(tenths as int == (10 * (bytes as int) + (GB as int) / 2) / (GB as int));
        }
        let mut r = u64_to_string(tenths / 10);
        r.append(".");
        let frac = u64_to_string(tenths % 10);
        r.append(frac.as_str());
        r.append(" GB");
        r
    } else if bytes >= MB {
        let mut r = u64_to_string((bytes + MB / 2) / MB);
        r.append(" MB");
        r
    } else if bytes >= KB {
        let mut r = u64_to_string((bytes + KB / 2) / KB);
        r.append(" KB");
        r
    } else {
        let mut r = u64_to_string(bytes);
        r.append(" B");
        r
    }
}

} // verus!
