//! Decimal text for the view: numerals for counts, process ids and device
//! priorities, and the fixed-point swap value under the selected unit
//! (a bare numeral for kilobytes, two decimal places otherwise).

use vstd::prelude::*;
use vstd::string::StringExecFns;
use crate::units::{centi_value, convert_swap, SizeUnits};

verus! {

/// The decimal digit character for `d`.
pub open spec fn digit_char(d: int) -> char {
    if d == 0 {
        '0'
    } else if d == 1 {
        '1'
    } else if d == 2 {
        '2'
    } else if d == 3 {
        '3'
    } else if d == 4 {
        '4'
    } else if d == 5 {
        '5'
    } else if d == 6 {
        '6'
    } else if d == 7 {
        '7'
    } else if d == 8 {
        '8'
    } else {
        '9'
    }
}

/// The decimal numeral of `n`: most significant digit first, no leading
/// zeros (a single zero for `n == 0`).
pub open spec fn dec_str(n: nat) -> Seq<char>
    decreases n,
{
    if n < 10 {
        seq![digit_char(n as int)]
    } else {
        dec_str(n / 10) + seq![digit_char((n % 10) as int)]
    }
}

/// The decimal numeral of `n`, with a leading minus sign when negative.
pub open spec fn int_str(n: int) -> Seq<char> {
    if n < 0 {
        seq!['-'] + dec_str((-n) as nat)
    } else {
        dec_str(n as nat)
    }
}

/// `f` hundredths as exactly two digits, high digit first.
pub open spec fn two_digit_str(f: int) -> Seq<char> {
    seq![digit_char(f / 10), digit_char(f % 10)]
}

/// The display text of `kb` kilobytes under `unit`: the exact numeral for
/// kilobytes, otherwise the scaled value with two decimal places.
pub open spec fn value_str(kb: nat, unit: SizeUnits) -> Seq<char> {
    if unit == SizeUnits::KB {
        dec_str(kb)
    } else {
        let c = centi_value(kb as int, unit);
        dec_str((c / 100) as nat) + seq!['.'] + two_digit_str(c % 100)
    }
}

fn digit_str(d: u64) -> (s: &'static str)
    requires
        d < 10,
    ensures
        s@ == seq![digit_char(d as int)],
{
    proof {
        reveal_strlit("0");
        reveal_strlit("1");
        reveal_strlit("2");
        reveal_strlit("3");
        reveal_strlit("4");
        reveal_strlit("5");
        reveal_strlit("6");
        reveal_strlit("7");
        reveal_strlit("8");
        reveal_strlit("9");
    }
    let s = match d {
        0 => "0",
        1 => "1",
        2 => "2",
        3 => "3",
        4 => "4",
        5 => "5",
        6 => "6",
        7 => "7",
        8 => "8",
        _ => "9",
    };
    proof {
        assert(s@ =~= seq![digit_char(d as int)]);
    }
    s
}

/// Append the decimal numeral of `n` to `out`.
fn push_decimal(n: u64, out: &mut String)
    ensures
        final(out)@ == old(out)@ + dec_str(n as nat),
    decreases n,
{
    if n >= 10 {
        push_decimal(n / 10, out);
    }
    let s = digit_str(n % 10);
    out.append(s);
    proof {
        if n >= 10 {
            assert(final(out)@ =~= old(out)@ + dec_str(n as nat));
        } else {
            assert(final(out)@ =~= old(out)@ + dec_str(n as nat));
        }
    }
}

/// The decimal numeral of `n` as a `String`.
pub fn u64_to_string(n: u64) -> (r: String)
    ensures
        r@ == dec_str(n as nat),
{
    let mut r = String::new();
    push_decimal(n, &mut r);
    proof {
        assert(r@ =~= dec_str(n as nat));
    }
    r
}

/// The decimal numeral of `n` as a `String`, signed.
pub fn i64_to_string(n: i64) -> (r: String)
    ensures
        r@ == int_str(n as int),
{
    if n >= 0 {
        let r = u64_to_string(n as u64);
        r
    } else {
        let mut r = String::from_str("-");
        let mag: u64 = ((-(n + 1)) as u64) + 1;
        push_decimal(mag, &mut r);
        proof {
            reveal_strlit("-");
            assert(r@ =~= int_str(n as int));
        }
        r
    }
}

/// The display text of `kb` kilobytes under `unit`.
pub fn format_swap_value(kb: u64, unit: SizeUnits) -> (r: String)
    ensures
        r@ == value_str(kb as nat, unit),
{
    if let SizeUnits::KB = unit {
        u64_to_string(kb)
    } else {
        let v = convert_swap(kb, unit);
        let mut r = u64_to_string(v.whole);
        r.append(".");
        let hi = digit_str(v.hundredths / 10);
        r.append(hi);
        let lo = digit_str(v.hundredths % 10);
        r.append(lo);
        proof {
            reveal_strlit(".");
            let c = centi_value(kb as int, unit);
            assert(c / 100 == v.whole && c % 100 == v.hundredths) by {
                vstd::arithmetic::div_mod::lemma_fundamental_div_mod_converse(
                    c,
                    100,
                    v.whole as int,
                    v.hundredths as int,
                );
            }
            assert(r@ =~= value_str(kb as nat, unit));
        }
        r
    }
}

} // verus!
