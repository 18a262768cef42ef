use vstd::prelude::*;
use vstd::string::StringExecFns;

verus! {

/// The decimal digits of `n`, without leading zeros.
pub open spec fn decimal(n: nat) -> Seq<char>
    decreases n,
{
    if n < 10 {
        seq![digit_char(n)]
    } else {
        decimal(n / 10).push(digit_char(n % 10))
    }
}

/// The character of decimal digit `d`.
pub open spec fn digit_char(d: nat) -> char {
    (d + '0' as nat) as char
}

/// The digit `d` as text.
pub fn digit_str(d: u64) -> (r: &'static str)
    requires
        d < 10,
    ensures
        r@ == seq![digit_char(d as nat)],
{
    proof {
        reveal_strlit("0");
        reveal_strlit("1");
        reveal_strlit("2");
        reveal_strlit("3");
        reveal_strlit("4");
        reveal_strlit("5");
        reveal_strlit("6");
        reveal_strlit("7");
        reveal_strlit("8");
        reveal_strlit("9");
    }
    let r = if d == 0 {
        "0"
    } else if d == 1 {
        "1"
    } else if d == 2 {
        "2"
    } else if d == 3 {
        "3"
    } else if d == 4 {
        "4"
    } else if d == 5 {
        "5"
    } else if d == 6 {
        "6"
    } else if d == 7 {
        "7"
    } else if d == 8 {
        "8"
    } else {
        "9"
    };
    assert(r@ =~= seq![digit_char(d as nat)]);
    r
}

/// Appends the decimal digits of `n`.
pub fn append_decimal(s: &mut String, n: u64)
    ensures
        final(s)@ == old(s)@ + decimal(n as nat),
    decreases n,
{
    if n >= 10 {
        append_decimal(s, n / 10);
    }
    s.append(digit_str(n % 10));
    assert(old(s)@ + decimal(n as nat) =~= if n >= 10 {
        old(s)@ + decimal((n / 10) as nat) + seq![digit_char((n % 10) as nat)]
    } else {
        old(s)@ + seq![digit_char((n % 10) as nat)]
    });
}

/// A value given in thousandths, written with one decimal as the host's title
/// shows it: rounded to the nearest tenth (halves away from zero), a `-` before
/// negative values, then the unit suffix.
pub open spec fn value_text_spec(v: int, suffix: Seq<char>) -> Seq<char> {
    let a = if v < 0 { -v } else { v };
    let tenths = (a + 50) / 100;
    (if v < 0 { "-"@ } else { Seq::empty() }) + decimal((tenths / 10) as nat) + "."@ + seq![
        digit_char((tenths % 10) as nat),
    ] + suffix
}

/// The value text shown under the image (see `value_text_spec`).
pub fn value_text(v: i64, suffix: &str) -> (r: String)
    ensures
        r@ == value_text_spec(v as int, suffix@),
{
    let a: u64 = if v < 0 { (0i128 - v as i128) as u64 } else { v as u64 };
    let tenths: u64 = a / 100 + if a % 100 >= 50 { 1 } else { 0 };
    assert(tenths == (a + 50) / 100);
    let mut s = if v < 0 { String::from_str("-") } else { String::new() };
    append_decimal(&mut s, tenths / 10);
    s.append(".");
    s.append(digit_str(tenths % 10));
    s.append(suffix);
    proof {
        reveal_strlit("-");
        reveal_strlit(".");
    }
    s
}

} // verus!
