//! Text of the report: decimal integers and amounts with four fractional digits.
use vstd::prelude::*;

verus! {

/// The character of the decimal digit `d` (0 to 9).
pub open spec fn digit_char(d: nat) -> char {
    ((d + 48) as u8) as char
}

/// The decimal digits of `n`, without leading zeros ("0" for zero).
pub open spec fn decimal(n: nat) -> Seq<char>
    decreases n,
{
    if n < 10 {
        seq![digit_char(n)]
    } else {
        decimal(n / 10) + seq![digit_char(n % 10)]
    }
}

/// An amount in ten-thousandths, written with four fractional digits.
pub open spec fn fixed4(n: nat) -> Seq<char> {
    let f = n % 10000;
    decimal(n / 10000) + seq![
        '.',
        digit_char(f / 1000),
        digit_char((f / 100) % 10),
        digit_char((f / 10) % 10),
        digit_char(f % 10),
    ]
}

/// The text of a flag.
pub open spec fn bool_text(b: bool) -> Seq<char> {
    if b {
        seq!['t', 'r', 'u', 'e']
    } else {
        seq!['f', 'a', 'l', 's', 'e']
    }
}

fn digit(d: u64) -> (r: char)
    requires
        d < 10,
    ensures
        r == digit_char(d as nat),
{
    ((d as u8) + 48) as char
}

fn decimal_chars(n: u64) -> (r: Vec<char>)
    ensures
        r@ == decimal(n as nat),
    decreases n,
{
    if n < 10 {
        vec![digit(n)]
    } else {
        let mut v = decimal_chars(n / 10);
        v.push(digit(n % 10));
        v
    }
}

/// Relies on std's `FromIterator<&char>` for `String`: the characters, in order.
#[verifier::external_body]
fn chars_to_string(v: &Vec<char>) -> (r: String)
    ensures
        r@ == v@,
{
    v.iter().collect()
}

/// `n` in decimal.
pub fn format_decimal(n: u64) -> (r: String)
    ensures
        r@ == decimal(n as nat),
{
    let v = decimal_chars(n);
    chars_to_string(&v)
}

/// An amount in ten-thousandths with four fractional digits: 12345 gives "1.2345".
pub fn format_amount(n: u64) -> (r: String)
    ensures
        r@ == fixed4(n as nat),
{
    let mut v = decimal_chars(n / 10000);
    let f = n % 10000;
    v.push('.');
    v.push(digit(f / 1000));
    v.push(digit((f / 100) % 10));
    v.push(digit((f / 10) % 10));
    v.push(digit(f % 10));
    proof {
        assert(v@ =~= fixed4(n as nat));
    }
    chars_to_string(&v)
}

/// "true" or "false".
pub fn format_bool(b: bool) -> (r: String)
    ensures
        r@ == bool_text(b),
{
    let v = if b {
        vec!['t', 'r', 'u', 'e']
    } else {
        vec!['f', 'a', 'l', 's', 'e']
    };
    proof {
        assert(v@ =~= bool_text(b));
    }
    chars_to_string(&v)
}

} // verus!
