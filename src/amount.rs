//! Amounts as text: a decimal number with at most four fractional digits.
use vstd::prelude::*;

verus! {

/// One unit of currency, in the ten-thousandths that amounts count.
pub const UNIT: u64 = 10000;

pub open spec fn is_digit(b: u8) -> bool {
    48 <= b && b <= 57
}

pub open spec fn all_digits(s: Seq<u8>) -> bool {
    forall|i: int| 0 <= i < s.len() ==> is_digit(#[trigger] s[i])
}

/// The number that a run of decimal digits writes (0 for none).
pub open spec fn digits_value(s: Seq<u8>) -> nat
    decreases s.len(),
{
    if s.len() == 0 {
        0
    } else {
        digits_value(s.drop_last()) * 10 + (s.last() - 48) as nat
    }
}

/// Where the first '.' stands, or the length where there is none.
pub open spec fn dot_index(s: Seq<u8>) -> int
    decreases s.len(),
{
    if s.len() == 0 {
        0
    } else if s[0] == 46 {
        0
    } else {
        1 + dot_index(s.drop_first())
    }
}

/// Ten to the power of the fractional digits that are missing to make four.
pub open spec fn frac_scale(len: nat) -> nat {
    if len == 0 {
        10000
    } else if len == 1 {
        1000
    } else if len == 2 {
        100
    } else if len == 3 {
        10
    } else {
        1
    }
}

/// The amount, in ten-thousandths, that the text `s` writes: digits, then
/// optionally a '.' and at most four digits, with at least one digit in all.
pub open spec fn amount_of(s: Seq<u8>) -> Option<nat> {
    let k = dot_index(s);
    let whole = s.subrange(0, k);
    let frac = if k < s.len() {
        s.subrange(k + 1, s.len() as int)
    } else {
        Seq::<u8>::empty()
    };
    if all_digits(whole) && all_digits(frac) && frac.len() <= 4 && whole.len() + frac.len() > 0 {
        Some(digits_value(whole) * 10000 + digits_value(frac) * frac_scale(frac.len()))
    } else {
        None
    }
}

proof fn lemma_dot_index(s: Seq<u8>)
    ensures
        0 <= dot_index(s) <= s.len(),
        dot_index(s) < s.len() ==> s[dot_index(s)] == 46,
        forall|i: int| 0 <= i < dot_index(s) ==> s[i] != 46,
    decreases s.len(),
{
    if s.len() > 0 && s[0] != 46 {
        lemma_dot_index(s.drop_first());
        assert forall|i: int| 0 <= i < dot_index(s) implies s[i] != 46 by {
            if i > 0 {
                assert(s[i] == s.drop_first()[i - 1]);
            }
        }
    }
}

/// Ten to the power `n`.
pub open spec fn pow10(n: nat) -> nat
    decreases n,
{
    if n == 0 {
        1
    } else {
        10 * pow10((n - 1) as nat)
    }
}

proof fn lemma_digits_bound(s: Seq<u8>)
    requires
        all_digits(s),
    ensures
        digits_value(s) < pow10(s.len()),
    decreases s.len(),
{
    if s.len() > 0 {
        let p = s.drop_last();
        assert(all_digits(p)) by {
            assert forall|i: int| 0 <= i < p.len() implies is_digit(#[trigger] p[i]) by {
                assert(p[i] == s[i]);
            }
        }
        lemma_digits_bound(p);
        assert(is_digit(s[s.len() - 1]));
        let a = digits_value(p);
        let d = (s.last() - 48) as nat;
        let q = pow10(p.len());
        assert(a * 10 + d < 10 * q) by (nonlinear_arith)
            requires
                d <= 9,
                a < q,
        {
        }
    }
}

proof fn lemma_prefix_grows(s: Seq<u8>, i: int, j: int)
    requires
        0 <= i <= j <= s.len(),
    ensures
        digits_value(s.subrange(0, j)) >= digits_value(s.subrange(0, i)),
    decreases j - i,
{
    if j > i {
        lemma_prefix_grows(s, i, j - 1);
        assert(s.subrange(0, j).drop_last() =~= s.subrange(0, j - 1));
    }
}

/// Reads the digits of `s[start..end]`; `None` where one is not a digit or
/// the value does not fit a `u64`.
fn read_digits(s: &[u8], start: usize, end: usize) -> (r: Option<u64>)
    requires
        start <= end <= s@.len(),
    ensures
        r == (if all_digits(s@.subrange(start as int, end as int))
            && digits_value(s@.subrange(start as int, end as int)) <= u64::MAX {
            Some(digits_value(s@.subrange(start as int, end as int)) as u64)
        } else {
            None::<u64>
        }),
{
    let ghost d = s@.subrange(start as int, end as int);
    let mut v: u64 = 0;
    let mut i: usize = start;
    while i < end
        invariant
            start <= i <= end <= s@.len(),
            d == s@.subrange(start as int, end as int),
            all_digits(s@.subrange(start as int, i as int)),
            v == digits_value(s@.subrange(start as int, i as int)),
        decreases end - i,
    {
        let b = s[i];
        assert(s@.subrange(start as int, i + 1).drop_last() =~= s@.subrange(start as int, i as int));
        if b < 48 || b > 57 {
            assert(d[i - start] == b);
            return None;
        }
        let dv = (b - 48) as u64;
        if v > (u64::MAX - dv) / 10 {
            proof {
                assert(s@.subrange(start as int, i + 1) =~= d.subrange(0, i + 1 - start));
                lemma_prefix_grows(d, i + 1 - start, d.len() as int);
                assert(d.subrange(0, d.len() as int) =~= d);
                assert(all_digits(d) ==> digits_value(d) > u64::MAX);
            }
            return None;
        }
        v = v * 10 + dv;
        i = i + 1;
        assert(all_digits(s@.subrange(start as int, i as int))) by {
            assert forall|j: int| 0 <= j < i - start implies is_digit(
                #[trigger] s@.subrange(start as int, i as int)[j],
            ) by {
                if j < i - 1 - start {
                    assert(s@.subrange(start as int, i as int)[j] == s@.subrange(start as int, i - 1)[j]);
                }
            }
        }
    }
    assert(s@.subrange(start as int, i as int) =~= d);
    Some(v)
}

/// Parses an amount: digits, then optionally a '.' and at most four digits,
/// at least one digit in all. `None` where the text has another shape or the
/// amount does not fit a `u64`. "800.765" gives 8007650.
pub fn parse_amount(s: &[u8]) -> (r: Option<u64>)
    ensures
        r == (match amount_of(s@) {
            Some(v) => if v <= u64::MAX {
                Some(v as u64)
            } else {
                None
            },
            None => None,
        }),
{
    let n = s.len();
    let mut k: usize = 0;
    proof {
        lemma_dot_index(s@);
    }
    while k < n && s[k] != 46
        invariant
            0 <= k <= n == s@.len(),
            k <= dot_index(s@) <= n,
            dot_index(s@) < n ==> s@[dot_index(s@)] == 46,
        decreases n - k,
    {
        k = k + 1;
    }
    assert(k == dot_index(s@));
    let frac_start: usize = if k < n { k + 1 } else { n };
    let frac_len = n - frac_start;
    let ghost whole = s@.subrange(0, k as int);
    let ghost frac = if k < n { s@.subrange(k + 1, n as int) } else { Seq::<u8>::empty() };
    assert(s@.subrange(frac_start as int, n as int) =~= frac);
    if frac_len > 4 || k + frac_len == 0 {
        return None;
    }
    let w = match read_digits(s, 0, k) {
        Some(w) => w,
        None => {
            return None;
        },
    };
    let f = match read_digits(s, frac_start, n) {
        Some(f) => f,
        None => {
            proof {
                if all_digits(frac) {
                    lemma_digits_bound(frac);
                    reveal_with_fuel(pow10, 5);
                }
            }
            return None;
        },
    };
    let scale: u64 = if frac_len == 0 {
        10000
    } else if frac_len == 1 {
        1000
    } else if frac_len == 2 {
        100
    } else if frac_len == 3 {
        10
    } else {
        1
    };
    proof {
        lemma_digits_bound(frac);
        reveal_with_fuel(pow10, 5);
        assert(f * scale < 10000) by (nonlinear_arith)
            requires
                f < pow10(frac_len as nat),
                scale * pow10(frac_len as nat) == 10000,
        {
        }
    }
    if w > (u64::MAX - f * scale) / UNIT {
        assert(w * 10000 + f * scale > u64::MAX) by (nonlinear_arith)
            requires
                w > (u64::MAX - f * scale) / 10000,
                f * scale < 10000,
        {
        }
        return None;
    }
    Some(w * UNIT + f * scale)
}

} // verus!
