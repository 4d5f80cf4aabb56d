//! Plain-value model of a ledger balance, counted in raw units.
//! One whole coin ("nano") is `RAW_PER_NANO` raw units.

use vstd::prelude::*;

verus! {

pub const RAW_PER_NANO: u128 = 1_000_000_000_000_000_000_000_000_000_000;

/// Ten to the power `e`.
pub open spec fn pow10(e: int) -> int
    decreases e,
{
    if e <= 0 {
        1
    } else {
        10 * pow10(e - 1)
    }
}

/// The character for a single decimal digit.
pub open spec fn digit_char10(d: int) -> char {
    if d == 0 {
        '0'
    } else if d == 1 {
        '1'
    } else if d == 2 {
        '2'
    } else if d == 3 {
        '3'
    } else if d == 4 {
        '4'
    } else if d == 5 {
        '5'
    } else if d == 6 {
        '6'
    } else if d == 7 {
        '7'
    } else if d == 8 {
        '8'
    } else {
        '9'
    }
}

/// The usual decimal rendering of a non-negative integer, without leading
/// zeros (except for zero itself).
pub open spec fn dec_str(n: int) -> Seq<char>
    decreases n,
{
    if n < 10 {
        seq![digit_char10(n)]
    } else {
        dec_str(n / 10) + seq![digit_char10(n % 10)]
    }
}

/// The first `precision` digits after the decimal point of `frac / 10^30`,
/// truncated (never rounded up).
pub open spec fn frac_str(frac: int, precision: int) -> Seq<char> {
    Seq::new(precision as nat, |i: int| digit_char10(frac / pow10(29 - i) % 10))
}

/// The rendering of `raw` raw units as whole coins: the integer part, and,
/// when `precision > 0`, a point followed by `precision` truncated fraction
/// digits.
pub open spec fn balance_text(raw: int, precision: int) -> Seq<char> {
    if precision == 0 {
        dec_str(raw / RAW_PER_NANO as int)
    } else {
        dec_str(raw / RAW_PER_NANO as int) + seq!['.'] + frac_str(
            raw % RAW_PER_NANO as int,
            precision,
        )
    }
}

/// An amount of the ledger's currency, in raw units.
#[derive(Clone, Copy, PartialEq, Eq, Structural, Debug)]
pub struct Amount {
    pub raw: u128,
}

fn digit_to_char(d: u128) -> (r: char)
    requires
        d < 10,
    ensures
        r == digit_char10(d as int),
{
    if d == 0 {
        '0'
    } else if d == 1 {
        '1'
    } else if d == 2 {
        '2'
    } else if d == 3 {
        '3'
    } else if d == 4 {
        '4'
    } else if d == 5 {
        '5'
    } else if d == 6 {
        '6'
    } else if d == 7 {
        '7'
    } else if d == 8 {
        '8'
    } else {
        '9'
    }
}

/// Ten to any power is positive.
pub proof fn lemma_pow10_pos(e: int)
    ensures
        pow10(e) >= 1,
    decreases e,
{
    if e > 0 {
        lemma_pow10_pos(e - 1);
    }
}

/// The decimal rendering of `n`, digit characters only.
fn dec_chars(n: u128) -> (r: Vec<char>)
    ensures
        r@ == dec_str(n as int),
{
    let mut rest: u128 = n;
    let mut backwards: Vec<char> = Vec::new();
    loop
        invariant_except_break
            dec_str(n as int) == dec_str(rest as int) + backwards@.reverse(),
        ensures
            dec_str(n as int) == backwards@.reverse(),
        decreases rest,
    {
        let ghost back_old = backwards@;
        let ghost rest_old = rest as int;
        let d = rest % 10;
        backwards.push(digit_to_char(d));
        proof {
            assert(backwards@.reverse() =~= seq![digit_char10(rest_old % 10)]
                + back_old.reverse());
        }
        if rest < 10 {
            proof {
                assert(dec_str(rest_old) == seq![digit_char10(rest_old)]);
                assert(dec_str(n as int) =~= backwards@.reverse());
            }
            break ;
        }
        rest = rest / 10;
        proof {
            assert(dec_str(rest_old) == dec_str(rest_old / 10) + seq![digit_char10(
                rest_old % 10,
            )]);
            assert(dec_str(n as int) =~= dec_str(rest as int) + backwards@.reverse());
        }
    }
    let mut r: Vec<char> = Vec::new();
    let mut i: usize = backwards.len();
    while i > 0
        invariant
            i <= backwards.len(),
            r@ == backwards@.subrange(i as int, backwards@.len() as int).reverse(),
        decreases i,
    {
        i = i - 1;
        r.push(backwards[i]);
        proof {
            assert(backwards@.subrange(i as int, backwards@.len() as int).reverse() =~= backwards@
                .subrange(i + 1, backwards@.len() as int).reverse().push(backwards@[i as int]));
        }
    }
    proof {
        assert(backwards@.subrange(0, backwards@.len() as int) =~= backwards@);
    }
    r
}

impl Amount {
    pub fn from_raw(raw: u128) -> (r: Amount)
        ensures
            r.raw == raw,
    {
        Amount { raw }
    }

    /// `n` whole coins.
    pub fn nano(n: u64) -> (r: Amount)
        requires
            n <= 340_282_366,
        ensures
            r.raw == n as int * RAW_PER_NANO as int,
    {
        Amount { raw: n as u128 * RAW_PER_NANO }
    }

    pub fn checked_sub(&self, other: Amount) -> (r: Option<Amount>)
        ensures
            self.raw >= other.raw ==> r == Some(Amount { raw: (self.raw - other.raw) as u128 }),
            self.raw < other.raw ==> r is None,
    {
        if self.raw >= other.raw {
            Some(Amount { raw: self.raw - other.raw })
        } else {
            None
        }
    }

    /// The amount written as whole coins with `precision` fraction digits.
    pub fn format_balance(&self, precision: usize) -> (r: String)
        requires
            precision <= 30,
        ensures
            r@ == balance_text(self.raw as int, precision as int),
    {
        let units: u128 = self.raw / RAW_PER_NANO;
        let mut chars = dec_chars(units);
        if precision > 0 {
            chars.push('.');
            let frac: u128 = self.raw % RAW_PER_NANO;
            let mut p: u128 = 100_000_000_000_000_000_000_000_000_000;
            proof {
                assert(pow10(29) == 100_000_000_000_000_000_000_000_000_000) by {
                    reveal_with_fuel(pow10, 31);
                }
            }
            proof {
                assert(chars@ =~= dec_str((self.raw / RAW_PER_NANO) as int) + seq!['.'] + frac_str(
                    frac as int,
                    0,
                ));
            }
            let mut i: usize = 0;
            while i < precision
                invariant
                    i <= precision,
                    precision <= 30,
                    frac < RAW_PER_NANO,
                    i < precision ==> p == pow10(29 - i as int),
                    chars@ == dec_str((self.raw / RAW_PER_NANO) as int) + seq!['.'] + frac_str(
                        frac as int,
                        i as int,
                    ),
                decreases precision - i,
            {
                proof {
                    lemma_pow10_pos(29 - i as int);
                }
                let d = (frac / p) % 10;
                chars.push(digit_to_char(d));
                proof {
                    assert(frac_str(frac as int, i + 1) =~= frac_str(frac as int, i as int).push(
                        digit_char10(frac as int / pow10(29 - i as int) % 10)));
                    assert(chars@ =~= dec_str((self.raw / RAW_PER_NANO) as int) + seq!['.']
                        + frac_str(frac as int, i + 1));
                }
                if i + 1 < precision {
                    proof {
                        assert(pow10(29 - i as int) == 10 * pow10(29 - (i + 1)));
                    }
                    p = p / 10;
                }
                i = i + 1;
            }
        }
        crate::strings::string_from_chars(&chars)
    }
}

} // verus!
