use vstd::prelude::*;
use vstd::arithmetic::div_mod::lemma_fundamental_div_mod_converse;
use crate::error::TicketError;

verus! {

/// Minimal currency units in one whole unit of the currency: ten to this power.
pub const UNIT_DIGITS: u32 = 24;

/// A decimal number, `mantissa / 10^scale`, negative where `negative` is set
/// and the mantissa is not zero.
#[derive(Clone, Copy, Debug, PartialEq, Eq, Structural)]
pub struct Decimal {
    pub negative: bool,
    pub mantissa: u128,
    pub scale: u32,
}

pub open spec fn pow10(n: nat) -> nat
    decreases n,
{
    if n == 0 {
        1
    } else {
        10 * pow10((n - 1) as nat)
    }
}

/// `m / d` rounded to the nearest integer, a half rounded up (away from zero).
pub open spec fn round_div(m: nat, d: nat) -> nat
    recommends
        d > 0,
{
    ((2 * m + d) / (2 * d)) as nat
}

/// The exact value of `d` in minimal units, rounded half away from zero.
pub open spec fn minimal_units(d: Decimal) -> nat {
    if d.scale <= UNIT_DIGITS {
        d.mantissa as nat * pow10((UNIT_DIGITS - d.scale) as nat)
    } else {
        round_div(d.mantissa as nat, pow10((d.scale - UNIT_DIGITS) as nat))
    }
}

/// The decimal is below zero.
pub open spec fn is_negative(d: Decimal) -> bool {
    d.negative && d.mantissa > 0
}

/// The unit price for an organizer's decimal price with a fixed fee folded
/// in, or `InvalidPrice` where the price is negative or the sum exceeds `u128`.
pub open spec fn price_spec(d: Decimal, fee: u128) -> Result<u128, TicketError> {
    if is_negative(d) || minimal_units(d) + fee > u128::MAX {
        Err(TicketError::InvalidPrice)
    } else {
        Ok((minimal_units(d) + fee) as u128)
    }
}

pub proof fn lemma_pow10_positive(n: nat)
    ensures
        pow10(n) >= 1,
    decreases n,
{
    if n > 0 {
        lemma_pow10_positive((n - 1) as nat);
    }
}

pub proof fn lemma_pow10_monotone(a: nat, b: nat)
    requires
        a <= b,
    ensures
        pow10(a) <= pow10(b),
    decreases b,
{
    if a < b {
        lemma_pow10_monotone(a, (b - 1) as nat);
        lemma_pow10_positive((b - 1) as nat);
    }
}

proof fn lemma_pow10_37()
    ensures
        pow10(37) == 10000000000000000000000000000000000000nat,
        pow10(39) == 1000000000000000000000000000000000000000nat,
{
    reveal_with_fuel(pow10, 40);
}

/// Rounding half up, stated through quotient and remainder.
pub proof fn lemma_round_div(m: nat, d: nat)
    requires
        d > 0,
    ensures
        round_div(m, d) == m / d + (if 2 * (m % d) >= d { 1nat } else { 0nat }),
{
    let q = (m / d) as int;
    let r = (m % d) as int;
    let b: int = if 2 * r >= d { 1 } else { 0 };
    let rem = 2 * r + d - 2 * d * b;
    assert(m == q * d + r) by {
        vstd::arithmetic::div_mod::lemma_fundamental_div_mod(m as int, d as int);
    }
    assert(2 * m + d as int == (q + b) * (2 * d as int) + rem) by (nonlinear_arith)
        requires
            m == q * d + r,
            rem == 2 * r + d - 2 * d * b,
    ;
    lemma_fundamental_div_mod_converse(2 * m + d as int, 2 * d as int, q + b, rem);
}

fn pow10_exec(n: u32) -> (r: u128)
    requires
        n <= 38,
    ensures
        r == pow10(n as nat),
{
    let mut r: u128 = 1;
    let mut i: u32 = 0;
    while i < n
        invariant
            i <= n <= 38,
            r == pow10(i as nat),
        decreases n - i,
    {
        proof {
            lemma_pow10_monotone(i as nat, 37);
            lemma_pow10_37();
        }
        r = r * 10;
        i = i + 1;
    }
    r
}

/// Converts an organizer's decimal price into minimal units, rounding half
/// away from zero, and adds `fee`.
pub fn price_for(price: &Decimal, fee: u128) -> (r: Result<u128, TicketError>)
    ensures
        r == price_spec(*price, fee),
{
    if price.negative && price.mantissa > 0 {
        return Err(TicketError::InvalidPrice);
    }
    let units: u128;
    if price.scale <= UNIT_DIGITS {
        let p = pow10_exec(UNIT_DIGITS - price.scale);
        match price.mantissa.checked_mul(p) {
            Some(u) => {
                units = u;
            },
            None => {
                return Err(TicketError::InvalidPrice);
            },
        }
    } else {
        let k = price.scale - UNIT_DIGITS;
        if k > 38 {
            proof {
                lemma_pow10_monotone(39, k as nat);
                lemma_pow10_37();
                let m = price.mantissa as nat;
                let d = pow10(k as nat);
                assert((2 * m + d) / (2 * d) == 0) by (nonlinear_arith)
                    requires
                        2 * m < d,
                ;
            }
            units = 0;
        } else {
            let d = pow10_exec(k);
            proof {
                lemma_pow10_positive(k as nat);
                lemma_round_div(price.mantissa as nat, d as nat);
            }
            let q = price.mantissa / d;
            let rem = price.mantissa % d;
            proof {
                lemma_pow10_monotone(1, k as nat);
                reveal_with_fuel(pow10, 2);
                let m = price.mantissa as int;
                let di = d as int;
                assert(m == (m / di) * di + m % di) by {
                    vstd::arithmetic::div_mod::lemma_fundamental_div_mod(m, di);
                }
                assert((m / di) * 10 <= m) by (nonlinear_arith)
                    requires
                        m == (m / di) * di + m % di,
                        m % di >= 0,
                        m / di >= 0,
                        di >= 10,
                ;
            }
            if rem >= d - rem {
                units = q + 1;
            } else {
                units = q;
            }
        }
    }
    match units.checked_add(fee) {
        Some(v) => Ok(v),
        None => Err(TicketError::InvalidPrice),
    }
}

/// The price is a function of the decimal and the fee alone: equal inputs give
/// equal results.
pub proof fn price_for_deterministic(a: Decimal, b: Decimal, fee: u128)
    requires
        a == b,
    ensures
        price_spec(a, fee) == price_spec(b, fee),
{
}

/// Where the price has more decimal places than the currency, the units are the
/// quotient, plus one exactly where the remainder is half the divisor or more.
pub proof fn price_rounds_half_away_from_zero(d: Decimal)
    requires
        d.scale > UNIT_DIGITS,
    ensures
        ({
            let div = pow10((d.scale - UNIT_DIGITS) as nat);
            let m = d.mantissa as nat;
            minimal_units(d) == m / div + (if 2 * (m % div) >= div { 1nat } else { 0nat })
        }),
{
    lemma_pow10_positive((d.scale - UNIT_DIGITS) as nat);
    lemma_round_div(d.mantissa as nat, pow10((d.scale - UNIT_DIGITS) as nat));
}

} // verus!
