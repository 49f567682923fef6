use vstd::prelude::*;

verus! {

/// Number of atomic units in one whole unit of a [`Decimal`].
pub const DECIMAL_SCALE: u128 = 1_000_000_000_000_000_000;

/// Fixed-point decimal with eighteen fractional digits, used for prices,
/// slippage tolerances, escrow levels and swap-adjustment coefficients.
/// The represented value is `atomics / DECIMAL_SCALE`.
#[derive(Debug, Clone, Copy, PartialEq, Eq, Structural)]
pub struct Decimal {
    pub atomics: u128,
}

impl Decimal {
    /// The decimal with the given number of atomic units.
    pub fn new(atomics: u128) -> (r: Decimal)
        ensures
            r.atomics == atomics,
    {
        Decimal { atomics }
    }

    /// The decimal representing exactly one.
    pub fn one() -> (r: Decimal)
        ensures
            r.atomics == DECIMAL_SCALE,
    {
        Decimal { atomics: DECIMAL_SCALE }
    }

    /// The decimal representing `p` percent.
    pub fn percent(p: u64) -> (r: Decimal)
        ensures
            r.atomics == p as int * (DECIMAL_SCALE as int / 100),
    {
        Decimal { atomics: (p as u128) * (DECIMAL_SCALE / 100) }
    }
}

/// `amount` scaled down by the fraction `d`, rounded towards zero:
/// `amount * d.atomics / DECIMAL_SCALE` over the unbounded integers.
pub open spec fn spec_mul_decimal(amount: u128, d: Decimal) -> int {
    (amount as int * d.atomics as int) / (DECIMAL_SCALE as int)
}

/// `amount` divided by the value of `d`, rounded towards zero:
/// `amount * DECIMAL_SCALE / d.atomics` over the unbounded integers.
pub open spec fn spec_div_decimal(amount: u128, d: Decimal) -> int {
    (amount as int * DECIMAL_SCALE as int) / (d.atomics as int)
}

/// Scaling by a fraction of at most one never exceeds the amount.
pub proof fn lemma_mul_decimal_le(amount: u128, d: Decimal)
    requires
        d.atomics <= DECIMAL_SCALE,
    ensures
        0 <= spec_mul_decimal(amount, d) <= amount,
{
    vstd::arithmetic::mul::lemma_mul_inequality(
        d.atomics as int,
        DECIMAL_SCALE as int,
        amount as int,
    );
    vstd::arithmetic::mul::lemma_mul_is_commutative(d.atomics as int, amount as int);
    vstd::arithmetic::mul::lemma_mul_is_commutative(DECIMAL_SCALE as int, amount as int);
    vstd::arithmetic::div_mod::lemma_div_is_ordered(
        amount as int * d.atomics as int,
        amount as int * DECIMAL_SCALE as int,
        DECIMAL_SCALE as int,
    );
    vstd::arithmetic::div_mod::lemma_div_by_multiple(amount as int, DECIMAL_SCALE as int);
    vstd::arithmetic::mul::lemma_mul_nonnegative(amount as int, d.atomics as int);
    vstd::arithmetic::div_mod::lemma_div_pos_is_pos(
        amount as int * d.atomics as int,
        DECIMAL_SCALE as int,
    );
}

/// Multiplies an amount by a decimal fraction, or reports that the
/// intermediate product leaves the representable range.
pub fn mul_decimal(amount: u128, d: Decimal) -> (r: Option<u128>)
    ensures
        r is Some <==> amount as int * d.atomics as int <= u128::MAX,
        r is Some ==> r->Some_0 == spec_mul_decimal(amount, d),
{
    match amount.checked_mul(d.atomics) {
        Some(product) => Some(product / DECIMAL_SCALE),
        None => None,
    }
}

/// Divides an amount by a decimal value, or reports that the intermediate
/// product leaves the representable range.
pub fn div_decimal(amount: u128, d: Decimal) -> (r: Option<u128>)
    requires
        d.atomics > 0,
    ensures
        r is Some <==> amount as int * DECIMAL_SCALE as int <= u128::MAX,
        r is Some ==> r->Some_0 == spec_div_decimal(amount, d),
{
    match amount.checked_mul(DECIMAL_SCALE) {
        Some(product) => Some(product / d.atomics),
        None => None,
    }
}

} // verus!
