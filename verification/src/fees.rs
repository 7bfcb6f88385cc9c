//! Fee arithmetic: storage capacity of an AccountCell, the rent duration a
//! payment buys, the per-beneficiary split of a registration profit, and the
//! account-length release schedule. All of it is integer arithmetic,
//! multiply-then-divide, with the residual left to the protocol wallet.

use vstd::prelude::*;

verus! {

use vstd::arithmetic::div_mod::lemma_fundamental_div_mod;
use vstd::arithmetic::mul::lemma_mul_inequality;
use vstd::arithmetic::mul::lemma_mul_is_distributive_add;

use crate::error::ErrorCode;
use crate::model::Config;
use crate::model::ConfigV;
use crate::model::RATE_BASE;

/// Capacity units per stored octet (and per whole capacity unit of a quote).
pub const ONE_CKB: u64 = 100_000_000;

/// Seconds in the protocol's year of 365 days.
pub const YEAR_SECONDS: u64 = 31_536_000;

/// The instant the account-length release schedule counts from.
pub const RELEASE_EPOCH: u64 = 1_609_459_200;

/// The capacity an AccountCell must hold: the configured base plus one
/// capacity unit per octet of the stored account name. Nothing when that
/// exceeds `u64`.
pub open spec fn spec_storage_capacity(c: ConfigV, account_len: u64) -> Option<u64> {
    if c.basic_capacity + account_len * ONE_CKB <= u64::MAX {
        Option::Some((c.basic_capacity + account_len * ONE_CKB) as u64)
    } else {
        Option::None
    }
}

/// Computes the storage capacity owed by an account name of `account_len`
/// octets, exactly as `spec_storage_capacity` gives it.
pub fn calc_account_storage_capacity(config: &Config, account_len: u64) -> (r: Option<u64>)
    ensures
        r == spec_storage_capacity(config@, account_len),
{
    proof {
        assert((account_len as u128) * (ONE_CKB as u128) <= 0xffffffffffffffffu128
            * 100_000_000u128) by (nonlinear_arith)
            requires
                account_len as u128 <= 0xffffffffffffffffu128,
                (ONE_CKB as u128) == 100_000_000u128,
        ;
    }
    let total: u128 = (config.basic_capacity as u128) + (account_len as u128) * (ONE_CKB as u128);
    if total <= u64::MAX as u128 {
        Option::Some(total as u64)
    } else {
        Option::None
    }
}

/// The yearly price converted to capacity units at the given quote:
/// `price * ONE_CKB / quote`, multiplying before dividing.
pub open spec fn spec_yearly_capacity(price: u64, quote: u64) -> int
    recommends
        quote > 0,
{
    (price * ONE_CKB) / (quote as int)
}

/// A yearly capacity after the invited discount, parts per [`RATE_BASE`].
pub open spec fn spec_discounted_yearly(y: int, discount: u32) -> int {
    y - (y * discount) / (RATE_BASE as int)
}

/// The rent duration a payment buys: `paid * YEAR_SECONDS` divided by the
/// discounted yearly capacity, multiplying before dividing. Nothing when the
/// quote is zero, the discounted yearly price is not positive, or the result
/// exceeds `u64`.
pub open spec fn spec_duration_from_paid(paid: u64, price: u64, quote: u64, discount: u32) -> Option<
    u64,
> {
    if quote == 0 {
        Option::None
    } else {
        let y = spec_discounted_yearly(spec_yearly_capacity(price, quote), discount);
        if y <= 0 {
            Option::None
        } else {
            let d = (paid * YEAR_SECONDS) / y;
            if d <= u64::MAX {
                Option::Some(d as u64)
            } else {
                Option::None
            }
        }
    }
}

/// Computes the rent duration bought by `paid`, exactly as
/// `spec_duration_from_paid` gives it.
pub fn calc_duration_from_paid(paid: u64, price: u64, quote: u64, discount: u32) -> (r: Option<
    u64,
>)
    ensures
        r == spec_duration_from_paid(paid, price, quote, discount),
{
    if quote == 0 {
        return Option::None;
    }
    proof {
        assert((price as u128) * (ONE_CKB as u128) <= 0xffffffffffffffffu128 * 100_000_000u128)
            by (nonlinear_arith)
            requires
                price as u128 <= 0xffffffffffffffffu128,
                (ONE_CKB as u128) == 100_000_000u128,
        ;
    }
    let yearly: u128 = (price as u128) * (ONE_CKB as u128) / (quote as u128);
    proof {
        assert(yearly == spec_yearly_capacity(price, quote));
        vstd::arithmetic::div_mod::lemma_div_nonincreasing(
            price as int * ONE_CKB as int,
            quote as int,
        );
        assert(yearly * (discount as u128) <= (0xffffffffffffffffu128 * 100_000_000u128)
            * 0xffffffffu128) by (nonlinear_arith)
            requires
                yearly <= 0xffffffffffffffffu128 * 100_000_000u128,
                discount as u128 <= 0xffffffffu128,
        ;
    }
    let cut: u128 = yearly * (discount as u128) / (RATE_BASE as u128);
    if cut >= yearly {
        proof {
            assert(spec_discounted_yearly(yearly as int, discount) <= 0);
        }
        return Option::None;
    }
    let y: u128 = yearly - cut;
    proof {
        assert(y == spec_discounted_yearly(yearly as int, discount));
    }
    proof {
        assert((paid as u128) * (YEAR_SECONDS as u128) <= 0xffffffffffffffffu128 * 31_536_000u128)
            by (nonlinear_arith)
            requires
                paid as u128 <= 0xffffffffffffffffu128,
                (YEAR_SECONDS as u128) == 31_536_000u128,
        ;
    }
    let d: u128 = (paid as u128) * (YEAR_SECONDS as u128) / y;
    if d <= u64::MAX as u128 {
        Option::Some(d as u64)
    } else {
        Option::None
    }
}

/// One beneficiary's share: `profit * rate / RATE_BASE`, truncated.
pub open spec fn spec_portion(profit: u64, rate: u32) -> int {
    (profit * rate) / (RATE_BASE as int)
}

/// A share never exceeds the profit it is taken from.
pub proof fn lemma_portion_le_profit(profit: u64, rate: u32)
    requires
        rate <= RATE_BASE,
    ensures
        0 <= spec_portion(profit, rate) <= profit,
{
    lemma_mul_inequality(rate as int, RATE_BASE as int, profit as int);
    assert(profit * rate == rate * profit) by (nonlinear_arith);
    assert(profit * RATE_BASE == RATE_BASE * profit) by (nonlinear_arith);
    lemma_fundamental_div_mod(profit as int * rate as int, RATE_BASE as int);
    assert(profit * RATE_BASE / (RATE_BASE as int) == profit) by (nonlinear_arith);
    vstd::arithmetic::div_mod::lemma_div_is_ordered(
        profit as int * rate as int,
        profit as int * RATE_BASE as int,
        RATE_BASE as int,
    );
    vstd::arithmetic::div_mod::lemma_div_is_ordered(0, profit as int * rate as int, RATE_BASE as int);
}

/// Computes one beneficiary's share, exactly `spec_portion`.
pub fn calc_profit_portion(profit: u64, rate: u32) -> (r: u64)
    requires
        rate <= RATE_BASE,
    ensures
        r == spec_portion(profit, rate),
        r <= profit,
{
    proof {
        lemma_portion_le_profit(profit, rate);
        assert((profit as u128) * (rate as u128) <= u128::MAX) by (nonlinear_arith)
            requires
                profit <= u64::MAX,
                rate <= u32::MAX,
        ;
    }
    ((profit as u128) * (rate as u128) / (RATE_BASE as u128)) as u64
}

/// The four explicit shares never exceed the profit together, when their
/// rates fit under the denominator together.
pub proof fn lemma_portions_fit(profit: u64, r1: u32, r2: u32, r3: u32, r4: u32)
    requires
        r1 + r2 + r3 + r4 <= RATE_BASE,
    ensures
        0 <= spec_portion(profit, r1) + spec_portion(profit, r2) + spec_portion(profit, r3)
            + spec_portion(profit, r4) <= profit,
{
    let p = profit as int;
    let rb = RATE_BASE as int;
    lemma_fundamental_div_mod(p * r1, rb);
    lemma_fundamental_div_mod(p * r2, rb);
    lemma_fundamental_div_mod(p * r3, rb);
    lemma_fundamental_div_mod(p * r4, rb);
    lemma_mul_is_distributive_add(p, r1 as int, r2 as int);
    lemma_mul_is_distributive_add(p, r1 as int + r2 as int, r3 as int);
    lemma_mul_is_distributive_add(p, r1 as int + r2 as int + r3 as int, r4 as int);
    lemma_mul_inequality(r1 as int + r2 as int + r3 as int + r4 as int, rb, p);
    assert((r1 as int + r2 as int + r3 as int + r4 as int) * p == p * (r1 as int + r2 as int + r3
        as int + r4 as int)) by (nonlinear_arith);
    assert(p * rb == rb * p) by (nonlinear_arith);
    lemma_portion_le_profit(profit, r1);
    lemma_portion_le_profit(profit, r2);
    lemma_portion_le_profit(profit, r3);
    lemma_portion_le_profit(profit, r4);
}

/// The least account length registrable at an instant: ten octets at launch,
/// two fewer with every full year passed, never below four.
pub open spec fn spec_min_registrable_length(ts: u64) -> u64 {
    if ts < RELEASE_EPOCH {
        10
    } else {
        let years = ((ts - RELEASE_EPOCH) as u64) / YEAR_SECONDS;
        if years >= 3 {
            4
        } else {
            (10 - 2 * years) as u64
        }
    }
}

/// Whether the release schedule lets an account of `account_len` octets be
/// registered at `ts`; refused with `AccountStillCanNotBeRegister` when the
/// length is still locked.
pub open spec fn spec_verify_account_length_and_years(account_len: u64, ts: u64) -> Result<
    (),
    ErrorCode,
> {
    if account_len >= spec_min_registrable_length(ts) {
        Result::Ok(())
    } else {
        Result::Err(ErrorCode::AccountStillCanNotBeRegister)
    }
}

/// Checks the release schedule, exactly as
/// `spec_verify_account_length_and_years` decides it.
pub fn verify_account_length_and_years(account_len: u64, ts: u64) -> (r: Result<(), ErrorCode>)
    ensures
        r == spec_verify_account_length_and_years(account_len, ts),
{
    let min_len: u64 = if ts < RELEASE_EPOCH {
        10
    } else {
        let years = (ts - RELEASE_EPOCH) / YEAR_SECONDS;
        if years >= 3 {
            4
        } else {
            10 - 2 * years
        }
    };
    if account_len >= min_len {
        Result::Ok(())
    } else {
        Result::Err(ErrorCode::AccountStillCanNotBeRegister)
    }
}

} // verus!
