//! How a payment is split between the investor and the platform.

use vstd::prelude::*;

verus! {

/// The quotient of `a` by a positive `b`, rounded towards zero.
pub open spec fn truncating_quotient(a: int, b: int) -> int
    recommends
        b > 0,
{
    if a >= 0 {
        a / b
    } else {
        -((-a) / b)
    }
}

/// What the payment exceeds the investment by. Negative for a loss.
pub open spec fn profit(investment_amount: int, payment_amount: int) -> int {
    payment_amount - investment_amount
}

/// The platform's share of the profit, in basis points of it, rounded towards
/// zero. Negative for a loss.
pub open spec fn platform_fee(investment_amount: int, payment_amount: int, platform_fee_bps: int) -> int {
    truncating_quotient(profit(investment_amount, payment_amount) * platform_fee_bps, 10_000)
}

/// What is left of the payment for the investor once the platform has taken
/// its fee. Above the payment for a loss.
pub open spec fn investor_return(investment_amount: int, payment_amount: int, platform_fee_bps: int) -> int {
    payment_amount - platform_fee(investment_amount, payment_amount, platform_fee_bps)
}

/// Whether `value` is a value of `i128`.
pub open spec fn fits_i128(value: int) -> bool {
    i128::MIN <= value <= i128::MAX
}

/// Whether every step of the split stays within `i128`.
pub open spec fn split_fits(investment_amount: int, payment_amount: int, platform_fee_bps: int) -> bool {
    &&& fits_i128(profit(investment_amount, payment_amount))
    &&& fits_i128(profit(investment_amount, payment_amount) * platform_fee_bps)
    &&& fits_i128(investor_return(investment_amount, payment_amount, platform_fee_bps))
}

/// The investor's return and the platform's fee, in this order.
pub fn calculate_profit(investment_amount: i128, payment_amount: i128, platform_fee_bps: i128) -> (split: (
    i128,
    i128,
))
    requires
        split_fits(investment_amount as int, payment_amount as int, platform_fee_bps as int),
    ensures
        split.0 == investor_return(investment_amount as int, payment_amount as int, platform_fee_bps as int),
        split.1 == platform_fee(investment_amount as int, payment_amount as int, platform_fee_bps as int),
{
    let profit = payment_amount - investment_amount;
    let platform_fee = profit * platform_fee_bps / 10_000;
    let investor_return = payment_amount - platform_fee;
    (investor_return, platform_fee)
}

/// The split where every step of it stays within `i128`, nothing otherwise.
pub fn checked_profit(investment_amount: i128, payment_amount: i128, platform_fee_bps: i128) -> (split:
    Option<(i128, i128)>)
    ensures
        split.is_some() == split_fits(
            investment_amount as int,
            payment_amount as int,
            platform_fee_bps as int,
        ),
        split matches Some(parts) ==> {
            &&& parts.0 == investor_return(
                investment_amount as int,
                payment_amount as int,
                platform_fee_bps as int,
            )
            &&& parts.1 == platform_fee(
                investment_amount as int,
                payment_amount as int,
                platform_fee_bps as int,
            )
        },
{
    let profit = match payment_amount.checked_sub(investment_amount) {
        Some(profit) => profit,
        None => {
            return None;
        },
    };
    let scaled = match profit.checked_mul(platform_fee_bps) {
        Some(scaled) => scaled,
        None => {
            return None;
        },
    };
    let platform_fee = scaled / 10_000;
    match payment_amount.checked_sub(platform_fee) {
        Some(investor_return) => Some((investor_return, platform_fee)),
        None => None,
    }
}

/// With a fee of no more than the whole profit, and no loss, the two parts
/// of the split are not negative and add up to the payment.
pub proof fn lemma_split_adds_up(investment_amount: int, payment_amount: int, platform_fee_bps: int)
    requires
        0 <= investment_amount <= payment_amount,
        0 <= platform_fee_bps <= 10_000,
    ensures
        0 <= platform_fee(investment_amount, payment_amount, platform_fee_bps) <= profit(
            investment_amount,
            payment_amount,
        ),
        investor_return(investment_amount, payment_amount, platform_fee_bps) + platform_fee(
            investment_amount,
            payment_amount,
            platform_fee_bps,
        ) == payment_amount,
        investment_amount <= investor_return(investment_amount, payment_amount, platform_fee_bps),
{
    let gain = profit(investment_amount, payment_amount);
    assert(0 <= gain * platform_fee_bps <= gain * 10_000) by (nonlinear_arith)
        requires
            0 <= gain,
            0 <= platform_fee_bps <= 10_000,
    ;
}

} // verus!
