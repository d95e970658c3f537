//! Overflow-safe fee arithmetic for transfer transactions.
//!
//! The engine keeps one percent of every transferred amount as a processing
//! fee: `fee = floor(amount / 100)`, and forwards the remainder.

use vstd::prelude::*;

use crate::errors::{MathErrorType, ServiceError};

verus! {

/// The processing fee kept from `amount`.
pub open spec fn fee_of(amount: u64) -> int {
    amount as int / 100
}

/// What is forwarded to the receiver once the fee is kept.
pub open spec fn amount_after_fee_of(amount: u64) -> int {
    amount as int - fee_of(amount)
}

/// The fee and the forwarded remainder always rebuild the amount exactly:
/// `fee + amount_after_fee == amount`, and neither part is negative.
pub proof fn lemma_fee_split_exact(amount: u64)
    ensures
        fee_of(amount) + amount_after_fee_of(amount) == amount,
        0 <= fee_of(amount) <= amount,
        0 <= amount_after_fee_of(amount) <= amount,
{
    assert(0 <= amount as int / 100 <= amount) by (nonlinear_arith);
}

/// Splits `amount` into the one-percent processing fee and the remainder,
/// using checked arithmetic that fails explicitly instead of wrapping.
pub fn split_fee(amount: u64) -> (r: Result<(u64, u64), ServiceError>)
    ensures
        r matches Ok((fee, after)) && fee == fee_of(amount) && after == amount_after_fee_of(
            amount,
        ),
        r matches Ok((fee, after)) ==> fee + after == amount,
{
    proof {
        lemma_fee_split_exact(amount);
    }
    let scaled = match amount.checked_mul(1) {
        Some(v) => v,
        None => {
            return Err(ServiceError::MathError(MathErrorType::NumericalOverflow));
        },
    };
    let fee = match scaled.checked_div(100) {
        Some(v) => v,
        None => {
            return Err(ServiceError::MathError(MathErrorType::NumericalOverflow));
        },
    };
    let after = match amount.checked_sub(fee) {
        Some(v) => v,
        None => {
            return Err(ServiceError::MathError(MathErrorType::NumericalOverflow));
        },
    };
    Ok((fee, after))
}

} // verus!
