use vstd::prelude::*;

use crate::error::TokenError;

verus! {

/// The largest value of a 128-bit counter.
pub open spec fn counter_max() -> int {
    u128::MAX as int
}

/// `current + delta`, or `ArithmeticOverflow` when the sum does not fit in
/// 128 bits. Every counter of the contracts grows through this function.
pub fn checked_increase(current: u128, delta: u128) -> (r: Result<u128, TokenError>)
    ensures
        current + delta <= counter_max() ==> r == Ok::<u128, TokenError>((current + delta) as u128),
        current + delta > counter_max() ==> r == Err::<u128, TokenError>(TokenError::ArithmeticOverflow),
{
    match current.checked_add(delta) {
        Some(sum) => Ok(sum),
        None => Err(TokenError::ArithmeticOverflow),
    }
}

} // verus!
