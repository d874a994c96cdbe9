//! The interest rule: how much is paid, and when.

use crate::error::SavingsError;
use vstd::prelude::*;

verus! {

/// The interest paid per period, in percent of the vault's balance.
pub const INTEREST_PERCENTAGE: u64 = 1;

/// The length of a period in seconds: thirty days.
pub const SECONDS_IN_MONTHS: i64 = 30 * 24 * 60 * 60;

/// Interest on a balance: the percentage, rounded down. What is cut off is
/// not carried over.
pub open spec fn interest_on(balance: u64) -> u64 {
    (balance * INTEREST_PERCENTAGE / 100) as u64
}

/// Whether a whole period has passed since the last accrual.
pub open spec fn period_elapsed(now: i64, last: i64) -> bool {
    now - last >= SECONDS_IN_MONTHS
}

/// What one accrual pays, or why none is made: nothing before a whole period
/// has passed, and nothing unless the pool covers the interest in full.
pub open spec fn payout(now: i64, last: i64, balance: u64, pool: u64) -> Result<u64, SavingsError> {
    if !period_elapsed(now, last) {
        Err(SavingsError::CrankTurnedTooSoon)
    } else if pool < interest_on(balance) {
        Err(SavingsError::InadequateFunds)
    } else {
        Ok(interest_on(balance))
    }
}

/// Computes the interest on a balance.
pub fn interest_amount(balance: u64) -> (r: u64)
    ensures
        r == interest_on(balance),
        r == balance / 100,
        r <= balance,
{
    INTEREST_PERCENTAGE * balance / 100
}

/// Tells whether a whole period lies between `last` and `now`, wherever
/// in the range of timestamps the two are.
pub fn is_period_elapsed(now: i64, last: i64) -> (r: bool)
    ensures
        r == period_elapsed(now, last),
{
    now as i128 - last as i128 >= SECONDS_IN_MONTHS as i128
}

/// Decides one accrual from the clock, the vault's last accrual and the two
/// balances.
pub fn check_accrual(now: i64, last: i64, balance: u64, pool: u64) -> (r: Result<u64, SavingsError>)
    ensures
        r == payout(now, last, balance, pool),
        r is Ok <==> now - last >= SECONDS_IN_MONTHS && pool >= balance / 100,
        r matches Ok(paid) ==> paid == balance / 100,
{
    if !is_period_elapsed(now, last) {
        return Err(SavingsError::CrankTurnedTooSoon);
    }
    let interest = interest_amount(balance);
    if pool < interest {
        return Err(SavingsError::InadequateFunds);
    }
    Ok(interest)
}

} // verus!
