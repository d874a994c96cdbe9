//! The ways in which a request to the ledger fails.

use vstd::prelude::*;

verus! {

/// Why a request was turned down. A request that fails changes nothing.
#[derive(Clone, Copy, Debug, PartialEq, Eq, Structural)]
pub enum SavingsError {
    /// The source of a transfer holds less than the amount asked for.
    InadequateFunds,
    /// Less than one period has passed since the vault's last accrual.
    CrankTurnedTooSoon,
    /// A batched accrual named no recipient.
    ZeroRecipientsForInterestDeposit,
    /// The caller is not the identity stored as authority or owner.
    Unauthorized,
    /// A supplied account is missing, is of another kind, or does not sit at
    /// the address derived for it.
    InvalidAccount,
    /// The address of a record to be created is already taken.
    AccountInUse,
    /// More of an asset would be in circulation than a balance can express.
    Overflow,
}

/// What an error says, in words.
pub open spec fn message_of(error: SavingsError) -> Seq<char> {
    match error {
        SavingsError::InadequateFunds => "not enough funds in vault token account"@,
        SavingsError::CrankTurnedTooSoon => "not enough time has elapsed since the last interest deposit"@,
        SavingsError::ZeroRecipientsForInterestDeposit => "did not specify any recipient for the interest transfer"@,
        SavingsError::Unauthorized => "the caller is not the stored authority or owner"@,
        SavingsError::InvalidAccount => "an account is missing, of another kind, or not at its derived address"@,
        SavingsError::AccountInUse => "the address of the new record is already in use"@,
        SavingsError::Overflow => "the circulation of the asset would exceed the largest balance"@,
    }
}

impl SavingsError {
    /// The error in words.
    pub fn message(&self) -> (r: &'static str)
        ensures
            r@ == message_of(*self),
    {
        match self {
            SavingsError::InadequateFunds => "not enough funds in vault token account",
            SavingsError::CrankTurnedTooSoon => "not enough time has elapsed since the last interest deposit",
            SavingsError::ZeroRecipientsForInterestDeposit => "did not specify any recipient for the interest transfer",
            SavingsError::Unauthorized => "the caller is not the stored authority or owner",
            SavingsError::InvalidAccount => "an account is missing, of another kind, or not at its derived address",
            SavingsError::AccountInUse => "the address of the new record is already in use",
            SavingsError::Overflow => "the circulation of the asset would exceed the largest balance",
        }
    }
}

} // verus!
