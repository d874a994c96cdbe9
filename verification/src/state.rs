//! The records that the ledger keeps.

use crate::address::Address;
use vstd::prelude::*;

verus! {

/// Root record of one deployment: who may manage its interest pools.
#[derive(Clone, Copy, Debug, PartialEq, Eq)]
pub struct State {
    /// The identity allowed to create, fund and defund interest pools.
    pub authority: Address,
}

/// The interest pool of one (state, asset) pair. It is the authority of the
/// fund account from which interest is paid.
#[derive(Clone, Copy, Debug, PartialEq, Eq)]
pub struct InterestDistributor {
    /// The state this pool belongs to.
    pub state: Address,
    /// The asset this pool pays interest in.
    pub mint: Address,
    /// Nonce of this record's derived address.
    pub bump: u8,
}

/// The vault record of one (user, interest pool) pair. It is the authority of
/// the fund account that holds the user's savings.
#[derive(Clone, Copy, Debug, PartialEq, Eq)]
pub struct SavingsManager {
    /// The owner of the vault.
    pub user: Address,
    /// The asset saved in the vault.
    pub mint: Address,
    /// The interest pool that pays this vault's interest.
    pub distributor: Address,
    /// When interest was last paid, in seconds since the epoch.
    pub last_interest_deposit_ts: i64,
    /// Nonce of this record's derived address.
    pub bump: u8,
}

/// A fund account: a balance of one asset under one authority.
#[derive(Clone, Copy, Debug, PartialEq, Eq)]
pub struct TokenAccount {
    /// The asset held.
    pub mint: Address,
    /// The identity that may move the balance.
    pub owner: Address,
    /// The balance.
    pub amount: u64,
}

/// What the ledger holds at one address.
#[derive(Clone, Copy, Debug, PartialEq, Eq)]
pub enum Account {
    State(State),
    InterestDistributor(InterestDistributor),
    SavingsManager(SavingsManager),
    Token(TokenAccount),
}

/// The ledger's contents: one account per address in use.
pub type Accounts = Map<Address, Account>;

/// The pool state at an address, if that is what the address holds.
pub open spec fn state_at(s: Accounts, key: Address) -> Option<State> {
    if s.dom().contains(key) {
        match s[key] {
            Account::State(r) => Some(r),
            _ => None,
        }
    } else {
        None
    }
}

/// The interest pool at an address, if that is what the address holds.
pub open spec fn distributor_at(s: Accounts, key: Address) -> Option<InterestDistributor> {
    if s.dom().contains(key) {
        match s[key] {
            Account::InterestDistributor(r) => Some(r),
            _ => None,
        }
    } else {
        None
    }
}

/// The vault record at an address, if that is what the address holds.
pub open spec fn manager_at(s: Accounts, key: Address) -> Option<SavingsManager> {
    if s.dom().contains(key) {
        match s[key] {
            Account::SavingsManager(r) => Some(r),
            _ => None,
        }
    } else {
        None
    }
}

/// The fund account at an address, if that is what the address holds.
pub open spec fn token_at(s: Accounts, key: Address) -> Option<TokenAccount> {
    if s.dom().contains(key) {
        match s[key] {
            Account::Token(r) => Some(r),
            _ => None,
        }
    } else {
        None
    }
}

} // verus!
