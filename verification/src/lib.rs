//! A savings ledger with periodic interest accrual.
//!
//! Users keep savings in vaults; once per period anyone may have a vault's
//! interest paid out of the interest pool of its asset. `ledger` holds the
//! records and balances, `admin`, `user` and `accrual` the entry points,
//! `program` all of them as one request type, and `crank` the off-chain
//! side that finds vaults and assembles the requests to pay them.
//! `custody` states who can take funds out of which account, `agreement`
//! that the program accepts what the crank asks for.

pub mod accrual;
pub mod address;
pub mod admin;
pub mod agreement;
pub mod crank;
pub mod custody;
pub mod error;
pub mod interest;
pub mod layout;
pub mod ledger;
pub mod program;
pub mod signer;
pub mod state;
pub mod user;

pub use crate::accrual::{
    deposit_interest, deposit_interest_multiple, DepositInterestToMultipleUsers,
    DepositInterestToUser,
};
pub use crate::address::{
    Address, ID, INTEREST_DISTRIBUTOR_SEED_PREFIX, SAVINGS_MANAGER_SEED_PREFIX,
};
pub use crate::admin::{
    create_interest_vault, deposit_to_interest_vault, initialize_state,
    withdraw_from_interest_vault, CreateInterestVaultForMint, DepositToInterestVault,
    InitializeState, WithdrawFromInterestVault,
};
pub use crate::crank::cluster_url;
pub use crate::error::SavingsError;
pub use crate::interest::{INTEREST_PERCENTAGE, SECONDS_IN_MONTHS};
pub use crate::ledger::Ledger;
pub use crate::state::{InterestDistributor, SavingsManager, State, TokenAccount};
pub use crate::user::{
    user_create_vault, user_deposit, user_withdraw, UserCreateVault, UserDeposit, UserWithdraw,
};
