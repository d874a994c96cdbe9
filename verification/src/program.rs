//! The program as a whole: every request it takes, and what holds of all of
//! them.

use crate::accrual::{
    accrue, accrue_each, deposit_interest, deposit_interest_multiple,
    deposit_interest_multiple_result, deposit_interest_result, vault_accounts_valid,
    DepositInterestToMultipleUsers, DepositInterestToUser,
};
use crate::address::Address;
use crate::admin::{
    create_interest_vault, create_interest_vault_result, deposit_to_interest_vault,
    deposit_to_interest_vault_result, initialize_state, initialize_state_result,
    withdraw_from_interest_vault, withdraw_from_interest_vault_result,
    CreateInterestVaultForMint, DepositToInterestVault, InitializeState,
    WithdrawFromInterestVault,
};
use crate::error::SavingsError;
use crate::ledger::{same_identity, Ledger};
use crate::state::{distributor_at, manager_at, token_at, Account, Accounts};
use crate::user::{
    user_create_vault, user_create_vault_result, user_deposit, user_deposit_result, user_withdraw,
    user_withdraw_result, UserCreateVault, UserDeposit, UserWithdraw,
};
use vstd::prelude::*;

verus! {

/// A request to the program: the entry point, the accounts it names, and
/// its arguments.
#[allow(inconsistent_fields)]
#[derive(Debug, PartialEq, Eq)]
pub enum Request {
    InitializeState { accounts: InitializeState, authority: Address },
    CreateInterestVault { accounts: CreateInterestVaultForMint },
    DepositToInterestVault { accounts: DepositToInterestVault, amount: u64 },
    WithdrawFromInterestVault { accounts: WithdrawFromInterestVault, amount: u64 },
    UserCreateVault { accounts: UserCreateVault },
    UserDeposit { accounts: UserDeposit, amount: u64 },
    UserWithdraw { accounts: UserWithdraw, amount: u64 },
    DepositInterest { accounts: DepositInterestToUser },
    DepositInterestMultiple {
        accounts: DepositInterestToMultipleUsers,
        remaining_accounts: Vec<Address>,
    },
}

/// What a request makes of a ledger when it is handled at the time `now`.
pub open spec fn outcome(s: Accounts, program: Address, request: Request, now: i64) -> Result<
    Accounts,
    SavingsError,
> {
    match request {
        Request::InitializeState { accounts, authority } => initialize_state_result(
            s,
            accounts,
            authority,
        ),
        Request::CreateInterestVault { accounts } => create_interest_vault_result(
            s,
            program,
            accounts,
        ),
        Request::DepositToInterestVault { accounts, amount } => deposit_to_interest_vault_result(
            s,
            accounts,
            amount,
        ),
        Request::WithdrawFromInterestVault {
            accounts,
            amount,
        } => withdraw_from_interest_vault_result(s, accounts, amount),
        Request::UserCreateVault { accounts } => user_create_vault_result(
            s,
            program,
            accounts,
            now,
        ),
        Request::UserDeposit { accounts, amount } => user_deposit_result(s, accounts, amount),
        Request::UserWithdraw { accounts, amount } => user_withdraw_result(s, accounts, amount),
        Request::DepositInterest { accounts } => deposit_interest_result(s, program, accounts, now),
        Request::DepositInterestMultiple {
            accounts,
            remaining_accounts,
        } => deposit_interest_multiple_result(s, program, accounts, remaining_accounts@, now),
    }
}

/// Whether a request is one of the two that pay interest.
pub open spec fn is_accrual(request: Request) -> bool {
    request is DepositInterest || request is DepositInterestMultiple
}

/// Handles one request at the time `now`. It either takes effect as a whole
/// or fails and changes nothing; either way every asset's circulation stays
/// what it was.
pub fn process(ledger: &mut Ledger, request: &Request, now: i64) -> (r: Result<(), SavingsError>)
    requires
        old(ledger).wf(),
    ensures
        final(ledger).wf(),
        final(ledger).program() == old(ledger).program(),
        forall|mint: Address| final(ledger).supply(mint) == old(ledger).supply(mint),
        match outcome(old(ledger)@, old(ledger).program(), *request, now) {
            Ok(s) => r is Ok && final(ledger)@ == s,
            Err(e) => r == Err::<(), SavingsError>(e) && final(ledger)@ == old(ledger)@,
        },
{
    match request {
        Request::InitializeState { accounts, authority } => initialize_state(
            ledger,
            accounts,
            *authority,
        ),
        Request::CreateInterestVault { accounts } => create_interest_vault(ledger, accounts),
        Request::DepositToInterestVault { accounts, amount } => deposit_to_interest_vault(
            ledger,
            accounts,
            *amount,
        ),
        Request::WithdrawFromInterestVault { accounts, amount } => withdraw_from_interest_vault(
            ledger,
            accounts,
            *amount,
        ),
        Request::UserCreateVault { accounts } => user_create_vault(ledger, accounts, now),
        Request::UserDeposit { accounts, amount } => user_deposit(ledger, accounts, *amount),
        Request::UserWithdraw { accounts, amount } => user_withdraw(ledger, accounts, *amount),
        Request::DepositInterest { accounts } => deposit_interest(ledger, accounts, now),
        Request::DepositInterestMultiple { accounts, remaining_accounts } => {
            deposit_interest_multiple(ledger, accounts, remaining_accounts, now)
        },
    }
}

/// How an account may differ after a request handled at `now`: it keeps its
/// identity, and a vault's clock either stands or was set forward to `now`.
pub open spec fn evolved(before: Account, after: Account, now: i64) -> bool {
    &&& same_identity(before, after)
    &&& match (before, after) {
        (Account::SavingsManager(x), Account::SavingsManager(y)) => y.last_interest_deposit_ts
            == x.last_interest_deposit_ts || (y.last_interest_deposit_ts == now && now
            > x.last_interest_deposit_ts),
        _ => true,
    }
}

/// Every account of `s` is still there in `after`, evolved.
pub open spec fn carried_on(s: Accounts, after: Accounts, now: i64) -> bool {
    forall|k: Address| #[trigger] s.dom().contains(k) ==> after.dom().contains(k) && evolved(
        s[k],
        after[k],
        now,
    )
}

/// Every vault's record is the same in `after` as in `s`.
pub open spec fn clocks_untouched(s: Accounts, after: Accounts) -> bool {
    forall|k: Address| #[trigger]
        s.dom().contains(k) && s[k] is SavingsManager ==> after.dom().contains(k) && after[k]
            == s[k]
}

proof fn lemma_accrue_carries_on(
    s: Accounts,
    interest_vault: Address,
    manager: Address,
    vault: Address,
    now: i64,
)
    requires
        manager_at(s, manager) is Some,
        token_at(s, vault) is Some,
        token_at(s, interest_vault) is Some,
    ensures
        accrue(s, interest_vault, manager, vault, now) matches Ok(after) ==> carried_on(
            s,
            after,
            now,
        ),
{
}

proof fn lemma_accrue_each_carries_on(
    s: Accounts,
    program: Address,
    distributor: Address,
    mint: Address,
    interest_vault: Address,
    recipients: Seq<Address>,
    now: i64,
)
    requires
        token_at(s, interest_vault) is Some,
    ensures
        accrue_each(s, program, distributor, mint, interest_vault, recipients, now) matches Ok(
            after,
        ) ==> carried_on(s, after, now),
    decreases recipients.len(),
{
    if recipients.len() >= 3 {
        if let Ok(paid) = accrue(s, interest_vault, recipients[1], recipients[2], now) {
            if vault_accounts_valid(
                s,
                program,
                distributor,
                mint,
                recipients[0],
                recipients[1],
                recipients[2],
            ) {
                lemma_accrue_carries_on(s, interest_vault, recipients[1], recipients[2], now);
                assert(paid.dom().contains(interest_vault));
                lemma_accrue_each_carries_on(
                    paid,
                    program,
                    distributor,
                    mint,
                    interest_vault,
                    recipients.skip(3),
                    now,
                );
                if let Ok(after) = accrue_each(
                    paid,
                    program,
                    distributor,
                    mint,
                    interest_vault,
                    recipients.skip(3),
                    now,
                ) {
                    assert forall|k: Address| #[trigger] s.dom().contains(k) implies after.dom().contains(
                        k,
                    ) && evolved(s[k], after[k], now) by {
                        assert(paid.dom().contains(k));
                    }
                }
            }
        }
    }
}

/// Whatever the request: no account is ever removed or turned into another,
/// a pool state keeps its authority and an interest pool its state and
/// asset, and no vault's clock is ever set back. A clock that moves is set
/// to the time of the request, and only the two requests that pay interest
/// move one.
pub proof fn lemma_requests_carry_accounts_on(
    s: Accounts,
    program: Address,
    request: Request,
    now: i64,
)
    ensures
        outcome(s, program, request, now) matches Ok(after) ==> {
            &&& carried_on(s, after, now)
            &&& !is_accrual(request) ==> clocks_untouched(s, after)
        },
{
    match request {
        Request::DepositInterestMultiple { accounts, remaining_accounts } => {
            if token_at(s, accounts.interest_vault) is Some {
                match distributor_at(s, accounts.interest_distributor) {
                    Some(d) => {
                        lemma_accrue_each_carries_on(
                            s,
                            program,
                            accounts.interest_distributor,
                            d.mint,
                            accounts.interest_vault,
                            remaining_accounts@,
                            now,
                        );
                    },
                    None => {},
                }
            }
        },
        _ => {},
    }
}

} // verus!
