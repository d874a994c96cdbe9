//! Who can take funds out of which account. Whatever request the program
//! handles, at most one account is drawn on, and it is one that the caller
//! has the say over: a depositor's own account, a vault for its owner, an
//! interest pool for its authority or for an accrual that is due.

use crate::accrual::{accrue, accrue_each, vault_accounts_valid};
use crate::address::{associated_token_address, Address};
use crate::ledger::{share, Ledger};
use crate::program::{outcome, Request};
use crate::state::{distributor_at, manager_at, state_at, token_at, Accounts, State};
use vstd::prelude::*;

verus! {

/// The balance of the fund account at an address; nothing where there is
/// none.
pub open spec fn balance_at(s: Accounts, fund: Address) -> nat {
    match token_at(s, fund) {
        Some(t) => t.amount as nat,
        None => 0,
    }
}

/// The one account that a request may draw on.
pub open spec fn source_of(request: Request) -> Option<Address> {
    match request {
        Request::DepositToInterestVault { accounts, .. } => Some(accounts.depositor_token_account),
        Request::WithdrawFromInterestVault { accounts, .. } => Some(accounts.interest_vault),
        Request::UserDeposit { accounts, .. } => Some(accounts.user_token_account),
        Request::UserWithdraw { accounts, .. } => Some(accounts.savings_vault),
        Request::DepositInterest { accounts } => Some(accounts.interest_vault),
        Request::DepositInterestMultiple { accounts, .. } => Some(accounts.interest_vault),
        _ => None,
    }
}

/// No fund account but `source` holds less in `after` than in `s`.
pub open spec fn only_drawn_on(s: Accounts, after: Accounts, source: Option<Address>) -> bool {
    forall|fund: Address|
        #![trigger token_at(s, fund)]
        token_at(s, fund) is Some && source != Some(fund) ==> balance_at(after, fund)
            >= balance_at(s, fund)
}

/// Every fund account of the pool's asset, together with the pool's own,
/// holds no more than a balance can express.
spec fn headroom(s: Accounts, interest_vault: Address) -> bool {
    forall|k: Address|
        #![trigger token_at(s, k)]
        token_at(s, k) is Some && k != interest_vault && token_at(s, k).unwrap().mint == token_at(
            s,
            interest_vault,
        ).unwrap().mint ==> token_at(s, k).unwrap().amount + token_at(
            s,
            interest_vault,
        ).unwrap().amount <= u64::MAX
}

proof fn lemma_headroom(ledger: &Ledger, interest_vault: Address)
    requires
        ledger.wf(),
        token_at(ledger@, interest_vault) is Some,
    ensures
        headroom(ledger@, interest_vault),
{
    let s = ledger@;
    let pool = token_at(s, interest_vault).unwrap();
    assert forall|k: Address|
        #![trigger token_at(s, k)]
        token_at(s, k) is Some && k != interest_vault && token_at(s, k).unwrap().mint
            == pool.mint implies token_at(s, k).unwrap().amount + pool.amount <= u64::MAX by {
        ledger.lemma_balances_within_supply(k, interest_vault);
        assert(share(s[k], pool.mint) + share(
            s[interest_vault],
            pool.mint,
        ) <= ledger.supply(pool.mint));
    }
}

proof fn lemma_accrue_draws_on_the_pool(
    s: Accounts,
    program: Address,
    distributor: Address,
    mint: Address,
    interest_vault: Address,
    user: Address,
    manager: Address,
    vault: Address,
    now: i64,
)
    requires
        token_at(s, interest_vault) matches Some(p) && p.mint == mint && p.owner == distributor,
        distributor_at(s, distributor) is Some,
        vault_accounts_valid(s, program, distributor, mint, user, manager, vault),
        headroom(s, interest_vault),
    ensures
        accrue(s, interest_vault, manager, vault, now) matches Ok(after) ==> {
            &&& only_drawn_on(s, after, Some(interest_vault))
            &&& headroom(after, interest_vault)
            &&& token_at(after, interest_vault) matches Some(p) && p.mint == mint && p.owner
                == distributor
            &&& distributor_at(after, distributor) == distributor_at(s, distributor)
            &&& forall|k: Address|
                #![trigger token_at(s, k)]
                token_at(s, k) is Some ==> token_at(after, k) is Some
        },
{
    if let Ok(after) = accrue(s, interest_vault, manager, vault, now) {
        assert(token_at(s, vault) is Some);
        assert(vault != interest_vault);
        assert forall|k: Address|
            #![trigger token_at(after, k)]
            token_at(after, k) is Some && k != interest_vault && token_at(after, k).unwrap().mint
                == token_at(after, interest_vault).unwrap().mint implies token_at(
                after,
                k,
            ).unwrap().amount + token_at(after, interest_vault).unwrap().amount <= u64::MAX by {
            assert(token_at(s, k) is Some);
        }
    }
}

proof fn lemma_accrue_each_draws_on_the_pool(
    s: Accounts,
    program: Address,
    distributor: Address,
    mint: Address,
    interest_vault: Address,
    recipients: Seq<Address>,
    now: i64,
)
    requires
        token_at(s, interest_vault) matches Some(p) && p.mint == mint && p.owner == distributor,
        distributor_at(s, distributor) is Some,
        headroom(s, interest_vault),
    ensures
        accrue_each(s, program, distributor, mint, interest_vault, recipients, now) matches Ok(
            after,
        ) ==> only_drawn_on(s, after, Some(interest_vault)),
    decreases recipients.len(),
{
    if recipients.len() >= 3 && vault_accounts_valid(
        s,
        program,
        distributor,
        mint,
        recipients[0],
        recipients[1],
        recipients[2],
    ) {
        if let Ok(paid) = accrue(s, interest_vault, recipients[1], recipients[2], now) {
            lemma_accrue_draws_on_the_pool(
                s,
                program,
                distributor,
                mint,
                interest_vault,
                recipients[0],
                recipients[1],
                recipients[2],
                now,
            );
            lemma_accrue_each_draws_on_the_pool(
                paid,
                program,
                distributor,
                mint,
                interest_vault,
                recipients.skip(3),
                now,
            );
            if let Ok(after) = accrue_each(
                paid,
                program,
                distributor,
                mint,
                interest_vault,
                recipients.skip(3),
                now,
            ) {
                assert forall|fund: Address|
                    #![trigger token_at(s, fund)]
                    token_at(s, fund) is Some && fund != interest_vault implies balance_at(
                        after,
                        fund,
                    ) >= balance_at(s, fund) by {
                    assert(token_at(paid, fund) is Some);
                }
            }
        }
    }
}

/// Whatever the request, it draws on one account at most: every other fund
/// account holds afterwards at least what it held before.
pub proof fn lemma_requests_draw_on_one_account(ledger: &Ledger, request: Request, now: i64)
    requires
        ledger.wf(),
    ensures
        outcome(ledger@, ledger.program(), request, now) matches Ok(after) ==> only_drawn_on(
            ledger@,
            after,
            source_of(request),
        ),
{
    let s = ledger@;
    let program = ledger.program();
    match request {
        Request::DepositToInterestVault { accounts, amount } => {
            if token_at(s, accounts.depositor_token_account) is Some && token_at(
                s,
                accounts.interest_vault,
            ) is Some && accounts.depositor_token_account != accounts.interest_vault {
                ledger.lemma_balances_within_supply(
                    accounts.depositor_token_account,
                    accounts.interest_vault,
                );
                let mint = token_at(s, accounts.interest_vault).unwrap().mint;
                assert(share(s[accounts.depositor_token_account], mint)
                    + share(s[accounts.interest_vault], mint) <= ledger.supply(mint));
            }
        },
        Request::WithdrawFromInterestVault { accounts, amount } => {
            if token_at(s, accounts.destination_token_account) is Some && token_at(
                s,
                accounts.interest_vault,
            ) is Some && accounts.destination_token_account != accounts.interest_vault {
                ledger.lemma_balances_within_supply(
                    accounts.destination_token_account,
                    accounts.interest_vault,
                );
                let mint = token_at(s, accounts.interest_vault).unwrap().mint;
                assert(share(s[accounts.destination_token_account], mint)
                    + share(s[accounts.interest_vault], mint) <= ledger.supply(mint));
            }
        },
        Request::UserDeposit { accounts, amount } => {
            if token_at(s, accounts.user_token_account) is Some && token_at(
                s,
                accounts.savings_vault,
            ) is Some && accounts.user_token_account != accounts.savings_vault {
                ledger.lemma_balances_within_supply(
                    accounts.user_token_account,
                    accounts.savings_vault,
                );
                let mint = token_at(s, accounts.savings_vault).unwrap().mint;
                assert(share(s[accounts.user_token_account], mint)
                    + share(s[accounts.savings_vault], mint) <= ledger.supply(mint));
            }
        },
        Request::UserWithdraw { accounts, amount } => {
            if token_at(s, accounts.destination_token_account) is Some && token_at(
                s,
                accounts.savings_vault,
            ) is Some && accounts.destination_token_account != accounts.savings_vault {
                ledger.lemma_balances_within_supply(
                    accounts.destination_token_account,
                    accounts.savings_vault,
                );
                let mint = token_at(s, accounts.savings_vault).unwrap().mint;
                assert(share(s[accounts.destination_token_account], mint)
                    + share(s[accounts.savings_vault], mint) <= ledger.supply(mint));
            }
        },
        Request::DepositInterest { accounts } => {
            if outcome(s, program, request, now) is Ok {
                lemma_headroom(ledger, accounts.interest_vault);
                let pool = distributor_at(s, accounts.interest_distributor).unwrap();
                lemma_accrue_draws_on_the_pool(
                    s,
                    program,
                    accounts.interest_distributor,
                    pool.mint,
                    accounts.interest_vault,
                    accounts.user,
                    accounts.user_savings_manager,
                    accounts.user_savings_vault,
                    now,
                );
            }
        },
        Request::DepositInterestMultiple { accounts, remaining_accounts } => {
            if outcome(s, program, request, now) is Ok {
                lemma_headroom(ledger, accounts.interest_vault);
                let pool = distributor_at(s, accounts.interest_distributor).unwrap();
                lemma_accrue_each_draws_on_the_pool(
                    s,
                    program,
                    accounts.interest_distributor,
                    pool.mint,
                    accounts.interest_vault,
                    remaining_accounts@,
                    now,
                );
            }
        },
        _ => {},
    }
}

/// Funds leave a vault only when the vault's owner withdraws them: a
/// request after which a vault holds less is a withdrawal that names the
/// vault's record and is made by the user whom the record names as owner.
pub proof fn lemma_vault_funds_leave_by_the_owner_only(
    ledger: &Ledger,
    request: Request,
    now: i64,
    manager: Address,
)
    requires
        ledger.wf(),
        manager_at(ledger@, manager) is Some,
    ensures
        ({
            let s = ledger@;
            let record = manager_at(s, manager).unwrap();
            let fund = associated_token_address(manager, record.mint).unwrap();
            &&& token_at(s, fund) matches Some(held) && held.owner == manager
            &&& match outcome(s, ledger.program(), request, now) {
                Ok(after) => balance_at(s, fund) > balance_at(after, fund) ==> (
                request matches Request::UserWithdraw { accounts, .. } && accounts.user
                    == record.user && accounts.savings_manager == manager
                    && accounts.savings_vault == fund),
                Err(_) => true,
            }
        }),
{
    ledger.lemma_well_placed(manager);
    lemma_requests_draw_on_one_account(ledger, request, now);
}

/// Funds leave an interest pool only when the authority of the pool's
/// state withdraws them, or as interest paid to a vault: a request after
/// which a pool holds less is a withdrawal by that authority, or one of the
/// two requests that pay interest, naming that pool.
pub proof fn lemma_pool_funds_leave_by_the_authority_or_as_interest(
    ledger: &Ledger,
    request: Request,
    now: i64,
    distributor: Address,
)
    requires
        ledger.wf(),
        distributor_at(ledger@, distributor) is Some,
    ensures
        ({
            let s = ledger@;
            let pool = distributor_at(s, distributor).unwrap();
            let fund = associated_token_address(distributor, pool.mint).unwrap();
            &&& token_at(s, fund) matches Some(held) && held.owner == distributor
            &&& match outcome(s, ledger.program(), request, now) {
                Ok(after) => balance_at(s, fund) > balance_at(after, fund) ==> (match request {
                    Request::WithdrawFromInterestVault { accounts, .. } => {
                        &&& accounts.interest_distributor == distributor
                        &&& accounts.state == pool.state
                        &&& state_at(s, pool.state) == Some(
                            State { authority: accounts.authority },
                        )
                    },
                    Request::DepositInterest { accounts } => accounts.interest_distributor
                        == distributor,
                    Request::DepositInterestMultiple {
                        accounts,
                        ..
                    } => accounts.interest_distributor == distributor,
                    _ => false,
                }),
                Err(_) => true,
            }
        }),
{
    ledger.lemma_well_placed(distributor);
    lemma_requests_draw_on_one_account(ledger, request, now);
}

} // verus!
