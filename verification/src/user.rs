//! What a saver does: open a vault against an interest pool, and move their
//! own funds in and out of it.

use crate::address::{
    associated_token_address, derive_savings_manager_pda, get_associated_token_address,
    savings_manager_pda, signer_of, Address,
};
use crate::signer::manager_signer_seeds;
use crate::error::SavingsError;
use crate::ledger::{is_fund_of, transfer_outcome, transfer_result, Ledger};
use crate::state::{
    distributor_at, manager_at, token_at, Account, Accounts, SavingsManager, TokenAccount,
};
use vstd::prelude::*;

verus! {

/// The accounts of `user_create_vault`.
#[derive(Clone, Copy, Debug, PartialEq, Eq)]
pub struct UserCreateVault {
    /// Who pays for the new records.
    pub payer: Address,
    /// The caller, who will own the vault.
    pub user: Address,
    /// The asset to save.
    pub mint: Address,
    /// The interest pool of that asset.
    pub interest_distributor: Address,
    /// Where the new vault record is to live.
    pub savings_manager: Address,
    /// Where the vault's fund account is to live.
    pub savings_vault: Address,
}

/// The accounts of `user_deposit`.
#[derive(Clone, Copy, Debug, PartialEq, Eq)]
pub struct UserDeposit {
    /// The caller, who must own the vault.
    pub user: Address,
    /// The vault record.
    pub savings_manager: Address,
    /// The caller's account the funds come from.
    pub user_token_account: Address,
    /// The vault's fund account.
    pub savings_vault: Address,
}

/// The accounts of `user_withdraw`.
#[derive(Clone, Copy, Debug, PartialEq, Eq)]
pub struct UserWithdraw {
    /// The caller, who must own the vault.
    pub user: Address,
    /// The vault record.
    pub savings_manager: Address,
    /// The vault's fund account.
    pub savings_vault: Address,
    /// The account the funds go to.
    pub destination_token_account: Address,
}

/// The addresses named for a new vault are the derived ones.
pub open spec fn new_vault_addresses_valid(program: Address, ctx: UserCreateVault) -> bool {
    &&& savings_manager_pda(program, ctx.user, ctx.interest_distributor) matches Some((key, _))
        && key == ctx.savings_manager
    &&& associated_token_address(ctx.savings_manager, ctx.mint) == Some(ctx.savings_vault)
}

/// What `user_create_vault` makes of a ledger.
pub open spec fn user_create_vault_result(
    s: Accounts,
    program: Address,
    ctx: UserCreateVault,
    now: i64,
) -> Result<Accounts, SavingsError> {
    if !(distributor_at(s, ctx.interest_distributor) matches Some(d) && d.mint == ctx.mint) {
        Err(SavingsError::InvalidAccount)
    } else if !new_vault_addresses_valid(program, ctx) {
        Err(SavingsError::InvalidAccount)
    } else if s.dom().contains(ctx.savings_manager) || s.dom().contains(ctx.savings_vault)
        || ctx.savings_manager == ctx.savings_vault {
        Err(SavingsError::AccountInUse)
    } else {
        Ok(
            s.insert(
                ctx.savings_manager,
                Account::SavingsManager(
                    SavingsManager {
                        user: ctx.user,
                        mint: ctx.mint,
                        distributor: ctx.interest_distributor,
                        last_interest_deposit_ts: now,
                        bump: savings_manager_pda(
                            program,
                            ctx.user,
                            ctx.interest_distributor,
                        ).unwrap().1,
                    },
                ),
            ).insert(
                ctx.savings_vault,
                Account::Token(
                    TokenAccount { mint: ctx.mint, owner: ctx.savings_manager, amount: 0 },
                ),
            ),
        )
    }
}

/// What a vault's deposits and withdrawals ask first: there is a vault record
/// at `manager`, the caller owns it, and `vault` is its fund account.
pub open spec fn vault_access(s: Accounts, manager: Address, vault: Address, caller: Address) -> Result<
    (),
    SavingsError,
> {
    match manager_at(s, manager) {
        None => Err(SavingsError::InvalidAccount),
        Some(m) => if m.user != caller {
            Err(SavingsError::Unauthorized)
        } else if !is_fund_of(s, vault, manager, m.mint) {
            Err(SavingsError::InvalidAccount)
        } else {
            Ok(())
        },
    }
}

/// What `user_deposit` makes of a ledger.
pub open spec fn user_deposit_result(s: Accounts, ctx: UserDeposit, amount: u64) -> Result<
    Accounts,
    SavingsError,
> {
    match vault_access(s, ctx.savings_manager, ctx.savings_vault, ctx.user) {
        Err(e) => Err(e),
        Ok(()) => transfer_result(
            s,
            ctx.user_token_account,
            ctx.savings_vault,
            ctx.user,
            amount,
        ),
    }
}

/// What `user_withdraw` makes of a ledger.
pub open spec fn user_withdraw_result(s: Accounts, ctx: UserWithdraw, amount: u64) -> Result<
    Accounts,
    SavingsError,
> {
    match vault_access(s, ctx.savings_manager, ctx.savings_vault, ctx.user) {
        Err(e) => Err(e),
        Ok(()) => if token_at(s, ctx.savings_vault).unwrap().amount < amount {
            Err(SavingsError::InadequateFunds)
        } else {
            transfer_outcome(
                s,
                ctx.savings_vault,
                ctx.destination_token_account,
                ctx.savings_manager,
                true,
                amount,
            )
        },
    }
}

fn check_vault_access(ledger: &Ledger, manager: &Address, vault: &Address, caller: &Address) -> (r:
    Result<TokenAccount, SavingsError>)
    requires
        ledger.wf(),
    ensures
        match vault_access(ledger@, *manager, *vault, *caller) {
            Ok(()) => r is Ok && token_at(ledger@, *vault) == Some(r.unwrap()),
            Err(e) => r == Err::<TokenAccount, SavingsError>(e),
        },
{
    let m = match ledger.manager(manager) {
        Some(m) => m,
        None => {
            return Err(SavingsError::InvalidAccount);
        },
    };
    if !(m.user == *caller) {
        return Err(SavingsError::Unauthorized);
    }
    match ledger.fund_of(vault, manager, &m.mint) {
        Some(held) => Ok(held),
        None => Err(SavingsError::InvalidAccount),
    }
}

/// Opens a vault for the caller against an existing interest pool of the
/// asset, together with the vault's empty fund account. The vault's clock
/// starts at `now`: the first accrual is due one period later.
pub fn user_create_vault(ledger: &mut Ledger, ctx: &UserCreateVault, now: i64) -> (r: Result<
    (),
    SavingsError,
>)
    requires
        old(ledger).wf(),
    ensures
        final(ledger).wf(),
        final(ledger).program() == old(ledger).program(),
        forall|mint: Address| final(ledger).supply(mint) == old(ledger).supply(mint),
        match user_create_vault_result(old(ledger)@, old(ledger).program(), *ctx, now) {
            Ok(s) => r is Ok && final(ledger)@ == s,
            Err(e) => r == Err::<(), SavingsError>(e) && final(ledger)@ == old(ledger)@,
        },
{
    match ledger.distributor(&ctx.interest_distributor) {
        Some(d) => {
            if !(d.mint == ctx.mint) {
                return Err(SavingsError::InvalidAccount);
            }
        },
        None => {
            return Err(SavingsError::InvalidAccount);
        },
    }
    let program = ledger.program_id();
    let bump = match derive_savings_manager_pda(&program, &ctx.user, &ctx.interest_distributor) {
        Some((key, bump)) => {
            if !(key == ctx.savings_manager) {
                return Err(SavingsError::InvalidAccount);
            }
            bump
        },
        None => {
            return Err(SavingsError::InvalidAccount);
        },
    };
    match get_associated_token_address(&ctx.savings_manager, &ctx.mint) {
        Some(key) => {
            if !(key == ctx.savings_vault) {
                return Err(SavingsError::InvalidAccount);
            }
        },
        None => {
            return Err(SavingsError::InvalidAccount);
        },
    }
    if ledger.get(&ctx.savings_manager).is_some() || ledger.get(&ctx.savings_vault).is_some()
        || ctx.savings_manager == ctx.savings_vault {
        return Err(SavingsError::AccountInUse);
    }
    let record = Account::SavingsManager(
        SavingsManager {
            user: ctx.user,
            mint: ctx.mint,
            distributor: ctx.interest_distributor,
            last_interest_deposit_ts: now,
            bump,
        },
    );
    let fund = Account::Token(
        TokenAccount { mint: ctx.mint, owner: ctx.savings_manager, amount: 0 },
    );
    // The fund account comes first: the vault record refers to it.
    ledger.create(ctx.savings_vault, fund);
    ledger.create(ctx.savings_manager, record);
    assert(ledger@ =~= old(ledger)@.insert(ctx.savings_manager, record).insert(
        ctx.savings_vault,
        fund,
    ));
    Ok(())
}

/// Moves funds of the caller's into their vault. The vault's clock is not
/// touched.
pub fn user_deposit(ledger: &mut Ledger, ctx: &UserDeposit, amount: u64) -> (r: Result<
    (),
    SavingsError,
>)
    requires
        old(ledger).wf(),
    ensures
        final(ledger).wf(),
        final(ledger).program() == old(ledger).program(),
        forall|mint: Address| final(ledger).supply(mint) == old(ledger).supply(mint),
        match user_deposit_result(old(ledger)@, *ctx, amount) {
            Ok(s) => r is Ok && final(ledger)@ == s,
            Err(e) => r == Err::<(), SavingsError>(e) && final(ledger)@ == old(ledger)@,
        },
        r is Ok && ctx.user_token_account != ctx.savings_vault ==> {
            &&& token_at(final(ledger)@, ctx.savings_vault).unwrap().amount == token_at(
                old(ledger)@,
                ctx.savings_vault,
            ).unwrap().amount + amount
            &&& token_at(final(ledger)@, ctx.user_token_account).unwrap().amount == token_at(
                old(ledger)@,
                ctx.user_token_account,
            ).unwrap().amount - amount
        },
{
    match check_vault_access(ledger, &ctx.savings_manager, &ctx.savings_vault, &ctx.user) {
        Ok(_) => {},
        Err(e) => {
            return Err(e);
        },
    }
    ledger.transfer(&ctx.user_token_account, &ctx.savings_vault, &ctx.user, amount)
}

/// Moves funds out of the caller's vault, on the vault record's own derived
/// authority. The vault must hold the amount in full. The vault's clock is
/// not touched.
pub fn user_withdraw(ledger: &mut Ledger, ctx: &UserWithdraw, amount: u64) -> (r: Result<
    (),
    SavingsError,
>)
    requires
        old(ledger).wf(),
    ensures
        final(ledger).wf(),
        final(ledger).program() == old(ledger).program(),
        forall|mint: Address| final(ledger).supply(mint) == old(ledger).supply(mint),
        match user_withdraw_result(old(ledger)@, *ctx, amount) {
            Ok(s) => r is Ok && final(ledger)@ == s,
            Err(e) => r == Err::<(), SavingsError>(e) && final(ledger)@ == old(ledger)@,
        },
        vault_access(old(ledger)@, ctx.savings_manager, ctx.savings_vault, ctx.user) is Ok
            && amount > token_at(old(ledger)@, ctx.savings_vault).unwrap().amount ==> r == Err::<
            (),
            SavingsError,
        >(SavingsError::InadequateFunds),
        r is Ok ==> signer_of(
            manager_signer_seeds(manager_at(old(ledger)@, ctx.savings_manager).unwrap()),
            old(ledger).program(),
        ) == Some(ctx.savings_manager),
        r is Ok && ctx.destination_token_account != ctx.savings_vault ==> {
            &&& token_at(final(ledger)@, ctx.savings_vault).unwrap().amount == token_at(
                old(ledger)@,
                ctx.savings_vault,
            ).unwrap().amount - amount
            &&& token_at(final(ledger)@, ctx.destination_token_account).unwrap().amount
                == token_at(old(ledger)@, ctx.destination_token_account).unwrap().amount + amount
        },
{
    let held = match check_vault_access(
        ledger,
        &ctx.savings_manager,
        &ctx.savings_vault,
        &ctx.user,
    ) {
        Ok(held) => held,
        Err(e) => {
            return Err(e);
        },
    };
    if held.amount < amount {
        return Err(SavingsError::InadequateFunds);
    }
    let record = ledger.manager(&ctx.savings_manager).unwrap();
    proof {
        ledger.lemma_well_placed(ctx.savings_manager);
    }
    ledger.transfer_signed(
        &ctx.savings_vault,
        &ctx.destination_token_account,
        &record.signer_seeds(),
        amount,
    )
}

/// A withdrawal of more than the vault holds fails as underfunded, whatever
/// the destination; and a withdrawal that succeeds takes the whole amount
/// out of the vault.
pub proof fn lemma_withdraw_within_balance(s: Accounts, ctx: UserWithdraw, amount: u64)
    requires
        vault_access(s, ctx.savings_manager, ctx.savings_vault, ctx.user) is Ok,
    ensures
        amount > token_at(s, ctx.savings_vault).unwrap().amount ==> user_withdraw_result(
            s,
            ctx,
            amount,
        ) == Err::<Accounts, SavingsError>(SavingsError::InadequateFunds),
        user_withdraw_result(s, ctx, amount) matches Ok(after) ==> {
            &&& amount <= token_at(s, ctx.savings_vault).unwrap().amount
            &&& ctx.destination_token_account != ctx.savings_vault ==> token_at(
                after,
                ctx.savings_vault,
            ).unwrap().amount == token_at(s, ctx.savings_vault).unwrap().amount - amount
            &&& manager_at(after, ctx.savings_manager) == manager_at(s, ctx.savings_manager)
        },
{
}

/// A deposit or withdrawal by anyone but the vault's owner fails as
/// unauthorized.
pub proof fn lemma_owner_only(s: Accounts, deposit: UserDeposit, withdraw: UserWithdraw, amount: u64)
    ensures
        manager_at(s, deposit.savings_manager) matches Some(m) && m.user != deposit.user
            ==> user_deposit_result(s, deposit, amount) == Err::<Accounts, SavingsError>(
            SavingsError::Unauthorized,
        ),
        manager_at(s, withdraw.savings_manager) matches Some(m) && m.user != withdraw.user
            ==> user_withdraw_result(s, withdraw, amount) == Err::<Accounts, SavingsError>(
            SavingsError::Unauthorized,
        ),
{
}

} // verus!
