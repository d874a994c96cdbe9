//! What the managing authority does: it sets up the pool state, opens an
//! interest pool per asset, and funds or defunds a pool.

use crate::address::{
    associated_token_address, derive_interest_distributor_pda, get_associated_token_address,
    interest_distributor_pda, signer_of, Address,
};
use crate::signer::distributor_signer_seeds;
use crate::error::SavingsError;
use crate::ledger::{is_fund_of, transfer_outcome, transfer_result, Ledger};
use crate::state::{
    distributor_at, state_at, token_at, Account, Accounts, InterestDistributor, State,
    TokenAccount,
};
use vstd::prelude::*;

verus! {

/// The accounts of `initialize_state`.
#[derive(Clone, Copy, Debug, PartialEq, Eq)]
pub struct InitializeState {
    /// Who sets the state up.
    pub initializer: Address,
    /// Where the new pool state is to live.
    pub state: Address,
}

/// The accounts of `create_interest_vault`.
#[derive(Clone, Copy, Debug, PartialEq, Eq)]
pub struct CreateInterestVaultForMint {
    /// The caller, who must be the state's authority.
    pub authority: Address,
    /// Who pays for the new records.
    pub payer: Address,
    /// The pool state the new pool belongs to.
    pub state: Address,
    /// The asset the new pool pays interest in.
    pub mint: Address,
    /// Where the new interest pool is to live.
    pub interest_distributor: Address,
    /// Where the pool's fund account is to live.
    pub interest_vault: Address,
}

/// The accounts of `deposit_to_interest_vault`.
#[derive(Clone, Copy, Debug, PartialEq, Eq)]
pub struct DepositToInterestVault {
    /// The caller, who must be the state's authority.
    pub authority: Address,
    /// The pool state.
    pub state: Address,
    /// The authority of the account the funds come from.
    pub depositor: Address,
    /// The account the funds come from.
    pub depositor_token_account: Address,
    /// The interest pool to fund.
    pub interest_distributor: Address,
    /// The pool's fund account.
    pub interest_vault: Address,
}

/// The accounts of `withdraw_from_interest_vault`.
#[derive(Clone, Copy, Debug, PartialEq, Eq)]
pub struct WithdrawFromInterestVault {
    /// The caller, who must be the state's authority.
    pub authority: Address,
    /// The account the funds go to.
    pub destination_token_account: Address,
    /// The pool state.
    pub state: Address,
    /// The interest pool to defund.
    pub interest_distributor: Address,
    /// The pool's fund account.
    pub interest_vault: Address,
}

/// What `initialize_state` makes of a ledger.
pub open spec fn initialize_state_result(
    s: Accounts,
    ctx: InitializeState,
    authority: Address,
) -> Result<Accounts, SavingsError> {
    if s.dom().contains(ctx.state) {
        Err(SavingsError::AccountInUse)
    } else {
        Ok(s.insert(ctx.state, Account::State(State { authority })))
    }
}

/// What the entry points that only the authority may use ask first: there is a
/// pool state at `state`, and the caller is the authority it names.
pub open spec fn authorize(s: Accounts, state: Address, caller: Address) -> Result<
    (),
    SavingsError,
> {
    match state_at(s, state) {
        None => Err(SavingsError::InvalidAccount),
        Some(st) => if st.authority != caller {
            Err(SavingsError::Unauthorized)
        } else {
            Ok(())
        },
    }
}

/// The addresses named for a new pool are the derived ones.
pub open spec fn new_pool_addresses_valid(program: Address, ctx: CreateInterestVaultForMint) -> bool {
    &&& interest_distributor_pda(program, ctx.state, ctx.mint) matches Some((key, _)) && key
        == ctx.interest_distributor
    &&& associated_token_address(ctx.interest_distributor, ctx.mint) == Some(ctx.interest_vault)
}

/// What `create_interest_vault` makes of a ledger.
pub open spec fn create_interest_vault_result(
    s: Accounts,
    program: Address,
    ctx: CreateInterestVaultForMint,
) -> Result<Accounts, SavingsError> {
    match authorize(s, ctx.state, ctx.authority) {
        Err(e) => Err(e),
        Ok(()) => if !new_pool_addresses_valid(program, ctx) {
            Err(SavingsError::InvalidAccount)
        } else if s.dom().contains(ctx.interest_distributor) || s.dom().contains(
            ctx.interest_vault,
        ) || ctx.interest_distributor == ctx.interest_vault {
            Err(SavingsError::AccountInUse)
        } else {
            Ok(
                s.insert(
                    ctx.interest_distributor,
                    Account::InterestDistributor(
                        InterestDistributor {
                            state: ctx.state,
                            mint: ctx.mint,
                            bump: interest_distributor_pda(program, ctx.state, ctx.mint).unwrap().1,
                        },
                    ),
                ).insert(
                    ctx.interest_vault,
                    Account::Token(
                        TokenAccount { mint: ctx.mint, owner: ctx.interest_distributor, amount: 0 },
                    ),
                ),
            )
        },
    }
}

/// There is an interest pool of `state` at `distributor`, and
/// `interest_vault` is its fund account.
pub open spec fn pool_of_state(
    s: Accounts,
    state: Address,
    distributor: Address,
    interest_vault: Address,
) -> bool {
    distributor_at(s, distributor) matches Some(d) && d.state == state && is_fund_of(
        s,
        interest_vault,
        distributor,
        d.mint,
    )
}

/// What `deposit_to_interest_vault` makes of a ledger.
pub open spec fn deposit_to_interest_vault_result(
    s: Accounts,
    ctx: DepositToInterestVault,
    amount: u64,
) -> Result<Accounts, SavingsError> {
    match authorize(s, ctx.state, ctx.authority) {
        Err(e) => Err(e),
        Ok(()) => if !pool_of_state(s, ctx.state, ctx.interest_distributor, ctx.interest_vault) {
            Err(SavingsError::InvalidAccount)
        } else {
            transfer_result(
                s,
                ctx.depositor_token_account,
                ctx.interest_vault,
                ctx.depositor,
                amount,
            )
        },
    }
}

/// What `withdraw_from_interest_vault` makes of a ledger.
pub open spec fn withdraw_from_interest_vault_result(
    s: Accounts,
    ctx: WithdrawFromInterestVault,
    amount: u64,
) -> Result<Accounts, SavingsError> {
    match authorize(s, ctx.state, ctx.authority) {
        Err(e) => Err(e),
        Ok(()) => if !pool_of_state(s, ctx.state, ctx.interest_distributor, ctx.interest_vault) {
            Err(SavingsError::InvalidAccount)
        } else {
            transfer_outcome(
                s,
                ctx.interest_vault,
                ctx.destination_token_account,
                ctx.interest_distributor,
                true,
                amount,
            )
        },
    }
}

fn check_authority(ledger: &Ledger, state: &Address, caller: &Address) -> (r: Result<
    (),
    SavingsError,
>)
    requires
        ledger.wf(),
    ensures
        r == authorize(ledger@, *state, *caller),
{
    match ledger.state(state) {
        None => Err(SavingsError::InvalidAccount),
        Some(st) => {
            if st.authority == *caller {
                Ok(())
            } else {
                Err(SavingsError::Unauthorized)
            }
        },
    }
}

fn check_pool_of_state(
    ledger: &Ledger,
    state: &Address,
    distributor: &Address,
    interest_vault: &Address,
) -> (r: bool)
    requires
        ledger.wf(),
    ensures
        r == pool_of_state(ledger@, *state, *distributor, *interest_vault),
{
    match ledger.distributor(distributor) {
        None => false,
        Some(d) => d.state == *state && ledger.fund_of(interest_vault, distributor, &d.mint).is_some(),
    }
}

/// Sets up a pool state at a fresh address and names its authority.
pub fn initialize_state(ledger: &mut Ledger, ctx: &InitializeState, authority: Address) -> (r:
    Result<(), SavingsError>)
    requires
        old(ledger).wf(),
    ensures
        final(ledger).wf(),
        final(ledger).program() == old(ledger).program(),
        forall|mint: Address| final(ledger).supply(mint) == old(ledger).supply(mint),
        match initialize_state_result(old(ledger)@, *ctx, authority) {
            Ok(s) => r is Ok && final(ledger)@ == s,
            Err(e) => r == Err::<(), SavingsError>(e) && final(ledger)@ == old(ledger)@,
        },
{
    if ledger.get(&ctx.state).is_some() {
        return Err(SavingsError::AccountInUse);
    }
    ledger.create(ctx.state, Account::State(State { authority }));
    Ok(())
}

/// Opens the interest pool of an asset under a pool state, together with
/// the pool's empty fund account. Only the state's authority may do so, and
/// only once per asset.
pub fn create_interest_vault(ledger: &mut Ledger, ctx: &CreateInterestVaultForMint) -> (r: Result<
    (),
    SavingsError,
>)
    requires
        old(ledger).wf(),
    ensures
        final(ledger).wf(),
        final(ledger).program() == old(ledger).program(),
        forall|mint: Address| final(ledger).supply(mint) == old(ledger).supply(mint),
        match create_interest_vault_result(old(ledger)@, old(ledger).program(), *ctx) {
            Ok(s) => r is Ok && final(ledger)@ == s,
            Err(e) => r == Err::<(), SavingsError>(e) && final(ledger)@ == old(ledger)@,
        },
        r is Ok ==> state_at(old(ledger)@, ctx.state) == Some(State { authority: ctx.authority }),
{
    match check_authority(ledger, &ctx.state, &ctx.authority) {
        Ok(()) => {},
        Err(e) => {
            return Err(e);
        },
    }
    let program = ledger.program_id();
    let bump = match derive_interest_distributor_pda(&program, &ctx.state, &ctx.mint) {
        Some((key, bump)) => {
            if !(key == ctx.interest_distributor) {
                return Err(SavingsError::InvalidAccount);
            }
            bump
        },
        None => {
            return Err(SavingsError::InvalidAccount);
        },
    };
    match get_associated_token_address(&ctx.interest_distributor, &ctx.mint) {
        Some(key) => {
            if !(key == ctx.interest_vault) {
                return Err(SavingsError::InvalidAccount);
            }
        },
        None => {
            return Err(SavingsError::InvalidAccount);
        },
    }
    if ledger.get(&ctx.interest_distributor).is_some() || ledger.get(&ctx.interest_vault).is_some()
        || ctx.interest_distributor == ctx.interest_vault {
        return Err(SavingsError::AccountInUse);
    }
    let pool = Account::InterestDistributor(
        InterestDistributor { state: ctx.state, mint: ctx.mint, bump },
    );
    let fund = Account::Token(
        TokenAccount { mint: ctx.mint, owner: ctx.interest_distributor, amount: 0 },
    );
    // The fund account comes first: the pool refers to it.
    ledger.create(ctx.interest_vault, fund);
    ledger.create(ctx.interest_distributor, pool);
    assert(ledger@ =~= old(ledger)@.insert(ctx.interest_distributor, pool).insert(
        ctx.interest_vault,
        fund,
    ));
    Ok(())
}

/// Tops up an interest pool from a fund account of the depositor's. Only
/// the state's authority may do so.
pub fn deposit_to_interest_vault(ledger: &mut Ledger, ctx: &DepositToInterestVault, amount: u64) -> (r:
    Result<(), SavingsError>)
    requires
        old(ledger).wf(),
    ensures
        final(ledger).wf(),
        final(ledger).program() == old(ledger).program(),
        forall|mint: Address| final(ledger).supply(mint) == old(ledger).supply(mint),
        match deposit_to_interest_vault_result(old(ledger)@, *ctx, amount) {
            Ok(s) => r is Ok && final(ledger)@ == s,
            Err(e) => r == Err::<(), SavingsError>(e) && final(ledger)@ == old(ledger)@,
        },
        r is Ok ==> state_at(old(ledger)@, ctx.state) == Some(State { authority: ctx.authority }),
        r is Ok && ctx.depositor_token_account != ctx.interest_vault ==> {
            &&& token_at(final(ledger)@, ctx.interest_vault).unwrap().amount == token_at(
                old(ledger)@,
                ctx.interest_vault,
            ).unwrap().amount + amount
            &&& token_at(final(ledger)@, ctx.depositor_token_account).unwrap().amount
                == token_at(old(ledger)@, ctx.depositor_token_account).unwrap().amount - amount
        },
{
    match check_authority(ledger, &ctx.state, &ctx.authority) {
        Ok(()) => {},
        Err(e) => {
            return Err(e);
        },
    }
    if !check_pool_of_state(ledger, &ctx.state, &ctx.interest_distributor, &ctx.interest_vault) {
        return Err(SavingsError::InvalidAccount);
    }
    ledger.transfer(&ctx.depositor_token_account, &ctx.interest_vault, &ctx.depositor, amount)
}

/// Takes funds out of an interest pool, on the pool's own derived
/// authority. Only the state's authority may ask for it.
pub fn withdraw_from_interest_vault(
    ledger: &mut Ledger,
    ctx: &WithdrawFromInterestVault,
    amount: u64,
) -> (r: Result<(), SavingsError>)
    requires
        old(ledger).wf(),
    ensures
        final(ledger).wf(),
        final(ledger).program() == old(ledger).program(),
        forall|mint: Address| final(ledger).supply(mint) == old(ledger).supply(mint),
        match withdraw_from_interest_vault_result(old(ledger)@, *ctx, amount) {
            Ok(s) => r is Ok && final(ledger)@ == s,
            Err(e) => r == Err::<(), SavingsError>(e) && final(ledger)@ == old(ledger)@,
        },
        r is Ok ==> state_at(old(ledger)@, ctx.state) == Some(State { authority: ctx.authority }),
        r is Ok ==> signer_of(
            distributor_signer_seeds(
                distributor_at(old(ledger)@, ctx.interest_distributor).unwrap(),
            ),
            old(ledger).program(),
        ) == Some(ctx.interest_distributor),
        r is Ok && ctx.destination_token_account != ctx.interest_vault ==> {
            &&& token_at(final(ledger)@, ctx.interest_vault).unwrap().amount == token_at(
                old(ledger)@,
                ctx.interest_vault,
            ).unwrap().amount - amount
            &&& token_at(final(ledger)@, ctx.destination_token_account).unwrap().amount
                == token_at(old(ledger)@, ctx.destination_token_account).unwrap().amount + amount
        },
{
    match check_authority(ledger, &ctx.state, &ctx.authority) {
        Ok(()) => {},
        Err(e) => {
            return Err(e);
        },
    }
    if !check_pool_of_state(ledger, &ctx.state, &ctx.interest_distributor, &ctx.interest_vault) {
        return Err(SavingsError::InvalidAccount);
    }
    let pool = ledger.distributor(&ctx.interest_distributor).unwrap();
    proof {
        ledger.lemma_well_placed(ctx.interest_distributor);
    }
    ledger.transfer_signed(
        &ctx.interest_vault,
        &ctx.destination_token_account,
        &pool.signer_seeds(),
        amount,
    )
}

/// Only the authority that a pool state names gets anything done through
/// the three entry points that manage interest pools: for any other caller
/// each of them fails as unauthorized, whatever else the request holds.
pub proof fn lemma_admin_only(
    s: Accounts,
    program: Address,
    create: CreateInterestVaultForMint,
    deposit: DepositToInterestVault,
    withdraw: WithdrawFromInterestVault,
    amount: u64,
)
    ensures
        state_at(s, create.state) matches Some(st) && st.authority != create.authority
            ==> create_interest_vault_result(s, program, create) == Err::<Accounts, SavingsError>(
            SavingsError::Unauthorized,
        ),
        state_at(s, deposit.state) matches Some(st) && st.authority != deposit.authority
            ==> deposit_to_interest_vault_result(s, deposit, amount) == Err::<
            Accounts,
            SavingsError,
        >(SavingsError::Unauthorized),
        state_at(s, withdraw.state) matches Some(st) && st.authority != withdraw.authority
            ==> withdraw_from_interest_vault_result(s, withdraw, amount) == Err::<
            Accounts,
            SavingsError,
        >(SavingsError::Unauthorized),
        create_interest_vault_result(s, program, create) is Ok ==> state_at(s, create.state)
            == Some(State { authority: create.authority }),
        deposit_to_interest_vault_result(s, deposit, amount) is Ok ==> state_at(s, deposit.state)
            == Some(State { authority: deposit.authority }),
        withdraw_from_interest_vault_result(s, withdraw, amount) is Ok ==> state_at(
            s,
            withdraw.state,
        ) == Some(State { authority: withdraw.authority }),
{
}

} // verus!
