//! Paying interest. Anyone may ask for the interest of any vault to be paid;
//! the only condition is the time that has passed since the vault's last accrual.

use crate::address::{
    associated_token_address, derive_savings_manager_pda, get_associated_token_address,
    savings_manager_pda, signer_of, Address,
};
use crate::signer::distributor_signer_seeds;
use crate::error::SavingsError;
use crate::interest::{check_accrual, payout, SECONDS_IN_MONTHS};
use crate::crank::accrual_accounts;
use crate::ledger::{is_fund_of, share, Ledger};
use crate::state::{
    distributor_at, manager_at, token_at, Account, Accounts, SavingsManager, TokenAccount,
};
use vstd::prelude::*;

verus! {

/// The accounts of one accrual.
#[derive(Clone, Copy, Debug, PartialEq, Eq)]
pub struct DepositInterestToUser {
    /// The user whose vault is to receive interest.
    pub user: Address,
    /// The user's vault record.
    pub user_savings_manager: Address,
    /// The fund account of that vault.
    pub user_savings_vault: Address,
    /// The interest pool that pays.
    pub interest_distributor: Address,
    /// The fund account of that pool.
    pub interest_vault: Address,
}

/// The accounts that a batched accrual names once; the recipients follow as
/// a list of (user, vault record, fund account) triples.
#[derive(Clone, Copy, Debug, PartialEq, Eq)]
pub struct DepositInterestToMultipleUsers {
    /// The interest pool that pays.
    pub interest_distributor: Address,
    /// The fund account of that pool.
    pub interest_vault: Address,
}

/// The paying side is in order: there is an interest pool at `distributor`,
/// and `interest_vault` is its fund account.
pub open spec fn pool_accounts_valid(
    s: Accounts,
    distributor: Address,
    interest_vault: Address,
) -> bool {
    distributor_at(s, distributor) matches Some(d) && is_fund_of(
        s,
        interest_vault,
        distributor,
        d.mint,
    )
}

/// The receiving side is in order: `manager` is the address derived for
/// (`user`, `distributor`), it holds a vault record of the pool's asset
/// `mint`, and `vault` is that record's fund account.
pub open spec fn vault_accounts_valid(
    s: Accounts,
    program: Address,
    distributor: Address,
    mint: Address,
    user: Address,
    manager: Address,
    vault: Address,
) -> bool {
    &&& savings_manager_pda(program, user, distributor) matches Some((key, _)) && key == manager
    &&& manager_at(s, manager) matches Some(m) && m.mint == mint && is_fund_of(
        s,
        vault,
        manager,
        mint,
    )
}

/// One accrual on accounts that are in order: the interest moves from the
/// pool's fund account to the vault's, and the vault's clock is set to `now`.
pub open spec fn accrue(
    s: Accounts,
    interest_vault: Address,
    manager: Address,
    vault: Address,
    now: i64,
) -> Result<Accounts, SavingsError> {
    let m = manager_at(s, manager).unwrap();
    let v = token_at(s, vault).unwrap();
    let p = token_at(s, interest_vault).unwrap();
    match payout(now, m.last_interest_deposit_ts, v.amount, p.amount) {
        Err(e) => Err(e),
        Ok(interest) => Ok(
            s.insert(
                interest_vault,
                Account::Token(TokenAccount { amount: (p.amount - interest) as u64, ..p }),
            ).insert(
                vault,
                Account::Token(TokenAccount { amount: (v.amount + interest) as u64, ..v }),
            ).insert(
                manager,
                Account::SavingsManager(SavingsManager { last_interest_deposit_ts: now, ..m }),
            ),
        ),
    }
}

/// The accounts of an accrual are in order: both the paying and the
/// receiving side.
pub open spec fn deposit_interest_accounts_valid(
    s: Accounts,
    program: Address,
    ctx: DepositInterestToUser,
) -> bool {
    distributor_at(s, ctx.interest_distributor) matches Some(d) && is_fund_of(
        s,
        ctx.interest_vault,
        ctx.interest_distributor,
        d.mint,
    ) && vault_accounts_valid(
        s,
        program,
        ctx.interest_distributor,
        d.mint,
        ctx.user,
        ctx.user_savings_manager,
        ctx.user_savings_vault,
    )
}

/// What `deposit_interest` makes of a ledger.
pub open spec fn deposit_interest_result(
    s: Accounts,
    program: Address,
    ctx: DepositInterestToUser,
    now: i64,
) -> Result<Accounts, SavingsError> {
    if deposit_interest_accounts_valid(s, program, ctx) {
        accrue(s, ctx.interest_vault, ctx.user_savings_manager, ctx.user_savings_vault, now)
    } else {
        Err(SavingsError::InvalidAccount)
    }
}

/// The recipients of a batch, one triple after another, each paid on the
/// ledger as the ones before it left it. The first that cannot be paid
/// decides the outcome.
pub open spec fn accrue_each(
    s: Accounts,
    program: Address,
    distributor: Address,
    mint: Address,
    interest_vault: Address,
    recipients: Seq<Address>,
    now: i64,
) -> Result<Accounts, SavingsError>
    decreases recipients.len(),
{
    if recipients.len() < 3 {
        Ok(s)
    } else if !vault_accounts_valid(
        s,
        program,
        distributor,
        mint,
        recipients[0],
        recipients[1],
        recipients[2],
    ) {
        Err(SavingsError::InvalidAccount)
    } else {
        match accrue(s, interest_vault, recipients[1], recipients[2], now) {
            Err(e) => Err(e),
            Ok(paid) => accrue_each(
                paid,
                program,
                distributor,
                mint,
                interest_vault,
                recipients.skip(3),
                now,
            ),
        }
    }
}

/// How many recipients a list names: it holds three accounts for each, at
/// least one recipient, and nothing besides.
pub open spec fn recipient_count(listed: nat) -> Result<nat, SavingsError> {
    if listed < 3 {
        Err(SavingsError::ZeroRecipientsForInterestDeposit)
    } else if listed % 3 != 0 {
        Err(SavingsError::InvalidAccount)
    } else {
        Ok(listed / 3)
    }
}

/// What `deposit_interest_multiple` makes of a ledger.
pub open spec fn deposit_interest_multiple_result(
    s: Accounts,
    program: Address,
    ctx: DepositInterestToMultipleUsers,
    recipients: Seq<Address>,
    now: i64,
) -> Result<Accounts, SavingsError> {
    match distributor_at(s, ctx.interest_distributor) {
        Some(d) => if !is_fund_of(s, ctx.interest_vault, ctx.interest_distributor, d.mint) {
            Err(SavingsError::InvalidAccount)
        } else {
            match recipient_count(recipients.len()) {
                Err(e) => Err(e),
                Ok(_) => accrue_each(
                    s,
                    program,
                    ctx.interest_distributor,
                    d.mint,
                    ctx.interest_vault,
                    recipients,
                    now,
                ),
            }
        },
        None => Err(SavingsError::InvalidAccount),
    }
}

/// A recipient as a request presents it is in order: `manager` is the
/// address derived for (`user`, `distributor`), the record there is of the
/// pool's asset `mint`, `vault` is the address derived for the record's fund
/// account, and the account there records that asset and the record as its
/// authority.
pub open spec fn recipient_in_order(
    program: Address,
    distributor: Address,
    mint: Address,
    user: Address,
    manager: Address,
    record: SavingsManager,
    vault: Address,
    fund: TokenAccount,
) -> bool {
    &&& savings_manager_pda(program, user, distributor) matches Some((key, _)) && key == manager
    &&& record.mint == mint
    &&& associated_token_address(manager, mint) == Some(vault)
    &&& fund.owner == manager
    &&& fund.mint == mint
}

/// Checks one recipient of an accrual, given what the accounts hold.
pub fn check_recipient(
    program: &Address,
    distributor: &Address,
    mint: &Address,
    user: &Address,
    manager: &Address,
    record: &SavingsManager,
    vault: &Address,
    fund: &TokenAccount,
) -> (r: bool)
    ensures
        r == recipient_in_order(
            *program,
            *distributor,
            *mint,
            *user,
            *manager,
            *record,
            *vault,
            *fund,
        ),
{
    match derive_savings_manager_pda(program, user, distributor) {
        Some((key, _)) => {
            if !(key == *manager) {
                return false;
            }
        },
        None => {
            return false;
        },
    }
    if !(record.mint == *mint) {
        return false;
    }
    match get_associated_token_address(manager, mint) {
        Some(key) => {
            if !(key == *vault) {
                return false;
            }
        },
        None => {
            return false;
        },
    }
    fund.owner == *manager && fund.mint == *mint
}

/// The receiving side is in order in a ledger exactly when the ledger holds
/// a vault record and a fund account at the two addresses, and they are in
/// order as a recipient.
pub proof fn lemma_vault_accounts_valid(
    s: Accounts,
    program: Address,
    distributor: Address,
    mint: Address,
    user: Address,
    manager: Address,
    vault: Address,
)
    ensures
        vault_accounts_valid(s, program, distributor, mint, user, manager, vault) <==> (
        manager_at(s, manager) is Some && token_at(s, vault) is Some && recipient_in_order(
            program,
            distributor,
            mint,
            user,
            manager,
            manager_at(s, manager).unwrap(),
            vault,
            token_at(s, vault).unwrap(),
        )),
{
}

/// Reads the vault record and its fund account where the receiving side is
/// in order.
fn check_vault(
    ledger: &Ledger,
    distributor: &Address,
    mint: &Address,
    user: &Address,
    manager: &Address,
    vault: &Address,
) -> (r: Option<(SavingsManager, TokenAccount)>)
    requires
        ledger.wf(),
    ensures
        r is Some <==> vault_accounts_valid(
            ledger@,
            ledger.program(),
            *distributor,
            *mint,
            *user,
            *manager,
            *vault,
        ),
        r matches Some((m, v)) ==> manager_at(ledger@, *manager) == Some(m) && token_at(
            ledger@,
            *vault,
        ) == Some(v),
{
    let record = match ledger.manager(manager) {
        Some(record) => record,
        None => {
            return None;
        },
    };
    let fund = match ledger.token(vault) {
        Some(fund) => fund,
        None => {
            return None;
        },
    };
    let program = ledger.program_id();
    if check_recipient(&program, distributor, mint, user, manager, &record, vault, &fund) {
        Some((record, fund))
    } else {
        None
    }
}

/// Pays one vault on accounts that are in order.
fn accrue_one(
    ledger: &mut Ledger,
    distributor: &Address,
    interest_vault: &Address,
    manager: &Address,
    vault: &Address,
    now: i64,
) -> (r: Result<(), SavingsError>)
    requires
        old(ledger).wf(),
        pool_accounts_valid(old(ledger)@, *distributor, *interest_vault),
        manager_at(old(ledger)@, *manager) is Some,
        is_fund_of(
            old(ledger)@,
            *vault,
            *manager,
            distributor_at(old(ledger)@, *distributor).unwrap().mint,
        ),
    ensures
        final(ledger).wf(),
        final(ledger).program() == old(ledger).program(),
        forall|mint: Address| final(ledger).supply(mint) == old(ledger).supply(mint),
        match accrue(old(ledger)@, *interest_vault, *manager, *vault, now) {
            Ok(s) => r is Ok && final(ledger)@ == s,
            Err(e) => r == Err::<(), SavingsError>(e) && final(ledger)@ == old(ledger)@,
        },
        r is Ok ==> token_at(old(ledger)@, *vault).unwrap().amount + token_at(
            old(ledger)@,
            *vault,
        ).unwrap().amount / 100 <= u64::MAX,
{
    let m = ledger.manager(manager).unwrap();
    let v = ledger.token(vault).unwrap();
    let p = ledger.token(interest_vault).unwrap();
    let interest = match check_accrual(now, m.last_interest_deposit_ts, v.amount, p.amount) {
        Ok(interest) => interest,
        Err(e) => {
            return Err(e);
        },
    };
    let pool = ledger.distributor(distributor).unwrap();
    proof {
        ledger.lemma_well_placed(*manager);
        ledger.lemma_well_placed(*distributor);
    }
    let moved = ledger.transfer_signed(interest_vault, vault, &pool.signer_seeds(), interest);
    assert(moved is Ok);
    ledger.replace(
        manager,
        Account::SavingsManager(SavingsManager { last_interest_deposit_ts: now, ..m }),
    );
    Ok(())
}

/// Pays the interest of one vault out of its pool. Anyone may call this, for
/// any vault, at any time: it succeeds exactly where the accounts are in
/// order, a whole period has passed since the vault's last accrual, and the
/// pool covers the interest in full.
pub fn deposit_interest(ledger: &mut Ledger, ctx: &DepositInterestToUser, now: i64) -> (r: Result<
    (),
    SavingsError,
>)
    requires
        old(ledger).wf(),
    ensures
        final(ledger).wf(),
        final(ledger).program() == old(ledger).program(),
        forall|mint: Address| final(ledger).supply(mint) == old(ledger).supply(mint),
        match deposit_interest_result(old(ledger)@, old(ledger).program(), *ctx, now) {
            Ok(s) => r is Ok && final(ledger)@ == s,
            Err(e) => r == Err::<(), SavingsError>(e) && final(ledger)@ == old(ledger)@,
        },
        r is Ok <==> deposit_interest_accounts_valid(old(ledger)@, old(ledger).program(), *ctx)
            && now - manager_at(
            old(ledger)@,
            ctx.user_savings_manager,
        ).unwrap().last_interest_deposit_ts >= SECONDS_IN_MONTHS && token_at(
            old(ledger)@,
            ctx.interest_vault,
        ).unwrap().amount >= token_at(old(ledger)@, ctx.user_savings_vault).unwrap().amount / 100,
        r is Ok ==> {
            let balance = token_at(old(ledger)@, ctx.user_savings_vault).unwrap().amount;
            let pool = token_at(old(ledger)@, ctx.interest_vault).unwrap().amount;
            &&& token_at(final(ledger)@, ctx.user_savings_vault).unwrap().amount == balance
                + balance / 100
            &&& token_at(final(ledger)@, ctx.interest_vault).unwrap().amount == pool - balance
                / 100
            &&& manager_at(
                final(ledger)@,
                ctx.user_savings_manager,
            ).unwrap().last_interest_deposit_ts == now
            &&& signer_of(
                distributor_signer_seeds(
                    distributor_at(old(ledger)@, ctx.interest_distributor).unwrap(),
                ),
                old(ledger).program(),
            ) == Some(ctx.interest_distributor)
        },
{
    proof {
        if deposit_interest_result(ledger@, ledger.program(), *ctx, now) is Ok {
            lemma_accrual_effect(ledger, *ctx, now);
            ledger.lemma_well_placed(ctx.interest_distributor);
        }
    }
    let d = match ledger.distributor(&ctx.interest_distributor) {
        Some(d) => d,
        None => {
            return Err(SavingsError::InvalidAccount);
        },
    };
    if ledger.fund_of(&ctx.interest_vault, &ctx.interest_distributor, &d.mint).is_none() {
        return Err(SavingsError::InvalidAccount);
    }
    if check_vault(
        ledger,
        &ctx.interest_distributor,
        &d.mint,
        &ctx.user,
        &ctx.user_savings_manager,
        &ctx.user_savings_vault,
    ).is_none() {
        return Err(SavingsError::InvalidAccount);
    }
    accrue_one(
        ledger,
        &ctx.interest_distributor,
        &ctx.interest_vault,
        &ctx.user_savings_manager,
        &ctx.user_savings_vault,
        now,
    )
}

/// Counts the recipients that a list of `listed` accounts names.
pub fn recipient_groups(listed: usize) -> (r: Result<usize, SavingsError>)
    ensures
        match recipient_count(listed as nat) {
            Ok(n) => r == Ok::<usize, SavingsError>(n as usize) && n >= 1 && 3 * n == listed,
            Err(e) => r == Err::<usize, SavingsError>(e),
        },
{
    if listed < 3 {
        Err(SavingsError::ZeroRecipientsForInterestDeposit)
    } else if listed % 3 != 0 {
        Err(SavingsError::InvalidAccount)
    } else {
        Ok(listed / 3)
    }
}

/// Pays the interest of several vaults out of one pool, in the order in
/// which they are listed. The list holds, for each vault, the user, the
/// vault record and the vault's fund account. All are paid or none is: the
/// first vault that cannot be paid fails the whole request.
pub fn deposit_interest_multiple(
    ledger: &mut Ledger,
    ctx: &DepositInterestToMultipleUsers,
    remaining_accounts: &Vec<Address>,
    now: i64,
) -> (r: Result<(), SavingsError>)
    requires
        old(ledger).wf(),
    ensures
        final(ledger).wf(),
        final(ledger).program() == old(ledger).program(),
        forall|mint: Address| final(ledger).supply(mint) == old(ledger).supply(mint),
        match deposit_interest_multiple_result(
            old(ledger)@,
            old(ledger).program(),
            *ctx,
            remaining_accounts@,
            now,
        ) {
            Ok(s) => r is Ok && final(ledger)@ == s,
            Err(e) => r == Err::<(), SavingsError>(e) && final(ledger)@ == old(ledger)@,
        },
        r is Ok ==> signer_of(
            distributor_signer_seeds(
                distributor_at(old(ledger)@, ctx.interest_distributor).unwrap(),
            ),
            old(ledger).program(),
        ) == Some(ctx.interest_distributor),
{
    proof {
        if distributor_at(ledger@, ctx.interest_distributor) is Some {
            ledger.lemma_well_placed(ctx.interest_distributor);
        }
    }
    let d = match ledger.distributor(&ctx.interest_distributor) {
        Some(d) => d,
        None => {
            return Err(SavingsError::InvalidAccount);
        },
    };
    if ledger.fund_of(&ctx.interest_vault, &ctx.interest_distributor, &d.mint).is_none() {
        return Err(SavingsError::InvalidAccount);
    }
    match recipient_groups(remaining_accounts.len()) {
        Ok(_) => {},
        Err(e) => {
            return Err(e);
        },
    }
    let mut work = ledger.duplicate();
    let mut i: usize = 0;
    assert(remaining_accounts@.skip(0) =~= remaining_accounts@);
    while i < remaining_accounts.len()
        invariant
            i <= remaining_accounts@.len(),
            i % 3 == 0,
            remaining_accounts@.len() % 3 == 0,
            remaining_accounts@.len() >= 3,
            *ledger == *old(ledger),
            ledger.wf(),
            distributor_at(ledger@, ctx.interest_distributor) == Some(d),
            is_fund_of(ledger@, ctx.interest_vault, ctx.interest_distributor, d.mint),
            work.wf(),
            work.program() == ledger.program(),
            forall|mint: Address| work.supply(mint) == ledger.supply(mint),
            distributor_at(work@, ctx.interest_distributor) == Some(d),
            is_fund_of(work@, ctx.interest_vault, ctx.interest_distributor, d.mint),
            accrue_each(
                ledger@,
                ledger.program(),
                ctx.interest_distributor,
                d.mint,
                ctx.interest_vault,
                remaining_accounts@,
                now,
            ) == accrue_each(
                work@,
                ledger.program(),
                ctx.interest_distributor,
                d.mint,
                ctx.interest_vault,
                remaining_accounts@.skip(i as int),
                now,
            ),
        decreases remaining_accounts@.len() - i,
    {
        let user = remaining_accounts[i];
        let manager = remaining_accounts[i + 1];
        let vault = remaining_accounts[i + 2];
        assert(remaining_accounts@.skip(i as int).skip(3) =~= remaining_accounts@.skip(i + 3));
        if check_vault(&work, &ctx.interest_distributor, &d.mint, &user, &manager, &vault).is_none() {
            return Err(SavingsError::InvalidAccount);
        }
        match accrue_one(
            &mut work,
            &ctx.interest_distributor,
            &ctx.interest_vault,
            &manager,
            &vault,
            now,
        ) {
            Ok(()) => {},
            Err(e) => {
                return Err(e);
            },
        }
        i += 3;
    }
    *ledger = work;
    Ok(())
}

/// An accrual on accounts that are in order succeeds exactly when a whole
/// period has passed since the vault's last accrual and the pool holds at
/// least a hundredth of the vault's balance, rounded down; before that it
/// fails as turned too soon, and with too small a pool as underfunded. On
/// other accounts it fails as invalid.
pub proof fn lemma_accrual_succeeds_iff_due_and_funded(
    s: Accounts,
    program: Address,
    ctx: DepositInterestToUser,
    now: i64,
)
    ensures
        !deposit_interest_accounts_valid(s, program, ctx) ==> deposit_interest_result(
            s,
            program,
            ctx,
            now,
        ) == Err::<Accounts, SavingsError>(SavingsError::InvalidAccount),
        deposit_interest_accounts_valid(s, program, ctx) ==> {
            let last = manager_at(s, ctx.user_savings_manager).unwrap().last_interest_deposit_ts;
            let balance = token_at(s, ctx.user_savings_vault).unwrap().amount;
            let pool = token_at(s, ctx.interest_vault).unwrap().amount;
            let outcome = deposit_interest_result(s, program, ctx, now);
            &&& outcome is Ok <==> now - last >= SECONDS_IN_MONTHS && pool >= balance / 100
            &&& outcome == Err::<Accounts, SavingsError>(SavingsError::CrankTurnedTooSoon) <==> now
                - last < SECONDS_IN_MONTHS
            &&& outcome == Err::<Accounts, SavingsError>(SavingsError::InadequateFunds) <==> now
                - last >= SECONDS_IN_MONTHS && pool < balance / 100
        },
{
}

/// What a successful accrual changes: the vault's clock is set to `now`,
/// which is later than it was; the vault's balance grows by a hundredth of
/// what it was, rounded down; the pool's balance shrinks by the same; and
/// nothing else changes.
pub proof fn lemma_accrual_effect(ledger: &Ledger, ctx: DepositInterestToUser, now: i64)
    requires
        ledger.wf(),
        deposit_interest_result(ledger@, ledger.program(), ctx, now) is Ok,
    ensures
        ({
            let s = ledger@;
            let after = deposit_interest_result(s, ledger.program(), ctx, now).unwrap();
            let m = manager_at(s, ctx.user_savings_manager).unwrap();
            let v = token_at(s, ctx.user_savings_vault).unwrap();
            let p = token_at(s, ctx.interest_vault).unwrap();
            &&& manager_at(after, ctx.user_savings_manager) == Some(
                SavingsManager { last_interest_deposit_ts: now, ..m },
            )
            &&& now > m.last_interest_deposit_ts
            &&& token_at(after, ctx.user_savings_vault) matches Some(grown) && grown.amount
                == v.amount + v.amount / 100 && grown.owner == v.owner && grown.mint == v.mint
            &&& token_at(after, ctx.interest_vault) matches Some(drawn) && drawn.amount
                == p.amount - v.amount / 100 && drawn.owner == p.owner && drawn.mint == p.mint
            &&& after.dom() == s.dom()
            &&& forall|k: Address|
                k != ctx.user_savings_manager && k != ctx.user_savings_vault && k
                    != ctx.interest_vault ==> #[trigger] after[k] == s[k]
        }),
{
    ledger.lemma_balances_within_supply(ctx.user_savings_vault, ctx.interest_vault);
    let v = token_at(ledger@, ctx.user_savings_vault).unwrap();
    assert(share(ledger@[ctx.user_savings_vault], v.mint) + share(
        ledger@[ctx.interest_vault],
        v.mint,
    ) <= ledger.supply(v.mint));
    let after = deposit_interest_result(ledger@, ledger.program(), ctx, now).unwrap();
    assert(after.dom() =~= ledger@.dom());
}

/// No vault is paid twice within one period: once an accrual has succeeded
/// at `now`, another for the same vault at any time less than a period
/// later fails as turned too soon.
pub proof fn lemma_accrual_not_repeated(
    s: Accounts,
    program: Address,
    ctx: DepositInterestToUser,
    now: i64,
    later: i64,
)
    requires
        deposit_interest_result(s, program, ctx, now) is Ok,
        later - now < SECONDS_IN_MONTHS,
    ensures
        deposit_interest_result(
            deposit_interest_result(s, program, ctx, now).unwrap(),
            program,
            ctx,
            later,
        ) == Err::<Accounts, SavingsError>(SavingsError::CrankTurnedTooSoon),
{
}

/// A batch of one recipient is the single accrual for that recipient.
pub proof fn lemma_batch_of_one(
    s: Accounts,
    program: Address,
    ctx: DepositInterestToUser,
    now: i64,
)
    ensures
        deposit_interest_multiple_result(
            s,
            program,
            DepositInterestToMultipleUsers {
                interest_distributor: ctx.interest_distributor,
                interest_vault: ctx.interest_vault,
            },
            seq![ctx.user, ctx.user_savings_manager, ctx.user_savings_vault],
            now,
        ) == deposit_interest_result(s, program, ctx, now),
{
    let recipients = seq![ctx.user, ctx.user_savings_manager, ctx.user_savings_vault];
    assert(recipients.skip(3).len() == 0);
    reveal_with_fuel(accrue_each, 2);
}

/// A batch pays its first recipient as a single accrual would, and the rest
/// as a batch on the ledger that this leaves; where the first cannot be paid,
/// the batch fails as that accrual does.
pub proof fn lemma_batch_pays_in_order(
    s: Accounts,
    program: Address,
    ctx: DepositInterestToMultipleUsers,
    recipients: Seq<Address>,
    now: i64,
)
    requires
        recipients.len() >= 6,
        recipients.len() % 3 == 0,
    ensures
        deposit_interest_multiple_result(s, program, ctx, recipients, now) == (
        match deposit_interest_result(
            s,
            program,
            DepositInterestToUser {
                user: recipients[0],
                user_savings_manager: recipients[1],
                user_savings_vault: recipients[2],
                interest_distributor: ctx.interest_distributor,
                interest_vault: ctx.interest_vault,
            },
            now,
        ) {
            Ok(paid) => deposit_interest_multiple_result(
                paid,
                program,
                ctx,
                recipients.skip(3),
                now,
            ),
            Err(e) => Err(e),
        }),
{
}

/// Every vault of a ledger can be named for an accrual: the accounts that
/// its record leads to are in order. So for every vault the accrual
/// succeeds exactly when a period has passed and the pool holds a hundredth
/// of the vault's balance.
pub proof fn lemma_every_vault_accrues_when_due_and_funded(
    ledger: &Ledger,
    manager: Address,
    now: i64,
)
    requires
        ledger.wf(),
        manager_at(ledger@, manager) is Some,
    ensures
        ({
            let record = manager_at(ledger@, manager).unwrap();
            &&& accrual_accounts(record.user, manager, record) matches Some(ctx) && {
                &&& deposit_interest_accounts_valid(ledger@, ledger.program(), ctx)
                &&& deposit_interest_result(ledger@, ledger.program(), ctx, now) is Ok <==> now
                    - record.last_interest_deposit_ts >= SECONDS_IN_MONTHS && token_at(
                    ledger@,
                    ctx.interest_vault,
                ).unwrap().amount >= token_at(ledger@, ctx.user_savings_vault).unwrap().amount
                    / 100
            }
        }),
{
    let record = manager_at(ledger@, manager).unwrap();
    ledger.lemma_well_placed(manager);
    ledger.lemma_well_placed(record.distributor);
}

} // verus!
