//! The driver and the program agree: what the crank asks for, on vault
//! records that it found in the ledger, the program does not turn down for
//! the accounts named. A request of the crank's fails only because a vault
//! is not due yet or because the pool cannot cover the interest.

use crate::accrual::{
    accrue, accrue_each, deposit_interest_multiple_result, pool_accounts_valid, recipient_count,
    vault_accounts_valid,
};
use crate::address::{associated_token_address, Address};
use crate::crank::{
    batch_accounts, batch_of, derivable, lemma_batches_hold_whole_triples, pool_mint, pools_of,
    recipients_of,
    AccountMeta, UserVault,
};
use crate::error::SavingsError;
use crate::ledger::Ledger;
use crate::state::{distributor_at, manager_at, token_at, Accounts};
use vstd::prelude::*;

verus! {

/// The addresses that a list of accounts names.
pub open spec fn addresses_of(metas: Seq<AccountMeta>) -> Seq<Address> {
    Seq::new(metas.len(), |i: int| metas[i].pubkey)
}

/// The vaults are as the ledger has them: each names a vault record of the
/// ledger at its address, and the user who owns it.
pub open spec fn found_in(s: Accounts, vaults: Seq<UserVault>) -> bool {
    forall|i: int|
        0 <= i < vaults.len() ==> manager_at(s, (#[trigger] vaults[i]).manager) == Some(
            vaults[i].record,
        ) && vaults[i].user == vaults[i].record.user
}

/// The `j`-th recipient of a list is in order.
pub open spec fn recipient_valid_at(
    s: Accounts,
    program: Address,
    distributor: Address,
    mint: Address,
    recipients: Seq<Address>,
    j: int,
) -> bool {
    vault_accounts_valid(
        s,
        program,
        distributor,
        mint,
        recipients[3 * j],
        recipients[3 * j + 1],
        recipients[3 * j + 2],
    )
}

/// A list names whole recipients, and each of them is in order.
pub open spec fn recipients_valid(
    s: Accounts,
    program: Address,
    distributor: Address,
    mint: Address,
    recipients: Seq<Address>,
) -> bool {
    &&& recipients.len() % 3 == 0
    &&& forall|j: int|
        0 <= j < recipients.len() / 3 ==> #[trigger] recipient_valid_at(
            s,
            program,
            distributor,
            mint,
            recipients,
            j,
        )
}

/// Whether a request failed for a reason that lies in the vaults and the
/// pool, not in the accounts named.
pub open spec fn refused_on_merit(outcome: Result<Accounts, SavingsError>) -> bool {
    outcome == Err::<Accounts, SavingsError>(SavingsError::CrankTurnedTooSoon) || outcome == Err::<
        Accounts,
        SavingsError,
    >(SavingsError::InadequateFunds)
}

/// Recipients that are in order are paid, unless one is not due or the
/// pool runs short.
proof fn lemma_valid_recipients_are_paid(
    s: Accounts,
    program: Address,
    distributor: Address,
    mint: Address,
    interest_vault: Address,
    recipients: Seq<Address>,
    now: i64,
)
    requires
        pool_accounts_valid(s, distributor, interest_vault),
        distributor_at(s, distributor).unwrap().mint == mint,
        recipients_valid(s, program, distributor, mint, recipients),
    ensures
        ({
            let outcome = accrue_each(
                s,
                program,
                distributor,
                mint,
                interest_vault,
                recipients,
                now,
            );
            outcome is Ok || refused_on_merit(outcome)
        }),
    decreases recipients.len(),
{
    if recipients.len() >= 3 {
        assert(recipient_valid_at(s, program, distributor, mint, recipients, 0));
        match accrue(s, interest_vault, recipients[1], recipients[2], now) {
            Ok(paid) => {
                let rest = recipients.skip(3);
                assert forall|j: int| 0 <= j < rest.len() / 3 implies #[trigger] recipient_valid_at(
                    paid,
                    program,
                    distributor,
                    mint,
                    rest,
                    j,
                ) by {
                    assert(recipient_valid_at(s, program, distributor, mint, recipients, j + 1));
                    assert(rest[3 * j] == recipients[3 * (j + 1)]);
                    assert(rest[3 * j + 1] == recipients[3 * (j + 1) + 1]);
                    assert(rest[3 * j + 2] == recipients[3 * (j + 1) + 2]);
                }
                lemma_valid_recipients_are_paid(
                    paid,
                    program,
                    distributor,
                    mint,
                    interest_vault,
                    rest,
                    now,
                );
            },
            Err(_) => {},
        }
    }
}

/// The recipients that the crank lists for an interest pool are in order in
/// the ledger where it found the vaults.
proof fn lemma_listed_recipients_are_valid(
    ledger: &Ledger,
    vaults: Seq<UserVault>,
    distributor: Address,
)
    requires
        ledger.wf(),
        found_in(ledger@, vaults),
    ensures
        recipients_valid(
            ledger@,
            ledger.program(),
            distributor,
            distributor_at(ledger@, distributor).unwrap().mint,
            addresses_of(recipients_of(vaults, distributor)),
        ),
        addresses_of(recipients_of(vaults, distributor)).len() == recipients_of(
            vaults,
            distributor,
        ).len(),
    decreases vaults.len(),
{
    let s = ledger@;
    let program = ledger.program();
    let mint = distributor_at(s, distributor).unwrap().mint;
    let listed = addresses_of(recipients_of(vaults, distributor));
    if vaults.len() > 0 {
        let before = vaults.drop_last();
        let last = vaults.last();
        assert forall|i: int| 0 <= i < before.len() implies manager_at(
            s,
            (#[trigger] before[i]).manager,
        ) == Some(before[i].record) && before[i].user == before[i].record.user by {
            assert(before[i] == vaults[i]);
        }
        lemma_listed_recipients_are_valid(ledger, before, distributor);
        let earlier = addresses_of(recipients_of(before, distributor));
        if last.record.distributor == distributor {
            assert(vaults[vaults.len() - 1] == last);
            ledger.lemma_well_placed(last.manager);
            let fund = associated_token_address(last.manager, last.record.mint).unwrap();
            assert(listed =~= earlier + seq![last.user, last.manager, fund]);
            assert forall|j: int| 0 <= j < listed.len() / 3 implies #[trigger] recipient_valid_at(
                s,
                program,
                distributor,
                mint,
                listed,
                j,
            ) by {
                if j < earlier.len() / 3 {
                    assert(recipient_valid_at(s, program, distributor, mint, earlier, j));
                    assert(listed[3 * j] == earlier[3 * j]);
                    assert(listed[3 * j + 1] == earlier[3 * j + 1]);
                    assert(listed[3 * j + 2] == earlier[3 * j + 2]);
                } else {
                    assert(3 * j == earlier.len());
                    assert(listed[3 * j] == last.user);
                    assert(listed[3 * j + 1] == last.manager);
                    assert(listed[3 * j + 2] == fund);
                }
            }
        } else {
            assert(listed =~= earlier);
        }
    }
}

/// The crank takes for an interest pool's asset the one that the pool
/// itself records.
proof fn lemma_pool_mint_is_the_pools(ledger: &Ledger, vaults: Seq<UserVault>, distributor: Address)
    requires
        ledger.wf(),
        found_in(ledger@, vaults),
        pools_of(vaults).contains(distributor),
    ensures
        distributor_at(ledger@, distributor) matches Some(pool) && pool.mint == pool_mint(
            vaults,
            distributor,
        ),
    decreases vaults.len(),
{
    if vaults.len() > 0 {
        let before = vaults.drop_last();
        let last = vaults.last();
        if pools_of(before).contains(distributor) {
            assert forall|i: int| 0 <= i < before.len() implies manager_at(
                ledger@,
                (#[trigger] before[i]).manager,
            ) == Some(before[i].record) && before[i].user == before[i].record.user by {
                assert(before[i] == vaults[i]);
            }
            lemma_pool_mint_is_the_pools(ledger, before, distributor);
        } else {
            let k = choose|k: int|
                0 <= k < pools_of(vaults).len() && pools_of(vaults)[k] == distributor;
            if k < pools_of(before).len() {
                assert(pools_of(before)[k] == distributor);
            }
            assert(vaults[vaults.len() - 1] == last);
            ledger.lemma_well_placed(last.manager);
        }
    }
}

/// The fund account of every vault of a ledger can be derived, so the crank
/// has requests for any vaults that it found there.
pub proof fn lemma_found_vaults_are_derivable(ledger: &Ledger, vaults: Seq<UserVault>)
    requires
        ledger.wf(),
        found_in(ledger@, vaults),
    ensures
        derivable(vaults),
{
    assert forall|i: int| 0 <= i < vaults.len() implies associated_token_address(
        (#[trigger] vaults[i]).manager,
        vaults[i].record.mint,
    ) is Some by {
        ledger.lemma_well_placed(vaults[i].manager);
    }
}

/// Each batch that the crank makes of vaults found in a ledger names
/// accounts that the program accepts: the pool's side is in order, the list
/// holds whole recipients and at least one, and each is in order. Handled on
/// that ledger, the batch is paid as a whole, or it fails because a vault is
/// not due or the pool cannot cover the interest, and for no other reason.
pub proof fn lemma_batches_fail_on_merit_only(
    ledger: &Ledger,
    vaults: Seq<UserVault>,
    k: int,
    now: i64,
)
    requires
        ledger.wf(),
        found_in(ledger@, vaults),
        0 <= k < pools_of(vaults).len(),
    ensures
        batch_accounts(batch_of(vaults, k)) matches Some(accounts) && {
            let listed = addresses_of(batch_of(vaults, k).remaining_accounts);
            let outcome = deposit_interest_multiple_result(
                ledger@,
                ledger.program(),
                accounts,
                listed,
                now,
            );
            &&& pool_accounts_valid(
                ledger@,
                accounts.interest_distributor,
                accounts.interest_vault,
            )
            &&& recipient_count(listed.len()) is Ok
            &&& outcome is Ok || refused_on_merit(outcome)
        },
{
    let distributor = pools_of(vaults)[k];
    assert(pools_of(vaults).contains(distributor));
    lemma_pool_mint_is_the_pools(ledger, vaults, distributor);
    ledger.lemma_well_placed(distributor);
    lemma_listed_recipients_are_valid(ledger, vaults, distributor);
    lemma_batches_hold_whole_triples(vaults, distributor);
    let pool = distributor_at(ledger@, distributor).unwrap();
    let accounts = batch_accounts(batch_of(vaults, k)).unwrap();
    lemma_valid_recipients_are_paid(
        ledger@,
        ledger.program(),
        distributor,
        pool.mint,
        accounts.interest_vault,
        addresses_of(recipients_of(vaults, distributor)),
        now,
    );
}

} // verus!
