use anchor_lang::prelude::Pubkey;
use savings_program::accrual::{
    check_recipient, recipient_groups, DepositInterestToMultipleUsers, DepositInterestToUser,
};
use savings_program::address::{
    derive_interest_distributor_pda, derive_savings_manager_pda, get_associated_token_address, id,
    program_signer, Address,
};
use savings_program::admin::{
    CreateInterestVaultForMint, DepositToInterestVault, InitializeState, WithdrawFromInterestVault,
};
use savings_program::crank::{Run, Step};
use savings_program::error::SavingsError;
use savings_program::interest::{
    check_accrual, interest_amount, is_period_elapsed, INTEREST_PERCENTAGE, SECONDS_IN_MONTHS,
};
use savings_program::ledger::Ledger;
use savings_program::program::{process, Request};
use savings_program::state::{InterestDistributor, SavingsManager, TokenAccount};
use savings_program::user::{UserCreateVault, UserDeposit, UserWithdraw};

fn who(seed: u8) -> Address {
    let mut bytes = [seed; 32];
    bytes[0] = 0x3C;
    bytes[31] = seed.wrapping_mul(11);
    Address::new(bytes)
}

#[test]
fn interest_is_one_percent_rounded_down() {
    assert_eq!(INTEREST_PERCENTAGE, 1);
    assert_eq!(interest_amount(0), 0);
    assert_eq!(interest_amount(99), 0);
    assert_eq!(interest_amount(100), 1);
    assert_eq!(interest_amount(500), 5);
    assert_eq!(interest_amount(12_345), 123);
    assert_eq!(interest_amount(u64::MAX), 184_467_440_737_095_516);
}

#[test]
fn a_period_is_thirty_days() {
    assert_eq!(SECONDS_IN_MONTHS, 30 * 24 * 60 * 60);
    assert!(is_period_elapsed(2_592_000, 0));
    assert!(!is_period_elapsed(2_591_999, 0));
    assert!(is_period_elapsed(100 + 2_592_000, 100));
    assert!(!is_period_elapsed(0, 0));
    assert!(!is_period_elapsed(-1, 0));
    assert!(is_period_elapsed(0, -2_592_000));
    assert!(is_period_elapsed(i64::MAX, i64::MIN));
    assert!(!is_period_elapsed(i64::MIN, i64::MAX));
}

#[test]
fn accrual_is_decided_by_time_then_by_funds() {
    assert_eq!(check_accrual(2_592_000, 0, 500, 80), Ok(5));
    assert_eq!(check_accrual(2_592_000, 0, 500, 5), Ok(5));
    assert_eq!(check_accrual(2_592_000, 0, 500, 4), Err(SavingsError::InadequateFunds));
    assert_eq!(check_accrual(2_591_999, 0, 500, 80), Err(SavingsError::CrankTurnedTooSoon));
    // Too soon wins over a pool that is short as well.
    assert_eq!(check_accrual(0, 0, 500, 0), Err(SavingsError::CrankTurnedTooSoon));
    assert_eq!(check_accrual(2_592_000, 0, 99, 0), Ok(0));
}

#[test]
fn recipient_lists_hold_whole_triples() {
    assert_eq!(recipient_groups(0), Err(SavingsError::ZeroRecipientsForInterestDeposit));
    assert_eq!(recipient_groups(2), Err(SavingsError::ZeroRecipientsForInterestDeposit));
    assert_eq!(recipient_groups(3), Ok(1));
    assert_eq!(recipient_groups(4), Err(SavingsError::InvalidAccount));
    assert_eq!(recipient_groups(5), Err(SavingsError::InvalidAccount));
    assert_eq!(recipient_groups(6), Ok(2));
    assert_eq!(recipient_groups(usize::MAX), Ok(usize::MAX / 3));
    assert_eq!(recipient_groups(usize::MAX - 1), Err(SavingsError::InvalidAccount));
}

#[test]
fn recipient_is_checked_against_the_derived_addresses() {
    let (user, distributor, mint) = (who(1), who(2), who(3));
    let (manager, bump) = derive_savings_manager_pda(&id(), &user, &distributor).unwrap();
    let vault = get_associated_token_address(&manager, &mint).unwrap();
    let record =
        SavingsManager { user, mint, distributor, last_interest_deposit_ts: 0, bump };
    let fund = TokenAccount { mint, owner: manager, amount: 10 };
    let check = |user: &Address, manager: &Address, record: &SavingsManager, vault: &Address, fund: &TokenAccount| {
        check_recipient(&id(), &distributor, &mint, user, manager, record, vault, fund)
    };
    assert!(check(&user, &manager, &record, &vault, &fund));
    assert!(!check(&who(9), &manager, &record, &vault, &fund));
    assert!(!check(&user, &who(9), &record, &vault, &fund));
    assert!(!check(&user, &manager, &SavingsManager { mint: who(9), ..record }, &vault, &fund));
    assert!(!check(&user, &manager, &record, &who(9), &fund));
    assert!(!check(&user, &manager, &record, &vault, &TokenAccount { owner: user, ..fund }));
    assert!(!check(&user, &manager, &record, &vault, &TokenAccount { mint: who(9), ..fund }));
    // Under another program the same record is not in order.
    assert!(!check_recipient(&who(50), &distributor, &mint, &user, &manager, &record, &vault, &fund));
}

#[test]
fn errors_say_what_went_wrong() {
    assert_eq!(SavingsError::InadequateFunds.message(), "not enough funds in vault token account");
    assert_eq!(
        SavingsError::CrankTurnedTooSoon.message(),
        "not enough time has elapsed since the last interest deposit"
    );
    assert_eq!(
        SavingsError::ZeroRecipientsForInterestDeposit.message(),
        "did not specify any recipient for the interest transfer"
    );
    let all = [
        SavingsError::InadequateFunds,
        SavingsError::CrankTurnedTooSoon,
        SavingsError::ZeroRecipientsForInterestDeposit,
        SavingsError::Unauthorized,
        SavingsError::InvalidAccount,
        SavingsError::AccountInUse,
        SavingsError::Overflow,
    ];
    for (i, a) in all.iter().enumerate() {
        assert!(!a.message().is_empty());
        for b in all[i + 1..].iter() {
            assert_ne!(a.message(), b.message());
        }
    }
}

#[test]
fn records_sign_by_their_seeds_and_nonce() {
    let (state, mint, user) = (who(1), who(2), who(3));
    let (distributor, bump) = derive_interest_distributor_pda(&id(), &state, &mint).unwrap();
    let pool = InterestDistributor { state, mint, bump };
    let seeds = pool.signer_seeds();
    assert_eq!(
        seeds,
        vec![b"interest-distributor".to_vec(), state.bytes.to_vec(), mint.bytes.to_vec(), vec![bump]]
    );
    // Presented to the host, the seeds give the record's own address.
    let slices: Vec<&[u8]> = seeds.iter().map(|s| s.as_slice()).collect();
    let signer = Pubkey::create_program_address(&slices, &Pubkey::new_from_array(id().bytes));
    assert_eq!(signer.unwrap().to_bytes(), distributor.bytes);

    let (manager, bump) = derive_savings_manager_pda(&id(), &user, &distributor).unwrap();
    let record = SavingsManager { user, mint, distributor, last_interest_deposit_ts: 5, bump };
    let seeds = record.signer_seeds();
    assert_eq!(
        seeds,
        vec![b"savings-manager".to_vec(), user.bytes.to_vec(), distributor.bytes.to_vec(), vec![bump]]
    );
    let slices: Vec<&[u8]> = seeds.iter().map(|s| s.as_slice()).collect();
    let signer = Pubkey::create_program_address(&slices, &Pubkey::new_from_array(id().bytes));
    assert_eq!(signer.unwrap().to_bytes(), manager.bytes);
}

#[test]
fn a_run_submits_every_request_once_whatever_fails() {
    let mut run = Run::new(4);
    let outcomes = [true, false, false, true];
    let mut submitted = Vec::new();
    while let Step::Submit(index) = run.next() {
        submitted.push(index);
        run.record(outcomes[index]);
    }
    assert_eq!(submitted, vec![0, 1, 2, 3]);
    assert_eq!(run.failures(), &vec![1, 2]);
    assert_eq!(run.next(), Step::Finished);
}

#[test]
fn a_run_over_nothing_is_finished_at_once() {
    let run = Run::new(0);
    assert_eq!(run.next(), Step::Finished);
    assert!(run.failures().is_empty());
    let mut one = Run::new(1);
    assert_eq!(one.next(), Step::Submit(0));
    one.record(true);
    assert_eq!(one.next(), Step::Finished);
    assert!(one.failures().is_empty());
}

#[test]
fn requests_are_handled_by_their_entry_points() {
    let mut ledger = Ledger::new(id());
    let (admin, state, mint, user) = (who(1), who(2), who(3), who(4));
    let admin_ata = ledger.create_associated_token_account(&admin, &mint).unwrap();
    let user_ata = ledger.create_associated_token_account(&user, &mint).unwrap();
    ledger.mint_tokens(&admin_ata, 80).unwrap();
    ledger.mint_tokens(&user_ata, 500).unwrap();
    let (distributor, _) = derive_interest_distributor_pda(&id(), &state, &mint).unwrap();
    let interest_vault = get_associated_token_address(&distributor, &mint).unwrap();
    let (manager, _) = derive_savings_manager_pda(&id(), &user, &distributor).unwrap();
    let vault = get_associated_token_address(&manager, &mint).unwrap();
    let start = 1_000_000;
    let month = SECONDS_IN_MONTHS;

    let script: Vec<(Request, i64, Result<(), SavingsError>)> = vec![
        (
            Request::InitializeState {
                accounts: InitializeState { initializer: admin, state },
                authority: admin,
            },
            start,
            Ok(()),
        ),
        (
            Request::CreateInterestVault {
                accounts: CreateInterestVaultForMint {
                    authority: admin,
                    payer: admin,
                    state,
                    mint,
                    interest_distributor: distributor,
                    interest_vault,
                },
            },
            start,
            Ok(()),
        ),
        (
            Request::DepositToInterestVault {
                accounts: DepositToInterestVault {
                    authority: admin,
                    state,
                    depositor: admin,
                    depositor_token_account: admin_ata,
                    interest_distributor: distributor,
                    interest_vault,
                },
                amount: 80,
            },
            start,
            Ok(()),
        ),
        (
            Request::UserCreateVault {
                accounts: UserCreateVault {
                    payer: user,
                    user,
                    mint,
                    interest_distributor: distributor,
                    savings_manager: manager,
                    savings_vault: vault,
                },
            },
            start,
            Ok(()),
        ),
        (
            Request::UserDeposit {
                accounts: UserDeposit {
                    user,
                    savings_manager: manager,
                    user_token_account: user_ata,
                    savings_vault: vault,
                },
                amount: 500,
            },
            start + 10,
            Ok(()),
        ),
        (
            Request::DepositInterest {
                accounts: DepositInterestToUser {
                    user,
                    user_savings_manager: manager,
                    user_savings_vault: vault,
                    interest_distributor: distributor,
                    interest_vault,
                },
            },
            start + month - 1,
            Err(SavingsError::CrankTurnedTooSoon),
        ),
        (
            Request::DepositInterest {
                accounts: DepositInterestToUser {
                    user,
                    user_savings_manager: manager,
                    user_savings_vault: vault,
                    interest_distributor: distributor,
                    interest_vault,
                },
            },
            start + month,
            Ok(()),
        ),
        (
            Request::DepositInterestMultiple {
                accounts: DepositInterestToMultipleUsers {
                    interest_distributor: distributor,
                    interest_vault,
                },
                remaining_accounts: vec![user, manager, vault],
            },
            start + month + 1,
            Err(SavingsError::CrankTurnedTooSoon),
        ),
        (
            Request::DepositInterestMultiple {
                accounts: DepositInterestToMultipleUsers {
                    interest_distributor: distributor,
                    interest_vault,
                },
                remaining_accounts: vec![user, manager, vault],
            },
            start + 2 * month,
            Ok(()),
        ),
        (
            Request::UserWithdraw {
                accounts: UserWithdraw {
                    user,
                    savings_manager: manager,
                    savings_vault: vault,
                    destination_token_account: user_ata,
                },
                amount: 511,
            },
            start + 2 * month,
            Err(SavingsError::InadequateFunds),
        ),
        (
            Request::UserWithdraw {
                accounts: UserWithdraw {
                    user,
                    savings_manager: manager,
                    savings_vault: vault,
                    destination_token_account: user_ata,
                },
                amount: 510,
            },
            start + 2 * month,
            Ok(()),
        ),
        (
            Request::WithdrawFromInterestVault {
                accounts: WithdrawFromInterestVault {
                    authority: admin,
                    destination_token_account: admin_ata,
                    state,
                    interest_distributor: distributor,
                    interest_vault,
                },
                amount: 70,
            },
            start + 2 * month,
            Ok(()),
        ),
    ];
    for (request, now, expected) in script.iter() {
        assert_eq!(process(&mut ledger, request, *now), *expected);
        // Whatever a request does, nothing is issued and nothing is lost.
        assert_eq!(ledger.circulation(&mint), 580);
    }
    assert_eq!(ledger.token(&user_ata).unwrap().amount, 510);
    assert_eq!(ledger.token(&vault).unwrap().amount, 0);
    assert_eq!(ledger.token(&interest_vault).unwrap().amount, 0);
    assert_eq!(ledger.token(&admin_ata).unwrap().amount, 70);
    assert_eq!(ledger.manager(&manager).unwrap().last_interest_deposit_ts, start + 2 * month);
}

#[test]
fn program_signs_for_the_address_its_seeds_derive() {
    let (state, mint) = (who(1), who(2));
    let (distributor, bump) = derive_interest_distributor_pda(&id(), &state, &mint).unwrap();
    let pool = InterestDistributor { state, mint, bump };
    assert_eq!(program_signer(&pool.signer_seeds(), &id()), Some(distributor));
    // Under another program the same seeds are another record's, if anyone's.
    assert_ne!(program_signer(&pool.signer_seeds(), &who(77)), Some(distributor));
    // With another nonce they are not this record's.
    let other = InterestDistributor { bump: bump.wrapping_sub(1), ..pool };
    assert_ne!(program_signer(&other.signer_seeds(), &id()), Some(distributor));
    // Seeds that are too long derive nothing.
    assert_eq!(program_signer(&vec![vec![0u8; 33]], &id()), None);
    assert_eq!(program_signer(&vec![vec![1u8]; 17], &id()), None);
}

#[test]
fn funds_of_a_record_do_not_move_on_a_claimed_signature() {
    let mut ledger = Ledger::new(id());
    let (admin, state, mint, user) = (who(1), who(2), who(3), who(4));
    let (thief, den) = (who(9), who(10));
    let admin_ata = ledger.create_associated_token_account(&admin, &mint).unwrap();
    let user_ata = ledger.create_associated_token_account(&user, &mint).unwrap();
    let thief_ata = ledger.create_associated_token_account(&thief, &mint).unwrap();
    ledger.mint_tokens(&admin_ata, 50).unwrap();
    ledger.mint_tokens(&user_ata, 500).unwrap();
    let (distributor, _) = derive_interest_distributor_pda(&id(), &state, &mint).unwrap();
    let interest_vault = get_associated_token_address(&distributor, &mint).unwrap();
    let (manager, _) = derive_savings_manager_pda(&id(), &user, &distributor).unwrap();
    let vault = get_associated_token_address(&manager, &mint).unwrap();
    // The thief runs a state and an interest pool of their own.
    let (lair, _) = derive_interest_distributor_pda(&id(), &den, &mint).unwrap();
    let lair_vault = get_associated_token_address(&lair, &mint).unwrap();
    let setup = [
        Request::InitializeState {
            accounts: InitializeState { initializer: admin, state },
            authority: admin,
        },
        Request::CreateInterestVault {
            accounts: CreateInterestVaultForMint {
                authority: admin,
                payer: admin,
                state,
                mint,
                interest_distributor: distributor,
                interest_vault,
            },
        },
        Request::DepositToInterestVault {
            accounts: DepositToInterestVault {
                authority: admin,
                state,
                depositor: admin,
                depositor_token_account: admin_ata,
                interest_distributor: distributor,
                interest_vault,
            },
            amount: 50,
        },
        Request::UserCreateVault {
            accounts: UserCreateVault {
                payer: user,
                user,
                mint,
                interest_distributor: distributor,
                savings_manager: manager,
                savings_vault: vault,
            },
        },
        Request::UserDeposit {
            accounts: UserDeposit {
                user,
                savings_manager: manager,
                user_token_account: user_ata,
                savings_vault: vault,
            },
            amount: 500,
        },
        Request::InitializeState {
            accounts: InitializeState { initializer: thief, state: den },
            authority: thief,
        },
        Request::CreateInterestVault {
            accounts: CreateInterestVaultForMint {
                authority: thief,
                payer: thief,
                state: den,
                mint,
                interest_distributor: lair,
                interest_vault: lair_vault,
            },
        },
    ];
    for request in setup.iter() {
        process(&mut ledger, request, 0).unwrap();
    }

    // A record holds no key, so naming it as the one who signed moves nothing.
    assert_eq!(ledger.transfer(&vault, &thief_ata, &manager, 10), Err(SavingsError::Unauthorized));
    assert_eq!(
        ledger.transfer(&interest_vault, &thief_ata, &distributor, 10),
        Err(SavingsError::Unauthorized)
    );
    assert_eq!(ledger.transfer(&vault, &thief_ata, &thief, 10), Err(SavingsError::Unauthorized));
    let attempts = [
        // "Funding" the thief's own pool out of the user's vault or the other pool.
        Request::DepositToInterestVault {
            accounts: DepositToInterestVault {
                authority: thief,
                state: den,
                depositor: manager,
                depositor_token_account: vault,
                interest_distributor: lair,
                interest_vault: lair_vault,
            },
            amount: 10,
        },
        Request::DepositToInterestVault {
            accounts: DepositToInterestVault {
                authority: thief,
                state: den,
                depositor: distributor,
                depositor_token_account: interest_vault,
                interest_distributor: lair,
                interest_vault: lair_vault,
            },
            amount: 10,
        },
        // Withdrawing from the other pool under the thief's own state.
        Request::WithdrawFromInterestVault {
            accounts: WithdrawFromInterestVault {
                authority: thief,
                destination_token_account: thief_ata,
                state: den,
                interest_distributor: distributor,
                interest_vault,
            },
            amount: 10,
        },
        Request::WithdrawFromInterestVault {
            accounts: WithdrawFromInterestVault {
                authority: thief,
                destination_token_account: thief_ata,
                state: den,
                interest_distributor: lair,
                interest_vault,
            },
            amount: 10,
        },
        // Withdrawing from the user's vault as the thief.
        Request::UserWithdraw {
            accounts: UserWithdraw {
                user: thief,
                savings_manager: manager,
                savings_vault: vault,
                destination_token_account: thief_ata,
            },
            amount: 10,
        },
    ];
    for request in attempts.iter() {
        assert!(process(&mut ledger, request, 0).is_err());
        assert_eq!(ledger.token(&vault).unwrap().amount, 500);
        assert_eq!(ledger.token(&interest_vault).unwrap().amount, 50);
        assert_eq!(ledger.token(&thief_ata).unwrap().amount, 0);
        assert_eq!(ledger.token(&lair_vault).unwrap().amount, 0);
    }
    // The rightful requests go through, on the records' own authority.
    let rightful = [
        Request::UserWithdraw {
            accounts: UserWithdraw {
                user,
                savings_manager: manager,
                savings_vault: vault,
                destination_token_account: user_ata,
            },
            amount: 200,
        },
        Request::WithdrawFromInterestVault {
            accounts: WithdrawFromInterestVault {
                authority: admin,
                destination_token_account: admin_ata,
                state,
                interest_distributor: distributor,
                interest_vault,
            },
            amount: 20,
        },
    ];
    for request in rightful.iter() {
        assert_eq!(process(&mut ledger, request, 0), Ok(()));
    }
    assert_eq!(ledger.token(&vault).unwrap().amount, 300);
    assert_eq!(ledger.token(&user_ata).unwrap().amount, 200);
    assert_eq!(ledger.token(&interest_vault).unwrap().amount, 30);
    assert_eq!(ledger.token(&admin_ata).unwrap().amount, 20);
}
