use anchor_lang::prelude::Pubkey;
use anchor_lang::solana_program::hash::hash;
use savings_program::accrual::{
    deposit_interest, deposit_interest_multiple, DepositInterestToMultipleUsers,
    DepositInterestToUser,
};
use savings_program::address::{
    derive_interest_distributor_pda, derive_savings_manager_pda, get_associated_token_address, id,
    Address,
};
use savings_program::admin::{
    create_interest_vault, deposit_to_interest_vault, initialize_state,
    CreateInterestVaultForMint, DepositToInterestVault, InitializeState,
};
use savings_program::crank::{
    cluster_url, crank_instructions, crank_multiple_instructions, decode_user_accounts,
    deposit_interest_accounts, deposit_interest_instruction, deposit_interest_multiple_instruction,
    group_by_distributor, user_account_filters, AccountMeta, Batch, ByteFilter, Instruction,
    UserVault, DEPOSIT_INTEREST_DISCRIMINATOR, DEPOSIT_INTEREST_MULTIPLE_DISCRIMINATOR,
};
use savings_program::error::SavingsError;
use savings_program::interest::SECONDS_IN_MONTHS;
use savings_program::ledger::Ledger;
use savings_program::state::{InterestDistributor, SavingsManager, State};
use savings_program::user::{user_create_vault, user_deposit, UserCreateVault, UserDeposit};

fn address(seed: u8) -> Address {
    let mut bytes = [seed; 32];
    bytes[0] = 0x5A;
    bytes[31] = seed.wrapping_mul(13);
    Address::new(bytes)
}

fn key(a: &Address) -> Pubkey {
    Pubkey::new_from_array(a.bytes)
}

fn ata(owner: &Address, mint: &Address) -> Address {
    Address::new(
        anchor_spl::associated_token::get_associated_token_address(&key(owner), &key(mint))
            .to_bytes(),
    )
}

fn token_program() -> Address {
    Address::new(anchor_spl::token::ID.to_bytes())
}

fn record(user: u8, mint: u8, distributor: u8) -> SavingsManager {
    SavingsManager {
        user: address(user),
        mint: address(mint),
        distributor: address(distributor),
        last_interest_deposit_ts: 0,
        bump: 255,
    }
}

fn ro(pubkey: Address) -> AccountMeta {
    AccountMeta { pubkey, is_signer: false, is_writable: false }
}

fn rw(pubkey: Address) -> AccountMeta {
    AccountMeta { pubkey, is_signer: false, is_writable: true }
}

#[test]
fn cluster_names_resolve_to_endpoints() {
    assert_eq!(cluster_url("devnet"), "https://api.devnet.solana.com");
    assert_eq!(cluster_url("testnet"), "https://api.testnet.solana.com");
    assert_eq!(cluster_url("mainnet"), "https://api.mainnet-beta.solana.com");
    assert_eq!(cluster_url("localnet"), "http://127.0.0.1:8899");
}

#[test]
fn unknown_cluster_is_taken_as_endpoint() {
    assert_eq!(cluster_url("http://10.0.0.1:9000"), "http://10.0.0.1:9000");
    assert_eq!(cluster_url("Devnet"), "Devnet");
    assert_eq!(cluster_url("devnet "), "devnet ");
    assert_eq!(cluster_url(""), "");
}

#[test]
fn request_tags_are_the_hashes_of_the_entry_point_names() {
    assert_eq!(
        DEPOSIT_INTEREST_DISCRIMINATOR.to_vec(),
        hash(b"global:deposit_interest").to_bytes()[..8].to_vec()
    );
    assert_eq!(
        DEPOSIT_INTEREST_MULTIPLE_DISCRIMINATOR.to_vec(),
        hash(b"global:deposit_interest_multiple").to_bytes()[..8].to_vec()
    );
}

#[test]
fn scan_looks_for_the_tag_and_the_owner() {
    let user = address(1);
    let filters = user_account_filters(&user);
    assert_eq!(filters.len(), 2);
    assert_eq!(filters[0].offset, 0);
    assert_eq!(filters[0].bytes, hash(b"account:SavingsManager").to_bytes()[..8].to_vec());
    assert_eq!(filters[1].offset, 8);
    assert_eq!(filters[1].bytes, user.bytes.to_vec());
}

#[test]
fn scan_picks_the_users_vault_records_only() {
    let user = address(1);
    let filters = user_account_filters(&user);
    let picks = |data: &[u8]| filters.iter().all(|f| f.matches(data));
    assert!(picks(&record(1, 2, 3).try_serialize()));
    assert!(picks(&record(1, 9, 8).try_serialize()));
    // Another user's vault, even one that names the user elsewhere.
    assert!(!picks(&record(4, 2, 3).try_serialize()));
    assert!(!picks(&record(4, 1, 1).try_serialize()));
    // Records of other kinds that hold the user's identity in the same place.
    assert!(!picks(&State { authority: user }.try_serialize()));
    assert!(!picks(&InterestDistributor { state: user, mint: user, bump: 0 }.try_serialize()));
    assert!(!picks(&[]));
    assert!(!picks(&record(1, 2, 3).try_serialize()[..39]));
}

#[test]
fn byte_filter_compares_at_its_offset() {
    let f = ByteFilter { offset: 2, bytes: vec![7, 8] };
    assert!(f.matches(&[0, 0, 7, 8]));
    assert!(f.matches(&[0, 0, 7, 8, 9]));
    assert!(!f.matches(&[7, 8, 0, 0]));
    assert!(!f.matches(&[0, 0, 7]));
    assert!(!f.matches(&[0]));
    let empty = ByteFilter { offset: 3, bytes: vec![] };
    assert!(empty.matches(&[1, 2, 3]));
    assert!(!empty.matches(&[1, 2]));
    let far = ByteFilter { offset: usize::MAX, bytes: vec![1] };
    assert!(!far.matches(&[1]));
}

#[test]
fn scanned_accounts_are_decoded_with_their_addresses() {
    let a = record(1, 2, 3);
    let b = SavingsManager { last_interest_deposit_ts: -5, ..record(1, 4, 5) };
    let raw = vec![(address(10), a.try_serialize()), (address(11), b.try_serialize())];
    assert_eq!(decode_user_accounts(&raw), Some(vec![(address(10), a), (address(11), b)]));
    assert_eq!(decode_user_accounts(&vec![]), Some(vec![]));
    let mut broken = raw;
    broken.push((address(12), vec![1, 2, 3]));
    assert_eq!(decode_user_accounts(&broken), None);
}

#[test]
fn accrual_accounts_are_derived_from_the_record() {
    let (user, manager) = (address(1), address(20));
    let m = record(1, 2, 3);
    let accounts = deposit_interest_accounts(&user, &manager, &m).unwrap();
    assert_eq!(
        accounts,
        DepositInterestToUser {
            user,
            user_savings_manager: manager,
            user_savings_vault: ata(&manager, &m.mint),
            interest_distributor: m.distributor,
            interest_vault: ata(&m.distributor, &m.mint),
        }
    );
}

#[test]
fn single_request_lists_six_accounts() {
    let accounts = DepositInterestToUser {
        user: address(1),
        user_savings_manager: address(2),
        user_savings_vault: address(3),
        interest_distributor: address(4),
        interest_vault: address(5),
    };
    let request = deposit_interest_instruction(&address(99), &accounts);
    assert_eq!(
        request,
        Instruction {
            program_id: address(99),
            accounts: vec![
                ro(address(1)),
                rw(address(2)),
                rw(address(3)),
                ro(address(4)),
                rw(address(5)),
                ro(token_program()),
            ],
            data: hash(b"global:deposit_interest").to_bytes()[..8].to_vec(),
        }
    );
}

#[test]
fn crank_makes_one_request_per_vault() {
    let user = address(1);
    let vaults = vec![(address(20), record(1, 2, 3)), (address(21), record(1, 4, 5))];
    let requests = crank_instructions(&id(), &user, &vaults).unwrap();
    assert_eq!(requests.len(), 2);
    for (request, (manager, m)) in requests.iter().zip(vaults.iter()) {
        let accounts = deposit_interest_accounts(&user, manager, m).unwrap();
        assert_eq!(*request, deposit_interest_instruction(&id(), &accounts));
        assert_eq!(request.accounts[1].pubkey, *manager);
        assert_eq!(request.accounts[3].pubkey, m.distributor);
    }
    assert_eq!(crank_instructions(&id(), &user, &vec![]), Some(vec![]));
}

fn vault(user: u8, manager: u8, mint: u8, distributor: u8) -> UserVault {
    UserVault { user: address(user), manager: address(manager), record: record(user, mint, distributor) }
}

fn triple(v: &UserVault) -> Vec<AccountMeta> {
    vec![ro(v.user), rw(v.manager), rw(ata(&v.manager, &v.record.mint))]
}

#[test]
fn vaults_are_grouped_by_interest_pool() {
    let a = vault(1, 20, 2, 100);
    let b = vault(1, 21, 3, 101);
    let c = vault(4, 22, 2, 100);
    let d = vault(5, 23, 3, 101);
    let e = vault(5, 24, 6, 102);
    let batches = group_by_distributor(&vec![a, b, c, d, e]).unwrap();
    assert_eq!(batches.len(), 3);
    assert_eq!(
        batches[0],
        Batch {
            distributor: address(100),
            mint: address(2),
            remaining_accounts: [triple(&a), triple(&c)].concat(),
        }
    );
    assert_eq!(
        batches[1],
        Batch {
            distributor: address(101),
            mint: address(3),
            remaining_accounts: [triple(&b), triple(&d)].concat(),
        }
    );
    assert_eq!(
        batches[2],
        Batch { distributor: address(102), mint: address(6), remaining_accounts: triple(&e) }
    );
    assert_eq!(group_by_distributor(&vec![]), Some(vec![]));
}

#[test]
fn batch_keeps_the_asset_of_its_first_vault() {
    let first = vault(1, 20, 2, 100);
    let odd = vault(4, 21, 9, 100);
    let batches = group_by_distributor(&vec![first, odd]).unwrap();
    assert_eq!(batches.len(), 1);
    assert_eq!(batches[0].mint, address(2));
    // Each fund account is still derived from the vault's own record.
    assert_eq!(batches[0].remaining_accounts, [triple(&first), triple(&odd)].concat());
}

#[test]
fn batch_request_lists_the_pool_then_the_recipients() {
    let a = vault(1, 20, 2, 100);
    let c = vault(4, 22, 2, 100);
    let batch = Batch {
        distributor: address(100),
        mint: address(2),
        remaining_accounts: [triple(&a), triple(&c)].concat(),
    };
    let request = deposit_interest_multiple_instruction(&address(99), &batch).unwrap();
    let mut accounts =
        vec![ro(address(100)), rw(ata(&address(100), &address(2))), ro(token_program())];
    accounts.extend(triple(&a));
    accounts.extend(triple(&c));
    assert_eq!(
        request,
        Instruction {
            program_id: address(99),
            accounts,
            data: hash(b"global:deposit_interest_multiple").to_bytes()[..8].to_vec(),
        }
    );
}

#[test]
fn crank_multiple_makes_one_request_per_pool() {
    let vaults = vec![vault(1, 20, 2, 100), vault(1, 21, 3, 101), vault(4, 22, 2, 100)];
    let requests = crank_multiple_instructions(&id(), &vaults).unwrap();
    let batches = group_by_distributor(&vaults).unwrap();
    assert_eq!(requests.len(), 2);
    for (request, batch) in requests.iter().zip(batches.iter()) {
        assert_eq!(Some(request), deposit_interest_multiple_instruction(&id(), batch).as_ref());
        assert_eq!(request.accounts.len(), 3 + batch.remaining_accounts.len());
        assert_eq!(request.accounts[0].pubkey, batch.distributor);
    }
    assert_eq!(requests[0].accounts.len(), 9);
    assert_eq!(requests[1].accounts.len(), 6);
}

/// A ledger with two interest pools under one state and three savers.
struct Deployment {
    ledger: Ledger,
    pools: Vec<(Address, Address)>,
    users: Vec<Address>,
}

const START: i64 = 1_650_000_000;

fn deployment() -> Deployment {
    let mut ledger = Ledger::new(id());
    let (admin, state) = (address(1), address(2));
    initialize_state(&mut ledger, &InitializeState { initializer: admin, state }, admin).unwrap();
    let mut pools = Vec::new();
    for mint in [address(3), address(4)] {
        let admin_ata = ledger.create_associated_token_account(&admin, &mint).unwrap();
        ledger.mint_tokens(&admin_ata, 1000).unwrap();
        let (distributor, _) = derive_interest_distributor_pda(&id(), &state, &mint).unwrap();
        let interest_vault = get_associated_token_address(&distributor, &mint).unwrap();
        create_interest_vault(
            &mut ledger,
            &CreateInterestVaultForMint {
                authority: admin,
                payer: admin,
                state,
                mint,
                interest_distributor: distributor,
                interest_vault,
            },
        )
        .unwrap();
        deposit_to_interest_vault(
            &mut ledger,
            &DepositToInterestVault {
                authority: admin,
                state,
                depositor: admin,
                depositor_token_account: admin_ata,
                interest_distributor: distributor,
                interest_vault,
            },
            1000,
        )
        .unwrap();
        pools.push((distributor, mint));
    }
    let users = vec![address(10), address(11), address(12)];
    // Who saves what: the first user in both pools, the others in one each.
    let savings = [(0, 0, 500u64), (0, 1, 700), (1, 0, 1100), (2, 1, 250)];
    for (u, p, amount) in savings {
        let (user, (distributor, mint)) = (users[u], pools[p]);
        let user_ata = match get_associated_token_address(&user, &mint) {
            Some(a) if ledger.token(&a).is_some() => a,
            _ => ledger.create_associated_token_account(&user, &mint).unwrap(),
        };
        ledger.mint_tokens(&user_ata, amount).unwrap();
        let (manager, _) = derive_savings_manager_pda(&id(), &user, &distributor).unwrap();
        let vault = get_associated_token_address(&manager, &mint).unwrap();
        user_create_vault(
            &mut ledger,
            &UserCreateVault {
                payer: user,
                user,
                mint,
                interest_distributor: distributor,
                savings_manager: manager,
                savings_vault: vault,
            },
            START,
        )
        .unwrap();
        user_deposit(
            &mut ledger,
            &UserDeposit {
                user,
                savings_manager: manager,
                user_token_account: user_ata,
                savings_vault: vault,
            },
            amount,
        )
        .unwrap();
    }
    Deployment { ledger, pools, users }
}

/// What a scan of the ledger with the given conditions returns: the bytes
/// of every vault record that meets them, with its address.
fn scan(d: &Deployment, filters: &[ByteFilter]) -> Vec<(Address, Vec<u8>)> {
    let mut found = Vec::new();
    for user in d.users.iter() {
        for (distributor, _) in d.pools.iter() {
            let (manager, _) = derive_savings_manager_pda(&id(), user, distributor).unwrap();
            if let Some(record) = d.ledger.manager(&manager) {
                let data = record.try_serialize();
                if filters.iter().all(|f| f.matches(&data)) {
                    found.push((manager, data));
                }
            }
        }
    }
    found
}

fn accounts_of(request: &Instruction) -> Vec<Address> {
    request.accounts.iter().map(|m| m.pubkey).collect()
}

#[test]
fn crank_requests_are_accepted_by_the_ledger() {
    let mut d = deployment();
    let user = d.users[0];
    let found = scan(&d, &user_account_filters(&user));
    assert_eq!(found.len(), 2);
    let vaults = decode_user_accounts(&found).unwrap();
    let requests = crank_instructions(&id(), &user, &vaults).unwrap();
    let now = START + SECONDS_IN_MONTHS;
    for request in requests.iter() {
        let a = accounts_of(request);
        let ctx = DepositInterestToUser {
            user: a[0],
            user_savings_manager: a[1],
            user_savings_vault: a[2],
            interest_distributor: a[3],
            interest_vault: a[4],
        };
        assert_eq!(deposit_interest(&mut d.ledger, &ctx, now), Ok(()));
    }
    let vault_of = |d: &Deployment, u: usize, p: usize| {
        let (manager, _) = derive_savings_manager_pda(&id(), &d.users[u], &d.pools[p].0).unwrap();
        d.ledger.token(&get_associated_token_address(&manager, &d.pools[p].1).unwrap()).unwrap().amount
    };
    assert_eq!(vault_of(&d, 0, 0), 505);
    assert_eq!(vault_of(&d, 0, 1), 707);
    assert_eq!(vault_of(&d, 1, 0), 1100);
}

#[test]
fn crank_multiple_requests_are_accepted_by_the_ledger() {
    let mut d = deployment();
    let mut vaults = Vec::new();
    for user in d.users.clone() {
        let found = scan(&d, &user_account_filters(&user));
        for (manager, record) in decode_user_accounts(&found).unwrap() {
            vaults.push(UserVault { user, manager, record });
        }
    }
    assert_eq!(vaults.len(), 4);
    let requests = crank_multiple_instructions(&id(), &vaults).unwrap();
    assert_eq!(requests.len(), 2);
    let now = START + SECONDS_IN_MONTHS;
    for request in requests.iter() {
        let a = accounts_of(request);
        let ctx = DepositInterestToMultipleUsers { interest_distributor: a[0], interest_vault: a[1] };
        assert_eq!(request.accounts[2].pubkey, token_program());
        let recipients = a[3..].to_vec();
        assert_eq!(recipients.len(), 6);
        // Too soon for all of them, and then due for all of them.
        assert_eq!(
            deposit_interest_multiple(&mut d.ledger, &ctx, &recipients, now - 1),
            Err(SavingsError::CrankTurnedTooSoon)
        );
        assert_eq!(deposit_interest_multiple(&mut d.ledger, &ctx, &recipients, now), Ok(()));
    }
    let pool_funds = |d: &Deployment, p: usize| {
        d.ledger
            .token(&get_associated_token_address(&d.pools[p].0, &d.pools[p].1).unwrap())
            .unwrap()
            .amount
    };
    assert_eq!(pool_funds(&d, 0), 1000 - 5 - 11);
    assert_eq!(pool_funds(&d, 1), 1000 - 7 - 2);
}
