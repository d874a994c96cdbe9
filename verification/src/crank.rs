//! The off-chain driver: which accounts to scan for and which requests to
//! submit so that interest is paid out. Nothing here talks to a cluster; the
//! caller fetches the accounts it is told to look for, and signs and submits
//! the requests it is handed.

use crate::accrual::{DepositInterestToMultipleUsers, DepositInterestToUser};
use crate::address::{
    associated_token_address, get_associated_token_address, lemma_address_eq,
    lemma_address_of_bytes, lemma_address_of_view, token_program_id, Address, TOKEN_PROGRAM_ID,
};
use crate::layout::SAVINGS_MANAGER_DISCRIMINATOR;
use crate::state::SavingsManager;
use vstd::prelude::*;
use vstd::slice::slice_to_vec;
use vstd::string::*;

verus! {

/// What a request to pay one vault starts with.
pub const DEPOSIT_INTEREST_DISCRIMINATOR: [u8; 8] = [232, 134, 245, 86, 30, 36, 163, 65];

/// What a request to pay several vaults starts with.
pub const DEPOSIT_INTEREST_MULTIPLE_DISCRIMINATOR: [u8; 8] = [183, 170, 28, 36, 88, 86, 11, 10];

/// The endpoint that a cluster name stands for; any other text is taken to be
/// an endpoint already.
pub open spec fn endpoint_of(cluster: Seq<char>) -> Seq<char> {
    if cluster == "devnet"@ {
        "https://api.devnet.solana.com"@
    } else if cluster == "testnet"@ {
        "https://api.testnet.solana.com"@
    } else if cluster == "mainnet"@ {
        "https://api.mainnet-beta.solana.com"@
    } else if cluster == "localnet"@ {
        "http://127.0.0.1:8899"@
    } else {
        cluster
    }
}

fn is_name(text: &str, name: &str) -> (r: bool)
    ensures
        r == (text@ == name@),
{
    text.to_owned() == name.to_owned()
}

/// Resolves a cluster name to its RPC endpoint.
pub fn cluster_url<'a>(cluster: &'a str) -> (url: &'a str)
    ensures
        url@ == endpoint_of(cluster@),
{
    if is_name(cluster, "devnet") {
        "https://api.devnet.solana.com"
    } else if is_name(cluster, "testnet") {
        "https://api.testnet.solana.com"
    } else if is_name(cluster, "mainnet") {
        "https://api.mainnet-beta.solana.com"
    } else if is_name(cluster, "localnet") {
        "http://127.0.0.1:8899"
    } else {
        cluster
    }
}

/// A condition on an account's bytes: they hold `bytes` at `offset`.
#[derive(Debug, PartialEq, Eq)]
pub struct ByteFilter {
    pub offset: usize,
    pub bytes: Vec<u8>,
}

/// Whether `data` holds `bytes` at `offset`.
pub open spec fn holds_at(data: Seq<u8>, offset: int, bytes: Seq<u8>) -> bool {
    offset + bytes.len() <= data.len() && data.subrange(offset, offset + bytes.len()) == bytes
}

/// Whether the scan for a user's vault records picks an account with these
/// bytes: they start with the tag of a vault record, and name the user as
/// owner right after it.
pub open spec fn scan_selects(user: Address, data: Seq<u8>) -> bool {
    holds_at(data, 0, SAVINGS_MANAGER_DISCRIMINATOR@) && holds_at(data, 8, user@)
}

impl ByteFilter {
    /// Whether an account's bytes meet the condition.
    pub fn matches(&self, data: &[u8]) -> (r: bool)
        ensures
            r == holds_at(data@, self.offset as int, self.bytes@),
    {
        let n = self.bytes.len();
        let size = data.len();
        if self.offset > size || n > size - self.offset {
            return false;
        }
        let mut i: usize = 0;
        while i < n
            invariant
                i <= n,
                n == self.bytes@.len(),
                size == data@.len(),
                self.offset + n <= size,
                forall|j: int| 0 <= j < i ==> data@[self.offset + j] == self.bytes@[j],
            decreases n - i,
        {
            if data[self.offset + i] != self.bytes[i] {
                assert(data@.subrange(self.offset as int, self.offset + n)[i as int]
                    != self.bytes@[i as int]);
                return false;
            }
            i += 1;
        }
        assert(data@.subrange(self.offset as int, self.offset + n) =~= self.bytes@);
        true
    }
}

/// The conditions by which to scan for the vault records of a user: the
/// tag of a vault record at the start, and the user's identity in the owner
/// field behind it.
pub fn user_account_filters(user: &Address) -> (r: Vec<ByteFilter>)
    ensures
        r@.len() == 2,
        r@[0].offset == 0,
        r@[0].bytes@ == SAVINGS_MANAGER_DISCRIMINATOR@,
        r@[1].offset == 8,
        r@[1].bytes@ == user@,
        forall|data: Seq<u8>|
            scan_selects(*user, data) <==> holds_at(data, r@[0].offset as int, r@[0].bytes@)
                && holds_at(data, r@[1].offset as int, r@[1].bytes@),
{
    let mut filters: Vec<ByteFilter> = Vec::new();
    filters.push(ByteFilter { offset: 0, bytes: slice_to_vec(SAVINGS_MANAGER_DISCRIMINATOR.as_slice()) });
    filters.push(ByteFilter { offset: 8, bytes: slice_to_vec(user.bytes.as_slice()) });
    filters
}

/// The scan for a user's vault records picks, among accounts large enough
/// to hold a vault record, exactly those that hold one owned by the user.
pub proof fn lemma_scan_selects_the_users_vaults(user: Address, data: Seq<u8>)
    requires
        data.len() >= SavingsManager::SPACE,
    ensures
        scan_selects(user, data) <==> (SavingsManager::decoded(data) matches Some(m) && m.user
            == user),
{
    lemma_address_of_view(user);
    lemma_address_of_bytes(data.subrange(8, 40));
    lemma_address_eq(Address::of(data.subrange(8, 40)), user);
}

/// Reads the vault records out of the accounts that a scan returned, each
/// with its address. There is a result only if every account holds one.
pub fn decode_user_accounts(accounts: &Vec<(Address, Vec<u8>)>) -> (r: Option<
    Vec<(Address, SavingsManager)>,
>)
    ensures
        match r {
            Some(vaults) => {
                &&& vaults@.len() == accounts@.len()
                &&& forall|i: int|
                    0 <= i < accounts@.len() ==> (#[trigger] vaults@[i]).0 == accounts@[i].0
                        && SavingsManager::decoded(accounts@[i].1@) == Some(vaults@[i].1)
            },
            None => exists|i: int|
                0 <= i < accounts@.len() && SavingsManager::decoded(
                    (#[trigger] accounts@[i]).1@,
                ) is None,
        },
{
    let mut vaults: Vec<(Address, SavingsManager)> = Vec::new();
    let mut i: usize = 0;
    while i < accounts.len()
        invariant
            i <= accounts@.len(),
            vaults@.len() == i,
            forall|j: int|
                0 <= j < i ==> (#[trigger] vaults@[j]).0 == accounts@[j].0
                    && SavingsManager::decoded(accounts@[j].1@) == Some(vaults@[j].1),
        decreases accounts@.len() - i,
    {
        match SavingsManager::try_deserialize(accounts[i].1.as_slice()) {
            Some(record) => {
                vaults.push((accounts[i].0, record));
            },
            None => {
                return None;
            },
        }
        i += 1;
    }
    Some(vaults)
}

/// One account of a request: its address, whether it has to sign, and
/// whether the request may change it.
#[derive(Clone, Copy, Debug, PartialEq, Eq)]
pub struct AccountMeta {
    pub pubkey: Address,
    pub is_signer: bool,
    pub is_writable: bool,
}

/// An account that a request only reads.
pub open spec fn readonly(pubkey: Address) -> AccountMeta {
    AccountMeta { pubkey, is_signer: false, is_writable: false }
}

/// An account that a request may change.
pub open spec fn writable(pubkey: Address) -> AccountMeta {
    AccountMeta { pubkey, is_signer: false, is_writable: true }
}

/// A request to a program: the accounts it names, in order, and its data.
#[derive(Debug, PartialEq, Eq)]
pub struct Instruction {
    pub program_id: Address,
    pub accounts: Vec<AccountMeta>,
    pub data: Vec<u8>,
}

/// A request as plain values.
pub struct InstructionView {
    pub program_id: Address,
    pub accounts: Seq<AccountMeta>,
    pub data: Seq<u8>,
}

impl View for Instruction {
    type V = InstructionView;

    open spec fn view(&self) -> InstructionView {
        InstructionView { program_id: self.program_id, accounts: self.accounts@, data: self.data@ }
    }
}

/// The accounts to name for the accrual of a vault, given its record: the
/// two fund accounts are the ones derived for the vault record and for its
/// interest pool.
pub open spec fn accrual_accounts(user: Address, manager: Address, record: SavingsManager) -> Option<
    DepositInterestToUser,
> {
    match (
        associated_token_address(manager, record.mint),
        associated_token_address(record.distributor, record.mint),
    ) {
        (Some(vault), Some(interest_vault)) => Some(
            DepositInterestToUser {
                user,
                user_savings_manager: manager,
                user_savings_vault: vault,
                interest_distributor: record.distributor,
                interest_vault,
            },
        ),
        _ => None,
    }
}

/// The accounts of a single accrual as a request lists them.
pub open spec fn deposit_interest_metas(accounts: DepositInterestToUser) -> Seq<AccountMeta> {
    seq![
        readonly(accounts.user),
        writable(accounts.user_savings_manager),
        writable(accounts.user_savings_vault),
        readonly(accounts.interest_distributor),
        writable(accounts.interest_vault),
        readonly(Address { bytes: TOKEN_PROGRAM_ID }),
    ]
}

/// The request that pays one vault.
pub open spec fn deposit_interest_request(
    program: Address,
    accounts: DepositInterestToUser,
) -> InstructionView {
    InstructionView {
        program_id: program,
        accounts: deposit_interest_metas(accounts),
        data: DEPOSIT_INTEREST_DISCRIMINATOR@,
    }
}

/// Works out the accounts to name for the accrual of a vault.
pub fn deposit_interest_accounts(user: &Address, manager: &Address, record: &SavingsManager) -> (r:
    Option<DepositInterestToUser>)
    ensures
        r == accrual_accounts(*user, *manager, *record),
{
    let vault = match get_associated_token_address(manager, &record.mint) {
        Some(vault) => vault,
        None => {
            return None;
        },
    };
    let interest_vault = match get_associated_token_address(&record.distributor, &record.mint) {
        Some(interest_vault) => interest_vault,
        None => {
            return None;
        },
    };
    Some(
        DepositInterestToUser {
            user: *user,
            user_savings_manager: *manager,
            user_savings_vault: vault,
            interest_distributor: record.distributor,
            interest_vault,
        },
    )
}

fn meta(pubkey: Address, is_writable: bool) -> (r: AccountMeta)
    ensures
        r == (AccountMeta { pubkey, is_signer: false, is_writable }),
{
    AccountMeta { pubkey, is_signer: false, is_writable }
}

/// Assembles the request that pays one vault.
pub fn deposit_interest_instruction(program: &Address, accounts: &DepositInterestToUser) -> (r:
    Instruction)
    ensures
        r@ == deposit_interest_request(*program, *accounts),
{
    let mut metas: Vec<AccountMeta> = Vec::new();
    metas.push(meta(accounts.user, false));
    metas.push(meta(accounts.user_savings_manager, true));
    metas.push(meta(accounts.user_savings_vault, true));
    metas.push(meta(accounts.interest_distributor, false));
    metas.push(meta(accounts.interest_vault, true));
    metas.push(meta(token_program_id(), false));
    let r = Instruction {
        program_id: *program,
        accounts: metas,
        data: slice_to_vec(DEPOSIT_INTEREST_DISCRIMINATOR.as_slice()),
    };
    assert(r@.accounts =~= deposit_interest_metas(*accounts));
    r
}

/// The request that pays the vault of a record, where its fund accounts
/// can be derived.
pub open spec fn crank_request(
    program: Address,
    user: Address,
    manager: Address,
    record: SavingsManager,
) -> Option<InstructionView> {
    match accrual_accounts(user, manager, record) {
        Some(accounts) => Some(deposit_interest_request(program, accounts)),
        None => None,
    }
}

/// The requests that pay a user's vaults one by one: one request per vault
/// record, in the order of the records. There is a result only if the fund
/// accounts of every vault can be derived.
pub fn crank_instructions(
    program: &Address,
    user: &Address,
    vaults: &Vec<(Address, SavingsManager)>,
) -> (r: Option<Vec<Instruction>>)
    ensures
        match r {
            Some(requests) => {
                &&& requests@.len() == vaults@.len()
                &&& forall|i: int|
                    0 <= i < vaults@.len() ==> crank_request(
                        *program,
                        *user,
                        vaults@[i].0,
                        vaults@[i].1,
                    ) == Some((#[trigger] requests@[i])@)
            },
            None => exists|i: int|
                0 <= i < vaults@.len() && crank_request(
                    *program,
                    *user,
                    (#[trigger] vaults@[i]).0,
                    vaults@[i].1,
                ) is None,
        },
{
    let mut requests: Vec<Instruction> = Vec::new();
    let mut i: usize = 0;
    while i < vaults.len()
        invariant
            i <= vaults@.len(),
            requests@.len() == i,
            forall|j: int|
                0 <= j < i ==> crank_request(*program, *user, vaults@[j].0, vaults@[j].1) == Some(
                    (#[trigger] requests@[j])@,
                ),
        decreases vaults@.len() - i,
    {
        match deposit_interest_accounts(user, &vaults[i].0, &vaults[i].1) {
            Some(accounts) => {
                requests.push(deposit_interest_instruction(program, &accounts));
            },
            None => {
                return None;
            },
        }
        i += 1;
    }
    Some(requests)
}

/// A vault as a scan found it: the user that was scanned for, the address
/// of the vault record, and the record.
#[derive(Clone, Copy, Debug, PartialEq, Eq)]
pub struct UserVault {
    pub user: Address,
    pub manager: Address,
    pub record: SavingsManager,
}

/// The vaults that one request pays: those of one interest pool.
#[derive(Debug, PartialEq, Eq)]
pub struct Batch {
    /// The interest pool that pays.
    pub distributor: Address,
    /// The asset, as the first of the vaults records it.
    pub mint: Address,
    /// The recipients: user, vault record and fund account of each vault.
    pub remaining_accounts: Vec<AccountMeta>,
}

/// A batch as plain values.
pub struct BatchView {
    pub distributor: Address,
    pub mint: Address,
    pub remaining_accounts: Seq<AccountMeta>,
}

impl View for Batch {
    type V = BatchView;

    open spec fn view(&self) -> BatchView {
        BatchView {
            distributor: self.distributor,
            mint: self.mint,
            remaining_accounts: self.remaining_accounts@,
        }
    }
}

/// The interest pools that some vault belongs to, each once, in the order
/// in which they first occur.
pub open spec fn pools_of(vaults: Seq<UserVault>) -> Seq<Address>
    decreases vaults.len(),
{
    if vaults.len() == 0 {
        Seq::empty()
    } else {
        let before = pools_of(vaults.drop_last());
        if before.contains(vaults.last().record.distributor) {
            before
        } else {
            before.push(vaults.last().record.distributor)
        }
    }
}

/// The asset of an interest pool, as the first vault of that pool records
/// it.
pub open spec fn pool_mint(vaults: Seq<UserVault>, distributor: Address) -> Address
    decreases vaults.len(),
{
    if vaults.len() == 0 {
        arbitrary()
    } else if pools_of(vaults.drop_last()).contains(distributor) {
        pool_mint(vaults.drop_last(), distributor)
    } else {
        vaults.last().record.mint
    }
}

/// How a batch lists one vault: the user, the vault record, and the fund
/// account derived for the record.
pub open spec fn recipient_metas(vault: UserVault) -> Seq<AccountMeta> {
    seq![
        readonly(vault.user),
        writable(vault.manager),
        writable(associated_token_address(vault.manager, vault.record.mint).unwrap()),
    ]
}

/// The recipients of the batch of one interest pool: its vaults, in the
/// order in which they occur.
pub open spec fn recipients_of(vaults: Seq<UserVault>, distributor: Address) -> Seq<AccountMeta>
    decreases vaults.len(),
{
    if vaults.len() == 0 {
        Seq::empty()
    } else if vaults.last().record.distributor == distributor {
        recipients_of(vaults.drop_last(), distributor) + recipient_metas(vaults.last())
    } else {
        recipients_of(vaults.drop_last(), distributor)
    }
}

/// The fund account of every vault can be derived.
pub open spec fn derivable(vaults: Seq<UserVault>) -> bool {
    forall|i: int|
        0 <= i < vaults.len() ==> associated_token_address(
            (#[trigger] vaults[i]).manager,
            vaults[i].record.mint,
        ) is Some
}

/// The batch of the `k`-th interest pool.
pub open spec fn batch_of(vaults: Seq<UserVault>, k: int) -> BatchView {
    let distributor = pools_of(vaults)[k];
    BatchView {
        distributor,
        mint: pool_mint(vaults, distributor),
        remaining_accounts: recipients_of(vaults, distributor),
    }
}

fn position(list: &Vec<Address>, key: &Address) -> (r: Option<usize>)
    ensures
        r matches Some(k) ==> k < list@.len() && list@[k as int] == *key,
        r is None ==> !list@.contains(*key),
{
    let mut k: usize = 0;
    while k < list.len()
        invariant
            k <= list@.len(),
            forall|j: int| 0 <= j < k ==> list@[j] != *key,
        decreases list@.len() - k,
    {
        if list[k] == *key {
            return Some(k);
        }
        k += 1;
    }
    None
}

/// Sorts vaults into batches, one per interest pool. The pools come in the
/// order in which they first occur, and within a batch the vaults keep
/// their order. There is a result only if the fund account of every vault
/// can be derived.
pub fn group_by_distributor(vaults: &Vec<UserVault>) -> (r: Option<Vec<Batch>>)
    ensures
        r is Some <==> derivable(vaults@),
        r matches Some(batches) ==> {
            &&& batches@.len() == pools_of(vaults@).len()
            &&& forall|k: int|
                0 <= k < batches@.len() ==> (#[trigger] batches@[k])@ == batch_of(vaults@, k)
        },
{
    let n = vaults.len();
    // The fund account of each vault.
    let mut funds: Vec<Address> = Vec::new();
    let mut i: usize = 0;
    while i < n
        invariant
            n == vaults@.len(),
            i <= n,
            funds@.len() == i,
            forall|j: int|
                0 <= j < i ==> associated_token_address(
                    (#[trigger] vaults@[j]).manager,
                    vaults@[j].record.mint,
                ) == Some(funds@[j]),
        decreases n - i,
    {
        match get_associated_token_address(&vaults[i].manager, &vaults[i].record.mint) {
            Some(fund) => {
                funds.push(fund);
            },
            None => {
                return None;
            },
        }
        i += 1;
    }
    // The interest pools, and the asset of each.
    let mut pools: Vec<Address> = Vec::new();
    let mut mints: Vec<Address> = Vec::new();
    i = 0;
    while i < n
        invariant
            n == vaults@.len(),
            i <= n,
            pools@ == pools_of(vaults@.take(i as int)),
            mints@.len() == pools@.len(),
            forall|k: int|
                0 <= k < pools@.len() ==> #[trigger] mints@[k] == pool_mint(
                    vaults@.take(i as int),
                    pools@[k],
                ),
        decreases n - i,
    {
        assert(vaults@.take(i + 1).drop_last() =~= vaults@.take(i as int));
        if position(&pools, &vaults[i].record.distributor).is_none() {
            pools.push(vaults[i].record.distributor);
            mints.push(vaults[i].record.mint);
        }
        i += 1;
    }
    assert(vaults@.take(n as int) =~= vaults@);
    // The recipients of each pool.
    let mut batches: Vec<Batch> = Vec::new();
    let mut k: usize = 0;
    while k < pools.len()
        invariant
            n == vaults@.len(),
            funds@.len() == n,
            forall|j: int|
                0 <= j < n ==> associated_token_address(
                    (#[trigger] vaults@[j]).manager,
                    vaults@[j].record.mint,
                ) == Some(funds@[j]),
            pools@ == pools_of(vaults@),
            mints@.len() == pools@.len(),
            forall|q: int|
                0 <= q < pools@.len() ==> #[trigger] mints@[q] == pool_mint(vaults@, pools@[q]),
            k <= pools@.len(),
            batches@.len() == k,
            forall|q: int| 0 <= q < k ==> (#[trigger] batches@[q])@ == batch_of(vaults@, q),
        decreases pools@.len() - k,
    {
        let distributor = pools[k];
        let mut recipients: Vec<AccountMeta> = Vec::new();
        let mut j: usize = 0;
        while j < n
            invariant
                n == vaults@.len(),
                funds@.len() == n,
                forall|j: int|
                    0 <= j < n ==> associated_token_address(
                        (#[trigger] vaults@[j]).manager,
                        vaults@[j].record.mint,
                    ) == Some(funds@[j]),
                j <= n,
                recipients@ == recipients_of(vaults@.take(j as int), distributor),
            decreases n - j,
        {
            assert(vaults@.take(j + 1).drop_last() =~= vaults@.take(j as int));
            if vaults[j].record.distributor == distributor {
                let ghost before = recipients@;
                recipients.push(meta(vaults[j].user, false));
                recipients.push(meta(vaults[j].manager, true));
                recipients.push(meta(funds[j], true));
                assert(recipients@ =~= before + recipient_metas(vaults@[j as int]));
            }
            j += 1;
        }
        assert(vaults@.take(n as int) =~= vaults@);
        batches.push(Batch { distributor, mint: mints[k], remaining_accounts: recipients });
        k += 1;
    }
    Some(batches)
}

/// The accounts that the request for a batch names once.
pub open spec fn batch_accounts(batch: BatchView) -> Option<DepositInterestToMultipleUsers> {
    match associated_token_address(batch.distributor, batch.mint) {
        Some(interest_vault) => Some(
            DepositInterestToMultipleUsers {
                interest_distributor: batch.distributor,
                interest_vault,
            },
        ),
        None => None,
    }
}

/// The accounts of a batched accrual as a request lists them, before the
/// recipients.
pub open spec fn deposit_interest_multiple_metas(accounts: DepositInterestToMultipleUsers) -> Seq<
    AccountMeta,
> {
    seq![
        readonly(accounts.interest_distributor),
        writable(accounts.interest_vault),
        readonly(Address { bytes: TOKEN_PROGRAM_ID }),
    ]
}

/// The request that pays a batch, where the pool's fund account can be
/// derived.
pub open spec fn batch_request(program: Address, batch: BatchView) -> Option<InstructionView> {
    match batch_accounts(batch) {
        Some(accounts) => Some(
            InstructionView {
                program_id: program,
                accounts: deposit_interest_multiple_metas(accounts) + batch.remaining_accounts,
                data: DEPOSIT_INTEREST_MULTIPLE_DISCRIMINATOR@,
            },
        ),
        None => None,
    }
}

/// Assembles the request that pays a batch.
pub fn deposit_interest_multiple_instruction(program: &Address, batch: &Batch) -> (r: Option<
    Instruction,
>)
    ensures
        match r {
            Some(request) => batch_request(*program, batch@) == Some(request@),
            None => batch_request(*program, batch@) is None,
        },
{
    let interest_vault = match get_associated_token_address(&batch.distributor, &batch.mint) {
        Some(interest_vault) => interest_vault,
        None => {
            return None;
        },
    };
    let mut metas: Vec<AccountMeta> = Vec::new();
    metas.push(meta(batch.distributor, false));
    metas.push(meta(interest_vault, true));
    metas.push(meta(token_program_id(), false));
    let ghost head = metas@;
    let mut i: usize = 0;
    while i < batch.remaining_accounts.len()
        invariant
            i <= batch.remaining_accounts@.len(),
            metas@ == head + batch.remaining_accounts@.take(i as int),
        decreases batch.remaining_accounts@.len() - i,
    {
        metas.push(batch.remaining_accounts[i]);
        assert(batch.remaining_accounts@.take(i + 1) =~= batch.remaining_accounts@.take(
            i as int,
        ).push(batch.remaining_accounts@[i as int]));
        i += 1;
    }
    assert(batch.remaining_accounts@.take(i as int) =~= batch.remaining_accounts@);
    let r = Instruction {
        program_id: *program,
        accounts: metas,
        data: slice_to_vec(DEPOSIT_INTEREST_MULTIPLE_DISCRIMINATOR.as_slice()),
    };
    assert(head =~= deposit_interest_multiple_metas(batch_accounts(batch@).unwrap()));
    Some(r)
}

/// The requests that pay the vaults of several users, one request per
/// interest pool. There is a result only if every fund account can be
/// derived.
pub fn crank_multiple_instructions(program: &Address, vaults: &Vec<UserVault>) -> (r: Option<
    Vec<Instruction>,
>)
    ensures
        r matches Some(requests) ==> {
            &&& derivable(vaults@)
            &&& requests@.len() == pools_of(vaults@).len()
            &&& forall|k: int|
                0 <= k < requests@.len() ==> batch_request(*program, batch_of(vaults@, k)) == Some(
                    (#[trigger] requests@[k])@,
                )
        },
        r is None ==> !derivable(vaults@) || exists|k: int|
            0 <= k < pools_of(vaults@).len() && #[trigger] batch_request(
                *program,
                batch_of(vaults@, k),
            ) is None,
{
    let batches = match group_by_distributor(vaults) {
        Some(batches) => batches,
        None => {
            return None;
        },
    };
    let mut requests: Vec<Instruction> = Vec::new();
    let mut k: usize = 0;
    while k < batches.len()
        invariant
            k <= batches@.len(),
            batches@.len() == pools_of(vaults@).len(),
            forall|q: int|
                0 <= q < batches@.len() ==> (#[trigger] batches@[q])@ == batch_of(vaults@, q),
            requests@.len() == k,
            forall|q: int|
                0 <= q < k ==> batch_request(*program, batch_of(vaults@, q)) == Some(
                    (#[trigger] requests@[q])@,
                ),
        decreases batches@.len() - k,
    {
        match deposit_interest_multiple_instruction(program, &batches[k]) {
            Some(request) => {
                requests.push(request);
            },
            None => {
                return None;
            },
        }
        k += 1;
    }
    Some(requests)
}

/// No interest pool gets two batches, and every vault's pool gets one.
pub proof fn lemma_one_batch_per_pool(vaults: Seq<UserVault>)
    ensures
        pools_of(vaults).no_duplicates(),
        forall|i: int|
            0 <= i < vaults.len() ==> pools_of(vaults).contains(
                (#[trigger] vaults[i]).record.distributor,
            ),
        forall|d: Address|
            pools_of(vaults).contains(d) ==> exists|i: int|
                0 <= i < vaults.len() && (#[trigger] vaults[i]).record.distributor == d,
    decreases vaults.len(),
{
    if vaults.len() > 0 {
        let before = vaults.drop_last();
        let last = vaults.last();
        lemma_one_batch_per_pool(before);
        assert forall|i: int| 0 <= i < vaults.len() implies pools_of(vaults).contains(
            (#[trigger] vaults[i]).record.distributor,
        ) by {
            if i < before.len() {
                assert(before[i] == vaults[i]);
                let d = vaults[i].record.distributor;
                assert(pools_of(before).contains(d));
                let k = choose|k: int| 0 <= k < pools_of(before).len() && pools_of(before)[k] == d;
                assert(pools_of(vaults)[k] == d);
            } else if !pools_of(before).contains(last.record.distributor) {
                assert(pools_of(vaults)[pools_of(before).len() as int] == last.record.distributor);
            }
        }
        assert forall|d: Address| pools_of(vaults).contains(d) implies exists|i: int|
            0 <= i < vaults.len() && (#[trigger] vaults[i]).record.distributor == d by {
            if pools_of(before).contains(d) {
                let i = choose|i: int|
                    0 <= i < before.len() && (#[trigger] before[i]).record.distributor == d;
                assert(vaults[i].record.distributor == d);
            } else {
                assert(vaults[vaults.len() - 1].record.distributor == d);
            }
        }
    }
}

/// A batch is never empty and lists whole triples: three accounts for each
/// vault of its pool.
pub proof fn lemma_batches_hold_whole_triples(vaults: Seq<UserVault>, distributor: Address)
    ensures
        recipients_of(vaults, distributor).len() % 3 == 0,
        pools_of(vaults).contains(distributor) ==> recipients_of(vaults, distributor).len() >= 3,
    decreases vaults.len(),
{
    if vaults.len() > 0 {
        lemma_batches_hold_whole_triples(vaults.drop_last(), distributor);
        if pools_of(vaults).contains(distributor) && !pools_of(vaults.drop_last()).contains(
            distributor,
        ) {
            let k = choose|k: int|
                0 <= k < pools_of(vaults).len() && pools_of(vaults)[k] == distributor;
            if k < pools_of(vaults.drop_last()).len() {
                assert(pools_of(vaults.drop_last())[k] == distributor);
            }
        }
    }
}

/// The course of a run of the crank: how many requests there are, how many
/// have been submitted, and which of those failed. Each request is a unit
/// of its own: one that fails does not keep the later ones from being
/// submitted.
#[derive(Debug)]
pub struct Run {
    total: usize,
    submitted: usize,
    failed: Vec<usize>,
}

/// What the crank does next.
#[derive(Clone, Copy, Debug, PartialEq, Eq, Structural)]
pub enum Step {
    /// Submit the request of this index.
    Submit(usize),
    /// There is nothing left to submit.
    Finished,
}

/// A run as plain values.
pub struct RunView {
    pub total: nat,
    pub submitted: nat,
    pub failed: Seq<usize>,
}

impl View for Run {
    type V = RunView;

    closed spec fn view(&self) -> RunView {
        RunView {
            total: self.total as nat,
            submitted: self.submitted as nat,
            failed: self.failed@,
        }
    }
}

impl Run {
    /// No more requests count as submitted than there are, and the failed
    /// ones are among the submitted ones, in the order of submission.
    pub closed spec fn wf(&self) -> bool {
        &&& self.submitted <= self.total
        &&& forall|i: int| 0 <= i < self.failed@.len() ==> #[trigger] self.failed@[i] < self.submitted
        &&& forall|i: int, j: int|
            0 <= i < j < self.failed@.len() ==> self.failed@[i] < self.failed@[j]
    }

    /// A run over `total` requests, of which none has been submitted.
    pub fn new(total: usize) -> (r: Run)
        ensures
            r.wf(),
            r@ == (RunView { total: total as nat, submitted: 0, failed: Seq::empty() }),
    {
        Run { total, submitted: 0, failed: Vec::new() }
    }

    /// What to do next: submit the first request that has not been
    /// submitted, whatever became of the ones before.
    pub fn next(&self) -> (r: Step)
        requires
            self.wf(),
        ensures
            r == (if self@.submitted < self@.total {
                Step::Submit(self@.submitted as usize)
            } else {
                Step::Finished
            }),
    {
        if self.submitted < self.total {
            Step::Submit(self.submitted)
        } else {
            Step::Finished
        }
    }

    /// Takes note of how the request that was due went.
    pub fn record(&mut self, succeeded: bool)
        requires
            old(self).wf(),
            old(self)@.submitted < old(self)@.total,
        ensures
            final(self).wf(),
            final(self)@.total == old(self)@.total,
            final(self)@.submitted == old(self)@.submitted + 1,
            final(self)@.failed == (if succeeded {
                old(self)@.failed
            } else {
                old(self)@.failed.push(old(self)@.submitted as usize)
            }),
    {
        if !succeeded {
            self.failed.push(self.submitted);
        }
        self.submitted = self.submitted + 1;
    }

    /// The requests that failed so far, by index, in the order in which
    /// they were submitted.
    pub fn failures(&self) -> (r: &Vec<usize>)
        ensures
            r@ == self@.failed,
    {
        &self.failed
    }
}

} // verus!
