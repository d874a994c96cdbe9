//! The ledger: every record and fund account, each at its own address.
//!
//! Besides the three kinds of record the ledger holds the fund accounts:
//! balances of an asset under an authority. Every fund account is the one
//! associated with its authority and asset, at the address derived for the
//! two. An asset comes into circulation by `mint_tokens` and from then on
//! only moves: `transfer` is the one primitive by which a balance changes.
//!
//! Who signed a request is for the caller to establish: where a request
//! names an identity as caller or authority, the ledger takes it that this
//! identity signed. It does so only for identities that can hold a key. An
//! identity at which the ledger holds a record or a fund account holds
//! none: its address was derived. For such a one only the program speaks,
//! by presenting the seeds from which the address derives (see `signer`),
//! and the ledger derives the address once more before it moves anything.

use crate::address::{
    associated_token_address, get_associated_token_address, interest_distributor_pda,
    program_signer, savings_manager_pda, seeds_view, signer_of, Address,
};
use crate::signer::{distributor_signer_seeds, manager_signer_seeds};
use crate::error::SavingsError;
use crate::state::{
    distributor_at, manager_at, state_at, token_at, Account, Accounts, InterestDistributor,
    SavingsManager, State, TokenAccount,
};
use vstd::prelude::*;

verus! {

/// One account together with the address it lives at.
#[derive(Clone, Copy, Debug)]
struct Entry {
    key: Address,
    account: Account,
}

/// The whole of the persistent state. Requests read and change it; a request
/// that fails leaves it as it was.
#[derive(Debug)]
pub struct Ledger {
    program_id: Address,
    entries: Vec<Entry>,
}

spec fn has_key(es: Seq<Entry>, key: Address) -> bool {
    exists|i: int| 0 <= i < es.len() && es[i].key == key
}

spec fn index_of(es: Seq<Entry>, key: Address) -> int {
    choose|i: int| 0 <= i < es.len() && es[i].key == key
}

spec fn distinct(es: Seq<Entry>) -> bool {
    forall|i: int, j: int| 0 <= i < j < es.len() ==> es[i].key != es[j].key
}

spec fn as_map(es: Seq<Entry>) -> Accounts {
    Map::new(|k: Address| has_key(es, k), |k: Address| es[index_of(es, k)].account)
}

/// What an account adds to the circulation of an asset.
pub open spec fn share(account: Account, mint: Address) -> nat {
    match account {
        Account::Token(t) => if t.mint == mint {
            t.amount as nat
        } else {
            0
        },
        _ => 0,
    }
}

spec fn total(es: Seq<Entry>, mint: Address) -> nat
    decreases es.len(),
{
    if es.len() == 0 {
        0
    } else {
        total(es.drop_last(), mint) + share(es.last().account, mint)
    }
}

/// A record sits at the address derived from its own fields, and stores the
/// nonce of that derivation, so that the program signs for the record by
/// the record's seeds; a fund account sits at the address derived from its
/// authority and asset.
pub open spec fn well_placed(program: Address, key: Address, account: Account) -> bool {
    match account {
        Account::State(_) => true,
        Account::InterestDistributor(d) => {
            &&& interest_distributor_pda(program, d.state, d.mint) == Some((key, d.bump))
            &&& signer_of(distributor_signer_seeds(d), program) == Some(key)
        },
        Account::SavingsManager(m) => {
            &&& savings_manager_pda(program, m.user, m.distributor) == Some((key, m.bump))
            &&& signer_of(manager_signer_seeds(m), program) == Some(key)
        },
        Account::Token(t) => associated_token_address(t.owner, t.mint) == Some(key),
    }
}

proof fn lemma_index(es: Seq<Entry>, i: int)
    requires
        distinct(es),
        0 <= i < es.len(),
    ensures
        has_key(es, es[i].key),
        index_of(es, es[i].key) == i,
        as_map(es).dom().contains(es[i].key),
        as_map(es)[es[i].key] == es[i].account,
{
}

proof fn lemma_push(es: Seq<Entry>, e: Entry)
    requires
        distinct(es),
        !has_key(es, e.key),
    ensures
        distinct(es.push(e)),
        as_map(es.push(e)) == as_map(es).insert(e.key, e.account),
{
    let es2 = es.push(e);
    assert(distinct(es2));
    assert forall|k: Address| has_key(es2, k) <==> (k == e.key || has_key(es, k)) by {
        if has_key(es2, k) {
            let i = index_of(es2, k);
            if i < es.len() {
                assert(es[i].key == k);
            }
        }
        if k == e.key {
            assert(es2[es.len() as int].key == k);
        }
        if has_key(es, k) {
            let i = index_of(es, k);
            assert(es2[i].key == k);
        }
    }
    assert forall|k: Address| has_key(es2, k) implies #[trigger] as_map(es2)[k] == as_map(
        es,
    ).insert(e.key, e.account)[k] by {
        let i = index_of(es2, k);
        if k == e.key {
            lemma_index(es2, es.len() as int);
        } else {
            assert(es[i].key == k);
            lemma_index(es, i);
        }
    }
    assert(as_map(es2) =~= as_map(es).insert(e.key, e.account));
}

proof fn lemma_update(es: Seq<Entry>, i: int, account: Account)
    requires
        distinct(es),
        0 <= i < es.len(),
    ensures
        distinct(es.update(i, Entry { key: es[i].key, account })),
        as_map(es.update(i, Entry { key: es[i].key, account })) == as_map(es).insert(
            es[i].key,
            account,
        ),
{
    let key = es[i].key;
    let es2 = es.update(i, Entry { key, account });
    assert(distinct(es2));
    assert forall|k: Address| has_key(es2, k) <==> has_key(es, k) by {
        if has_key(es2, k) {
            let j = index_of(es2, k);
            assert(es[j].key == k);
        }
        if has_key(es, k) {
            let j = index_of(es, k);
            assert(es2[j].key == k);
        }
    }
    lemma_index(es, i);
    assert forall|k: Address| has_key(es2, k) implies #[trigger] as_map(es2)[k] == as_map(
        es,
    ).insert(key, account)[k] by {
        let j = index_of(es2, k);
        lemma_index(es2, j);
        if j != i {
            assert(es[j].key == k);
            lemma_index(es, j);
        }
    }
    assert(as_map(es2) =~= as_map(es).insert(key, account));
}

proof fn lemma_total_push(es: Seq<Entry>, e: Entry, mint: Address)
    ensures
        total(es.push(e), mint) == total(es, mint) + share(e.account, mint),
{
    assert(es.push(e).drop_last() =~= es);
}

proof fn lemma_total_update(es: Seq<Entry>, i: int, e: Entry, mint: Address)
    requires
        0 <= i < es.len(),
    ensures
        total(es.update(i, e), mint) + share(es[i].account, mint) == total(es, mint) + share(
            e.account,
            mint,
        ),
    decreases es.len(),
{
    if i == es.len() - 1 {
        assert(es.update(i, e).drop_last() =~= es.drop_last());
    } else {
        assert(es.update(i, e).drop_last() =~= es.drop_last().update(i, e));
        lemma_total_update(es.drop_last(), i, e, mint);
    }
}

proof fn lemma_total_covers_two(es: Seq<Entry>, i: int, j: int, mint: Address)
    requires
        0 <= i < es.len(),
        0 <= j < es.len(),
        i != j,
    ensures
        share(es[i].account, mint) + share(es[j].account, mint) <= total(es, mint),
        share(es[i].account, mint) <= total(es, mint),
    decreases es.len(),
{
    let last = es.len() - 1;
    if i == last {
        lemma_total_covers_one(es.drop_last(), j, mint);
    } else if j == last {
        lemma_total_covers_one(es.drop_last(), i, mint);
    } else {
        lemma_total_covers_two(es.drop_last(), i, j, mint);
    }
}

proof fn lemma_total_covers_one(es: Seq<Entry>, i: int, mint: Address)
    requires
        0 <= i < es.len(),
    ensures
        share(es[i].account, mint) <= total(es, mint),
    decreases es.len(),
{
    if i < es.len() - 1 {
        lemma_total_covers_one(es.drop_last(), i, mint);
    }
}

proof fn lemma_total_prefix(es: Seq<Entry>, k: int, mint: Address)
    requires
        0 <= k <= es.len(),
    ensures
        total(es.take(k), mint) <= total(es, mint),
        k < es.len() ==> total(es.take(k + 1), mint) == total(es.take(k), mint) + share(
            es[k].account,
            mint,
        ),
    decreases es.len() - k,
{
    if k < es.len() {
        assert(es.take(k + 1).drop_last() =~= es.take(k));
        lemma_total_prefix(es, k + 1, mint);
    } else {
        assert(es.take(k) =~= es);
    }
}

/// An identity that holds no key: a record or a fund account lives at it,
/// at an address that was derived. It cannot sign a request; only the
/// program speaks for it, by its seeds.
pub open spec fn holds_no_key(s: Accounts, identity: Address) -> bool {
    s.dom().contains(identity) && !(s[identity] is State)
}

/// The token transfer primitive. Both accounts must be fund accounts of one
/// asset, the source must cover the amount, and the authority must be the
/// one recorded for the source and have given its word: by signing, which
/// takes a key, or through the program by its seeds. A transfer from an
/// account to itself moves nothing.
pub open spec fn transfer_outcome(
    s: Accounts,
    from: Address,
    to: Address,
    authority: Address,
    by_seeds: bool,
    amount: u64,
) -> Result<Accounts, SavingsError> {
    match (token_at(s, from), token_at(s, to)) {
        (Some(source), Some(destination)) => {
            if source.amount < amount {
                Err(SavingsError::InadequateFunds)
            } else if source.mint != destination.mint {
                Err(SavingsError::InvalidAccount)
            } else if source.owner != authority || (!by_seeds && holds_no_key(s, authority)) {
                Err(SavingsError::Unauthorized)
            } else if from == to {
                Ok(s)
            } else {
                Ok(
                    s.insert(
                        from,
                        Account::Token(
                            TokenAccount { amount: (source.amount - amount) as u64, ..source },
                        ),
                    ).insert(
                        to,
                        Account::Token(
                            TokenAccount {
                                amount: (destination.amount + amount) as u64,
                                ..destination
                            },
                        ),
                    ),
                )
            }
        },
        _ => Err(SavingsError::InvalidAccount),
    }
}

/// A transfer on the signature of `authority`.
pub open spec fn transfer_result(
    s: Accounts,
    from: Address,
    to: Address,
    authority: Address,
    amount: u64,
) -> Result<Accounts, SavingsError> {
    transfer_outcome(s, from, to, authority, false, amount)
}

/// A transfer on the authority of a record, for which the program signs by
/// the record's seeds: it is the transfer on the word of the address that
/// the seeds derive; seeds that derive none move nothing.
pub open spec fn signed_transfer_result(
    s: Accounts,
    program: Address,
    from: Address,
    to: Address,
    seeds: Seq<Seq<u8>>,
    amount: u64,
) -> Result<Accounts, SavingsError> {
    match signer_of(seeds, program) {
        Some(authority) => transfer_outcome(s, from, to, authority, true, amount),
        None => Err(SavingsError::Unauthorized),
    }
}

/// Opening the fund account of an owner for an asset: it is created empty at
/// its derived address, which must be free.
pub open spec fn open_fund_result(s: Accounts, owner: Address, mint: Address) -> Result<
    (Address, Accounts),
    SavingsError,
> {
    match associated_token_address(owner, mint) {
        None => Err(SavingsError::InvalidAccount),
        Some(key) => if s.dom().contains(key) {
            Err(SavingsError::AccountInUse)
        } else {
            Ok((key, s.insert(key, Account::Token(TokenAccount { mint, owner, amount: 0 }))))
        },
    }
}

/// `fund` is the fund account of `owner` for the asset `mint`: it sits at
/// the address derived for the two, and records that asset and that
/// authority.
pub open spec fn is_fund_of(s: Accounts, fund: Address, owner: Address, mint: Address) -> bool {
    &&& associated_token_address(owner, mint) == Some(fund)
    &&& token_at(s, fund) matches Some(t) && t.owner == owner && t.mint == mint
}

/// Whether the fund account of `owner` for `mint` exists.
pub open spec fn has_fund(s: Accounts, owner: Address, mint: Address) -> bool {
    associated_token_address(owner, mint) matches Some(fund) && is_fund_of(s, fund, owner, mint)
}

/// What a record refers to is there: an interest pool has its state and its
/// fund account; a vault record has its interest pool, of the same asset,
/// and its fund account.
pub open spec fn links_hold(s: Accounts, key: Address, account: Account) -> bool {
    match account {
        Account::State(_) => true,
        Account::Token(_) => true,
        Account::InterestDistributor(d) => state_at(s, d.state) is Some && has_fund(
            s,
            key,
            d.mint,
        ),
        Account::SavingsManager(m) => {
            &&& distributor_at(s, m.distributor) matches Some(d) && d.mint == m.mint
            &&& has_fund(s, key, m.mint)
        },
    }
}

/// Every record's references are met.
pub open spec fn consistent(s: Accounts) -> bool {
    forall|k: Address| #[trigger] s.dom().contains(k) ==> links_hold(s, k, s[k])
}

/// Two accounts differ at most in what requests may change: a balance, or
/// the time of the last accrual.
pub open spec fn same_identity(a: Account, b: Account) -> bool {
    match (a, b) {
        (Account::State(x), Account::State(y)) => x == y,
        (Account::InterestDistributor(x), Account::InterestDistributor(y)) => x == y,
        (Account::SavingsManager(x), Account::SavingsManager(y)) => x.user == y.user && x.mint
            == y.mint && x.distributor == y.distributor && x.bump == y.bump,
        (Account::Token(x), Account::Token(y)) => x.mint == y.mint && x.owner == y.owner,
        _ => false,
    }
}

proof fn lemma_consistent_update(s: Accounts, key: Address, account: Account)
    requires
        consistent(s),
        s.dom().contains(key),
        same_identity(s[key], account),
    ensures
        consistent(s.insert(key, account)),
{
    let s2 = s.insert(key, account);
    assert forall|k: Address| #[trigger] s2.dom().contains(k) implies links_hold(s2, k, s2[k]) by {
        assert(s.dom().contains(k));
        assert(links_hold(s, k, s[k]));
        lemma_links_survive(s, s2, k, s[k]);
    }
}

proof fn lemma_consistent_insert(s: Accounts, key: Address, account: Account)
    requires
        consistent(s),
        !s.dom().contains(key),
        links_hold(s.insert(key, account), key, account),
    ensures
        consistent(s.insert(key, account)),
{
    let s2 = s.insert(key, account);
    assert forall|k: Address| #[trigger] s2.dom().contains(k) implies links_hold(s2, k, s2[k]) by {
        if k != key {
            assert(s.dom().contains(k));
            assert(links_hold(s, k, s[k]));
            lemma_links_survive(s, s2, k, s[k]);
        }
    }
}

/// References that are met stay met while accounts are only added or keep
/// their identity.
proof fn lemma_links_survive(s: Accounts, s2: Accounts, key: Address, account: Account)
    requires
        links_hold(s, key, account),
        forall|k: Address| #[trigger]
            s.dom().contains(k) ==> s2.dom().contains(k) && same_identity(s[k], s2[k]),
    ensures
        forall|other: Account| same_identity(account, other) ==> links_hold(s2, key, other),
{
    match account {
        Account::InterestDistributor(d) => {
            assert(s.dom().contains(d.state));
            let fund = associated_token_address(key, d.mint).unwrap();
            assert(s.dom().contains(fund));
        },
        Account::SavingsManager(m) => {
            assert(s.dom().contains(m.distributor));
            let fund = associated_token_address(key, m.mint).unwrap();
            assert(s.dom().contains(fund));
        },
        _ => {},
    }
}

impl View for Ledger {
    type V = Accounts;

    closed spec fn view(&self) -> Accounts {
        as_map(self.entries@)
    }
}

impl Ledger {
    /// The program under which the ledger's records are addressed.
    pub closed spec fn program(&self) -> Address {
        self.program_id
    }

    /// How much of an asset is in circulation: the sum of all balances of it.
    pub closed spec fn supply(&self, mint: Address) -> nat {
        total(self.entries@, mint)
    }

    /// The ledger's invariant: no address is used twice, every account is
    /// well placed, every record's references are met, and the circulation
    /// of each asset fits a balance.
    pub closed spec fn wf(&self) -> bool {
        &&& distinct(self.entries@)
        &&& consistent(as_map(self.entries@))
        &&& forall|i: int|
            0 <= i < self.entries@.len() ==> well_placed(
                self.program_id,
                #[trigger] self.entries@[i].key,
                self.entries@[i].account,
            )
        &&& forall|mint: Address| #[trigger] total(self.entries@, mint) <= u64::MAX
    }

    /// An empty ledger for the records of one program.
    pub fn new(program_id: Address) -> (r: Ledger)
        ensures
            r.wf(),
            r.program() == program_id,
            r@ == Map::<Address, Account>::empty(),
            forall|mint: Address| r.supply(mint) == 0,
    {
        let r = Ledger { program_id, entries: Vec::new() };
        assert(r@ =~= Map::<Address, Account>::empty());
        r
    }

    /// The program under which the ledger's records are addressed.
    pub fn program_id(&self) -> (r: Address)
        ensures
            r == self.program(),
    {
        self.program_id
    }

    fn find(&self, key: &Address) -> (r: Option<usize>)
        ensures
            r matches Some(i) ==> i < self.entries@.len() && self.entries@[i as int].key == *key,
            r is None ==> !has_key(self.entries@, *key),
    {
        let mut i: usize = 0;
        while i < self.entries.len()
            invariant
                i <= self.entries@.len(),
                forall|j: int| 0 <= j < i ==> self.entries@[j].key != *key,
            decreases self.entries@.len() - i,
        {
            if self.entries[i].key == *key {
                return Some(i);
            }
            i += 1;
        }
        None
    }

    /// The account at an address, if there is one.
    pub fn get(&self, key: &Address) -> (r: Option<Account>)
        requires
            self.wf(),
        ensures
            r == (if self@.dom().contains(*key) {
                Some(self@[*key])
            } else {
                None
            }),
    {
        match self.find(key) {
            Some(i) => {
                proof {
                    lemma_index(self.entries@, i as int);
                }
                Some(self.entries[i].account)
            },
            None => None,
        }
    }
    /// Puts an account that holds nothing at a free address.
    pub(crate) fn create(&mut self, key: Address, account: Account)
        requires
            old(self).wf(),
            !old(self)@.dom().contains(key),
            well_placed(old(self).program(), key, account),
            links_hold(old(self)@.insert(key, account), key, account),
            forall|mint: Address| share(account, mint) == 0,
        ensures
            final(self).wf(),
            final(self).program() == old(self).program(),
            final(self)@ == old(self)@.insert(key, account),
            forall|mint: Address| final(self).supply(mint) == old(self).supply(mint),
    {
        let entry = Entry { key, account };
        proof {
            lemma_push(self.entries@, entry);
            lemma_consistent_insert(self@, key, account);
            assert forall|mint: Address| #[trigger]
                total(self.entries@.push(entry), mint) == total(self.entries@, mint) by {
                lemma_total_push(self.entries@, entry, mint);
            }
        }
        self.entries.push(entry);
    }

    /// Replaces a record by another that holds no balance either.
    pub(crate) fn replace(&mut self, key: &Address, account: Account)
        requires
            old(self).wf(),
            old(self)@.dom().contains(*key),
            well_placed(old(self).program(), *key, account),
            same_identity(old(self)@[*key], account),
            !(account is Token),
        ensures
            final(self).wf(),
            final(self).program() == old(self).program(),
            final(self)@ == old(self)@.insert(*key, account),
            forall|mint: Address| final(self).supply(mint) == old(self).supply(mint),
    {
        let found = self.find(key);
        let i = found.unwrap();
        let entry = Entry { key: *key, account };
        proof {
            lemma_index(self.entries@, i as int);
            lemma_update(self.entries@, i as int, account);
            lemma_consistent_update(self@, *key, account);
            assert forall|mint: Address| #[trigger]
                total(self.entries@.update(i as int, entry), mint) == total(
                    self.entries@,
                    mint,
                ) by {
                lemma_total_update(self.entries@, i as int, entry, mint);
            }
        }
        self.entries.set(i, entry);
    }

    /// The transfer primitive, on a signature or by the program's seeds.
    fn move_funds(
        &mut self,
        from: &Address,
        to: &Address,
        authority: &Address,
        by_seeds: bool,
        amount: u64,
    ) -> (r: Result<(), SavingsError>)
        requires
            old(self).wf(),
        ensures
            final(self).wf(),
            final(self).program() == old(self).program(),
            forall|mint: Address| final(self).supply(mint) == old(self).supply(mint),
            match transfer_outcome(old(self)@, *from, *to, *authority, by_seeds, amount) {
                Ok(s) => r is Ok && final(self)@ == s,
                Err(e) => r == Err::<(), SavingsError>(e) && final(self)@ == old(self)@,
            },
            r is Ok && *from != *to ==> {
                &&& token_at(final(self)@, *from).unwrap().amount == token_at(
                    old(self)@,
                    *from,
                ).unwrap().amount - amount
                &&& token_at(final(self)@, *to).unwrap().amount == token_at(
                    old(self)@,
                    *to,
                ).unwrap().amount + amount
            },
    {
        let i = match self.find(from) {
            Some(i) => i,
            None => {
                return Err(SavingsError::InvalidAccount);
            },
        };
        let j = match self.find(to) {
            Some(j) => j,
            None => {
                return Err(SavingsError::InvalidAccount);
            },
        };
        proof {
            lemma_index(self.entries@, i as int);
            lemma_index(self.entries@, j as int);
        }
        let source = match self.entries[i].account {
            Account::Token(t) => t,
            _ => {
                return Err(SavingsError::InvalidAccount);
            },
        };
        let destination = match self.entries[j].account {
            Account::Token(t) => t,
            _ => {
                return Err(SavingsError::InvalidAccount);
            },
        };
        if source.amount < amount {
            return Err(SavingsError::InadequateFunds);
        }
        if !(source.mint == destination.mint) {
            return Err(SavingsError::InvalidAccount);
        }
        if !(source.owner == *authority) {
            return Err(SavingsError::Unauthorized);
        }
        if !by_seeds {
            match self.get(authority) {
                None => {},
                Some(Account::State(_)) => {},
                Some(_) => {
                    return Err(SavingsError::Unauthorized);
                },
            }
        }
        if i == j {
            return Ok(());
        }
        let ghost es0 = self.entries@;
        proof {
            lemma_total_covers_two(es0, i as int, j as int, source.mint);
        }
        let debited = Entry {
            key: *from,
            account: Account::Token(TokenAccount { amount: source.amount - amount, ..source }),
        };
        let credited = Entry {
            key: *to,
            account: Account::Token(
                TokenAccount { amount: destination.amount + amount, ..destination },
            ),
        };
        self.entries.set(i, debited);
        let ghost es1 = self.entries@;
        self.entries.set(j, credited);
        proof {
            let es2 = self.entries@;
            lemma_update(es0, i as int, debited.account);
            lemma_update(es1, j as int, credited.account);
            lemma_consistent_update(as_map(es0), *from, debited.account);
            lemma_consistent_update(as_map(es1), *to, credited.account);
            assert forall|mint: Address| #[trigger] total(es2, mint) == total(es0, mint) by {
                lemma_total_update(es0, i as int, debited, mint);
                lemma_total_update(es1, j as int, credited, mint);
            }
        }
        Ok(())
    }

    /// Moves `amount` from one fund account to another on the signature of
    /// `authority`. Nothing is created or lost: the circulation of every
    /// asset stays what it was, so the credit cannot overflow.
    pub fn transfer(&mut self, from: &Address, to: &Address, authority: &Address, amount: u64) -> (r:
        Result<(), SavingsError>)
        requires
            old(self).wf(),
        ensures
            final(self).wf(),
            final(self).program() == old(self).program(),
            forall|mint: Address| final(self).supply(mint) == old(self).supply(mint),
            match transfer_result(old(self)@, *from, *to, *authority, amount) {
                Ok(s) => r is Ok && final(self)@ == s,
                Err(e) => r == Err::<(), SavingsError>(e) && final(self)@ == old(self)@,
            },
            r is Ok && *from != *to ==> {
                &&& token_at(final(self)@, *from).unwrap().amount == token_at(
                    old(self)@,
                    *from,
                ).unwrap().amount - amount
                &&& token_at(final(self)@, *to).unwrap().amount == token_at(
                    old(self)@,
                    *to,
                ).unwrap().amount + amount
            },
    {
        self.move_funds(from, to, authority, false, amount)
    }

    /// Moves `amount` from one fund account to another on the authority of
    /// a record, for which the program signs by presenting the record's
    /// seeds. This is for the program's own entry points.
    pub(crate) fn transfer_signed(
        &mut self,
        from: &Address,
        to: &Address,
        seeds: &Vec<Vec<u8>>,
        amount: u64,
    ) -> (r: Result<(), SavingsError>)
        requires
            old(self).wf(),
        ensures
            final(self).wf(),
            final(self).program() == old(self).program(),
            forall|mint: Address| final(self).supply(mint) == old(self).supply(mint),
            match signed_transfer_result(
                old(self)@,
                old(self).program(),
                *from,
                *to,
                seeds_view(seeds@),
                amount,
            ) {
                Ok(s) => r is Ok && final(self)@ == s,
                Err(e) => r == Err::<(), SavingsError>(e) && final(self)@ == old(self)@,
            },
            r is Ok && *from != *to ==> {
                &&& token_at(final(self)@, *from).unwrap().amount == token_at(
                    old(self)@,
                    *from,
                ).unwrap().amount - amount
                &&& token_at(final(self)@, *to).unwrap().amount == token_at(
                    old(self)@,
                    *to,
                ).unwrap().amount + amount
            },
    {
        match program_signer(seeds, &self.program_id) {
            Some(authority) => self.move_funds(from, to, &authority, true, amount),
            None => Err(SavingsError::Unauthorized),
        }
    }

    /// How much of an asset is in circulation.
    pub fn circulation(&self, mint: &Address) -> (r: u64)
        requires
            self.wf(),
        ensures
            r == self.supply(*mint),
    {
        let mut sum: u64 = 0;
        let mut i: usize = 0;
        while i < self.entries.len()
            invariant
                i <= self.entries@.len(),
                sum == total(self.entries@.take(i as int), *mint),
                total(self.entries@, *mint) <= u64::MAX,
            decreases self.entries@.len() - i,
        {
            proof {
                lemma_total_prefix(self.entries@, i as int, *mint);
                lemma_total_prefix(self.entries@, i + 1, *mint);
            }
            match self.entries[i].account {
                Account::Token(t) => {
                    if t.mint == *mint {
                        sum = sum + t.amount;
                    }
                },
                _ => {},
            }
            i += 1;
        }
        assert(self.entries@.take(i as int) =~= self.entries@);
        sum
    }

    /// Opens the fund account of `owner` for the asset `mint`, with nothing
    /// in it, and returns its address.
    pub fn create_associated_token_account(&mut self, owner: &Address, mint: &Address) -> (r:
        Result<Address, SavingsError>)
        requires
            old(self).wf(),
        ensures
            final(self).wf(),
            final(self).program() == old(self).program(),
            forall|m: Address| final(self).supply(m) == old(self).supply(m),
            match open_fund_result(old(self)@, *owner, *mint) {
                Ok((key, s)) => r == Ok::<Address, SavingsError>(key) && final(self)@ == s,
                Err(e) => r == Err::<Address, SavingsError>(e) && final(self)@ == old(self)@,
            },
    {
        let key = match get_associated_token_address(owner, mint) {
            Some(key) => key,
            None => {
                return Err(SavingsError::InvalidAccount);
            },
        };
        if self.find(&key).is_some() {
            return Err(SavingsError::AccountInUse);
        }
        self.create(key, Account::Token(TokenAccount { mint: *mint, owner: *owner, amount: 0 }));
        Ok(key)
    }

    /// Issues `amount` of new funds into a fund account. This is how an asset
    /// comes into circulation; it is refused where the circulation would no
    /// longer fit a balance. Who may issue an asset is not the ledger's
    /// concern.
    pub fn mint_tokens(&mut self, account: &Address, amount: u64) -> (r: Result<(), SavingsError>)
        requires
            old(self).wf(),
        ensures
            final(self).wf(),
            final(self).program() == old(self).program(),
            match token_at(old(self)@, *account) {
                None => r == Err::<(), SavingsError>(SavingsError::InvalidAccount),
                Some(t) => if old(self).supply(t.mint) + amount > u64::MAX {
                    r == Err::<(), SavingsError>(SavingsError::Overflow)
                } else {
                    &&& r is Ok
                    &&& final(self)@ == old(self)@.insert(
                        *account,
                        Account::Token(TokenAccount { amount: (t.amount + amount) as u64, ..t }),
                    )
                    &&& t.amount + amount <= u64::MAX
                    &&& forall|m: Address|
                        final(self).supply(m) == old(self).supply(m) + (if m == t.mint {
                            amount as nat
                        } else {
                            0
                        })
                },
            },
            r is Err ==> final(self)@ == old(self)@ && forall|m: Address|
                final(self).supply(m) == old(self).supply(m),
    {
        let i = match self.find(account) {
            Some(i) => i,
            None => {
                return Err(SavingsError::InvalidAccount);
            },
        };
        proof {
            lemma_index(self.entries@, i as int);
        }
        let held = match self.entries[i].account {
            Account::Token(t) => t,
            _ => {
                return Err(SavingsError::InvalidAccount);
            },
        };
        let circulating = self.circulation(&held.mint);
        if amount > u64::MAX - circulating {
            return Err(SavingsError::Overflow);
        }
        let ghost es0 = self.entries@;
        proof {
            lemma_total_covers_one(es0, i as int, held.mint);
        }
        let credited = Entry {
            key: *account,
            account: Account::Token(TokenAccount { amount: held.amount + amount, ..held }),
        };
        self.entries.set(i, credited);
        proof {
            lemma_update(es0, i as int, credited.account);
            lemma_consistent_update(as_map(es0), *account, credited.account);
            assert forall|m: Address| #[trigger]
                total(self.entries@, m) == total(es0, m) + (if m == held.mint {
                    amount as nat
                } else {
                    0
                }) by {
                lemma_total_update(es0, i as int, credited, m);
            }
        }
        Ok(())
    }

    /// No account holds more of an asset than is in circulation, and neither
    /// do any two accounts together.
    pub proof fn lemma_balances_within_supply(&self, a: Address, b: Address)
        requires
            self.wf(),
            self@.dom().contains(a),
            self@.dom().contains(b),
            a != b,
        ensures
            forall|mint: Address|
                share(self@[a], mint) + share(self@[b], mint) <= #[trigger] self.supply(mint),
            forall|mint: Address| #[trigger] self.supply(mint) <= u64::MAX,
    {
        let i = index_of(self.entries@, a);
        let j = index_of(self.entries@, b);
        lemma_index(self.entries@, i);
        lemma_index(self.entries@, j);
        assert forall|mint: Address|
            share(self@[a], mint) + share(self@[b], mint) <= #[trigger] self.supply(mint) by {
            lemma_total_covers_two(self.entries@, i, j, mint);
        }
    }
    /// The pool state at an address, if that is what the address holds.
    pub fn state(&self, key: &Address) -> (r: Option<State>)
        requires
            self.wf(),
        ensures
            r == state_at(self@, *key),
    {
        match self.get(key) {
            Some(Account::State(record)) => Some(record),
            _ => None,
        }
    }

    /// The interest pool at an address, if that is what the address holds.
    pub fn distributor(&self, key: &Address) -> (r: Option<InterestDistributor>)
        requires
            self.wf(),
        ensures
            r == distributor_at(self@, *key),
    {
        match self.get(key) {
            Some(Account::InterestDistributor(record)) => Some(record),
            _ => None,
        }
    }

    /// The vault record at an address, if that is what the address holds.
    pub fn manager(&self, key: &Address) -> (r: Option<SavingsManager>)
        requires
            self.wf(),
        ensures
            r == manager_at(self@, *key),
    {
        match self.get(key) {
            Some(Account::SavingsManager(record)) => Some(record),
            _ => None,
        }
    }

    /// The fund account at an address, if that is what the address holds.
    pub fn token(&self, key: &Address) -> (r: Option<TokenAccount>)
        requires
            self.wf(),
        ensures
            r == token_at(self@, *key),
    {
        match self.get(key) {
            Some(Account::Token(record)) => Some(record),
            _ => None,
        }
    }

    /// The fund account at `fund`, provided it is the one of `owner` for
    /// `mint`.
    pub fn fund_of(&self, fund: &Address, owner: &Address, mint: &Address) -> (r: Option<
        TokenAccount,
    >)
        requires
            self.wf(),
        ensures
            r is Some <==> is_fund_of(self@, *fund, *owner, *mint),
            r is Some ==> r == token_at(self@, *fund),
    {
        match get_associated_token_address(owner, mint) {
            Some(expected) => {
                if !(expected == *fund) {
                    return None;
                }
            },
            None => {
                return None;
            },
        }
        match self.token(fund) {
            Some(t) => {
                if t.owner == *owner && t.mint == *mint {
                    Some(t)
                } else {
                    None
                }
            },
            None => None,
        }
    }

    /// A copy of the ledger, on which a request can be tried out.
    pub fn duplicate(&self) -> (r: Ledger)
        ensures
            r@ == self@,
            r.program() == self.program(),
            r.wf() == self.wf(),
            forall|mint: Address| r.supply(mint) == self.supply(mint),
    {
        let mut entries: Vec<Entry> = Vec::new();
        let mut i: usize = 0;
        while i < self.entries.len()
            invariant
                i <= self.entries@.len(),
                entries@ == self.entries@.take(i as int),
            decreases self.entries@.len() - i,
        {
            entries.push(self.entries[i]);
            assert(self.entries@.take(i + 1) =~= self.entries@.take(i as int).push(
                self.entries@[i as int],
            ));
            i += 1;
        }
        assert(self.entries@.take(i as int) =~= self.entries@);
        Ledger { program_id: self.program_id, entries }
    }

    /// Every account of a ledger is well placed, and what it refers to is
    /// in the ledger too.
    pub proof fn lemma_well_placed(&self, key: Address)
        requires
            self.wf(),
            self@.dom().contains(key),
        ensures
            well_placed(self.program(), key, self@[key]),
            links_hold(self@, key, self@[key]),
            consistent(self@),
    {
        let i = index_of(self.entries@, key);
        lemma_index(self.entries@, i);
    }
    /// Records are unique by what they belong to: there is at most one
    /// interest pool per state and asset, one vault record per user and
    /// interest pool, and one fund account per authority and asset.
    pub proof fn lemma_one_record_per_pair(&self, a: Address, b: Address)
        requires
            self.wf(),
        ensures
            distributor_at(self@, a) matches Some(x) && distributor_at(self@, b) matches Some(y)
                && x.state == y.state && x.mint == y.mint ==> a == b,
            manager_at(self@, a) matches Some(x) && manager_at(self@, b) matches Some(y) && x.user
                == y.user && x.distributor == y.distributor ==> a == b,
            token_at(self@, a) matches Some(x) && token_at(self@, b) matches Some(y) && x.owner
                == y.owner && x.mint == y.mint ==> a == b,
    {
        if self@.dom().contains(a) && self@.dom().contains(b) {
            self.lemma_well_placed(a);
            self.lemma_well_placed(b);
        }
    }
}

} // verus!
