//! Authority by derivation. The fund account of an interest pool or of a
//! vault is under the authority of the pool's or vault's own record, which
//! holds no key: the program signs for the record by presenting the seeds
//! from which the record's address derives, together with the stored nonce.

use crate::address::{
    interest_distributor_seeds, savings_manager_seeds, seeds_view,
    INTEREST_DISTRIBUTOR_SEED_PREFIX, SAVINGS_MANAGER_SEED_PREFIX,
};
use crate::state::{InterestDistributor, SavingsManager};
use vstd::prelude::*;
use vstd::slice::slice_to_vec;

verus! {

/// The seeds by which an interest pool signs: its tag, state and asset,
/// then its nonce.
pub open spec fn distributor_signer_seeds(record: InterestDistributor) -> Seq<Seq<u8>> {
    interest_distributor_seeds(record.state, record.mint, record.bump)
}

/// The seeds by which a vault record signs: its tag, user and interest
/// pool, then its nonce.
pub open spec fn manager_signer_seeds(record: SavingsManager) -> Seq<Seq<u8>> {
    savings_manager_seeds(record.user, record.distributor, record.bump)
}

fn nonce(bump: u8) -> (r: Vec<u8>)
    ensures
        r@ == seq![bump],
{
    let mut out: Vec<u8> = Vec::new();
    out.push(bump);
    out
}

impl InterestDistributor {
    /// The seeds to present when this pool moves funds out of its account.
    pub fn signer_seeds(&self) -> (r: Vec<Vec<u8>>)
        ensures
            seeds_view(r@) == distributor_signer_seeds(*self),
    {
        let mut seeds: Vec<Vec<u8>> = Vec::new();
        seeds.push(slice_to_vec(INTEREST_DISTRIBUTOR_SEED_PREFIX.as_slice()));
        seeds.push(slice_to_vec(self.state.bytes.as_slice()));
        seeds.push(slice_to_vec(self.mint.bytes.as_slice()));
        seeds.push(nonce(self.bump));
        assert(seeds_view(seeds@) =~= distributor_signer_seeds(*self));
        seeds
    }
}

impl SavingsManager {
    /// The seeds to present when this vault moves funds out of its account.
    pub fn signer_seeds(&self) -> (r: Vec<Vec<u8>>)
        ensures
            seeds_view(r@) == manager_signer_seeds(*self),
    {
        let mut seeds: Vec<Vec<u8>> = Vec::new();
        seeds.push(slice_to_vec(SAVINGS_MANAGER_SEED_PREFIX.as_slice()));
        seeds.push(slice_to_vec(self.user.bytes.as_slice()));
        seeds.push(slice_to_vec(self.distributor.bytes.as_slice()));
        seeds.push(nonce(self.bump));
        assert(seeds_view(seeds@) =~= manager_signer_seeds(*self));
        seeds
    }
}

} // verus!
