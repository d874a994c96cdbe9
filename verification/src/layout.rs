//! How records are laid out in bytes: a tag of eight bytes that tells the
//! kind of record, then the fields in the order in which they are declared,
//! each at a fixed width. An identity takes 32 bytes, a timestamp eight
//! (little-endian, two's complement), a nonce one.

use crate::address::{lemma_address_of_bytes, lemma_address_of_view, Address};
use crate::state::{InterestDistributor, SavingsManager, State};
use vstd::bytes::{
    lemma_auto_spec_u64_to_from_le_bytes, spec_u64_from_le_bytes, spec_u64_to_le_bytes,
    u64_from_le_bytes, u64_to_le_bytes,
};
use vstd::prelude::*;
use vstd::slice::slice_subrange;

verus! {

/// Tag of a pool state.
pub const STATE_DISCRIMINATOR: [u8; 8] = [216, 146, 107, 94, 104, 75, 182, 177];

/// Tag of an interest pool.
pub const INTEREST_DISTRIBUTOR_DISCRIMINATOR: [u8; 8] = [14, 254, 252, 133, 17, 142, 35, 61];

/// Tag of a vault record.
pub const SAVINGS_MANAGER_DISCRIMINATOR: [u8; 8] = [129, 222, 33, 73, 73, 131, 81, 99];

/// The eight bytes of a timestamp.
pub open spec fn timestamp_bytes(ts: i64) -> Seq<u8> {
    spec_u64_to_le_bytes(ts as u64)
}

/// The timestamp that eight bytes stand for.
pub open spec fn timestamp_of(bytes: Seq<u8>) -> i64 {
    spec_u64_from_le_bytes(bytes) as i64
}

/// Every timestamp has eight bytes, and they stand for it.
pub proof fn lemma_timestamp_bytes(ts: i64)
    ensures
        timestamp_bytes(ts).len() == 8,
        timestamp_of(timestamp_bytes(ts)) == ts,
{
    lemma_auto_spec_u64_to_from_le_bytes();
    assert((ts as u64) as i64 == ts) by (bit_vector);
}

fn put(out: &mut Vec<u8>, bytes: &[u8])
    ensures
        final(out)@ == old(out)@ + bytes@,
{
    let mut i: usize = 0;
    while i < bytes.len()
        invariant
            i <= bytes@.len(),
            out@ == old(out)@ + bytes@.take(i as int),
        decreases bytes@.len() - i,
    {
        out.push(bytes[i]);
        assert(bytes@.take(i + 1) =~= bytes@.take(i as int).push(bytes@[i as int]));
        i += 1;
    }
    assert(bytes@.take(i as int) =~= bytes@);
}

fn address_at(data: &[u8], at: usize) -> (r: Address)
    requires
        at + 32 <= data@.len(),
    ensures
        r@ == data@.subrange(at as int, at + 32),
        r == Address::of(data@.subrange(at as int, at + 32)),
{
    let mut bytes: [u8; 32] = [0; 32];
    let n = data.len();
    let mut i: usize = 0;
    while i < 32
        invariant
            i <= 32,
            n == data@.len(),
            at + 32 <= n,
            forall|j: int| 0 <= j < i ==> bytes@[j] == data@[at + j],
        decreases 32 - i,
    {
        bytes[i] = data[at + i];
        i += 1;
    }
    let r = Address { bytes };
    proof {
        assert(r@ =~= data@.subrange(at as int, at + 32));
        lemma_address_of_view(r);
    }
    r
}

fn has_tag(data: &[u8], tag: &[u8; 8]) -> (r: bool)
    requires
        data@.len() >= 8,
    ensures
        r == (data@.subrange(0, 8) == tag@),
{
    let mut i: usize = 0;
    while i < 8
        invariant
            i <= 8,
            data@.len() >= 8,
            forall|j: int| 0 <= j < i ==> data@[j] == tag@[j],
        decreases 8 - i,
    {
        if data[i] != tag[i] {
            assert(data@.subrange(0, 8)[i as int] != tag@[i as int]);
            return false;
        }
        i += 1;
    }
    assert(data@.subrange(0, 8) =~= tag@);
    true
}

impl State {
    /// The bytes a pool state takes.
    pub const SPACE: usize = 8 + 32;

    /// The bytes of a pool state.
    pub open spec fn encoded(self) -> Seq<u8> {
        STATE_DISCRIMINATOR@ + self.authority@
    }

    /// The pool state that bytes hold, if they start with one.
    pub open spec fn decoded(data: Seq<u8>) -> Option<State> {
        if data.len() >= State::SPACE && data.subrange(0, 8) == STATE_DISCRIMINATOR@ {
            Some(State { authority: Address::of(data.subrange(8, 40)) })
        } else {
            None
        }
    }

    /// Writes the record out.
    pub fn try_serialize(&self) -> (r: Vec<u8>)
        ensures
            r@ == self.encoded(),
            r@.len() == State::SPACE,
    {
        let mut out: Vec<u8> = Vec::new();
        put(&mut out, STATE_DISCRIMINATOR.as_slice());
        put(&mut out, self.authority.bytes.as_slice());
        out
    }

    /// Reads a pool state from the start of `data`. Bytes that are too few
    /// or start with another tag hold none.
    pub fn try_deserialize(data: &[u8]) -> (r: Option<State>)
        ensures
            r == State::decoded(data@),
    {
        if data.len() < State::SPACE || !has_tag(data, &STATE_DISCRIMINATOR) {
            return None;
        }
        Some(State { authority: address_at(data, 8) })
    }
}

impl InterestDistributor {
    /// The bytes an interest pool takes.
    pub const SPACE: usize = 8 + 32 + 32 + 1;

    /// The bytes of an interest pool.
    pub open spec fn encoded(self) -> Seq<u8> {
        INTEREST_DISTRIBUTOR_DISCRIMINATOR@ + self.state@ + self.mint@ + seq![self.bump]
    }

    /// The interest pool that bytes hold, if they start with one.
    pub open spec fn decoded(data: Seq<u8>) -> Option<InterestDistributor> {
        if data.len() >= InterestDistributor::SPACE && data.subrange(0, 8)
            == INTEREST_DISTRIBUTOR_DISCRIMINATOR@ {
            Some(
                InterestDistributor {
                    state: Address::of(data.subrange(8, 40)),
                    mint: Address::of(data.subrange(40, 72)),
                    bump: data[72],
                },
            )
        } else {
            None
        }
    }

    /// Writes the record out.
    pub fn try_serialize(&self) -> (r: Vec<u8>)
        ensures
            r@ == self.encoded(),
            r@.len() == InterestDistributor::SPACE,
    {
        let mut out: Vec<u8> = Vec::new();
        put(&mut out, INTEREST_DISTRIBUTOR_DISCRIMINATOR.as_slice());
        put(&mut out, self.state.bytes.as_slice());
        put(&mut out, self.mint.bytes.as_slice());
        out.push(self.bump);
        assert(out@ =~= self.encoded());
        out
    }

    /// Reads an interest pool from the start of `data`. Bytes that are too
    /// few or start with another tag hold none.
    pub fn try_deserialize(data: &[u8]) -> (r: Option<InterestDistributor>)
        ensures
            r == InterestDistributor::decoded(data@),
    {
        if data.len() < InterestDistributor::SPACE || !has_tag(
            data,
            &INTEREST_DISTRIBUTOR_DISCRIMINATOR,
        ) {
            return None;
        }
        Some(
            InterestDistributor {
                state: address_at(data, 8),
                mint: address_at(data, 40),
                bump: data[72],
            },
        )
    }
}

impl SavingsManager {
    /// The bytes a vault record takes.
    pub const SPACE: usize = 8 + 32 + 32 + 32 + 8 + 1;

    /// The bytes of a vault record.
    pub open spec fn encoded(self) -> Seq<u8> {
        SAVINGS_MANAGER_DISCRIMINATOR@ + self.user@ + self.mint@ + self.distributor@
            + timestamp_bytes(self.last_interest_deposit_ts) + seq![self.bump]
    }

    /// The vault record that bytes hold, if they start with one.
    pub open spec fn decoded(data: Seq<u8>) -> Option<SavingsManager> {
        if data.len() >= SavingsManager::SPACE && data.subrange(0, 8)
            == SAVINGS_MANAGER_DISCRIMINATOR@ {
            Some(
                SavingsManager {
                    user: Address::of(data.subrange(8, 40)),
                    mint: Address::of(data.subrange(40, 72)),
                    distributor: Address::of(data.subrange(72, 104)),
                    last_interest_deposit_ts: timestamp_of(data.subrange(104, 112)),
                    bump: data[112],
                },
            )
        } else {
            None
        }
    }

    /// Writes the record out.
    pub fn try_serialize(&self) -> (r: Vec<u8>)
        ensures
            r@ == self.encoded(),
            r@.len() == SavingsManager::SPACE,
    {
        let mut out: Vec<u8> = Vec::new();
        put(&mut out, SAVINGS_MANAGER_DISCRIMINATOR.as_slice());
        put(&mut out, self.user.bytes.as_slice());
        put(&mut out, self.mint.bytes.as_slice());
        put(&mut out, self.distributor.bytes.as_slice());
        let ts = u64_to_le_bytes(self.last_interest_deposit_ts as u64);
        put(&mut out, ts.as_slice());
        out.push(self.bump);
        assert(out@ =~= self.encoded());
        out
    }

    /// Reads a vault record from the start of `data`. Bytes that are too
    /// few or start with another tag hold none.
    pub fn try_deserialize(data: &[u8]) -> (r: Option<SavingsManager>)
        ensures
            r == SavingsManager::decoded(data@),
    {
        if data.len() < SavingsManager::SPACE || !has_tag(data, &SAVINGS_MANAGER_DISCRIMINATOR) {
            return None;
        }
        let ts = u64_from_le_bytes(slice_subrange(data, 104, 112));
        Some(
            SavingsManager {
                user: address_at(data, 8),
                mint: address_at(data, 40),
                distributor: address_at(data, 72),
                last_interest_deposit_ts: ts as i64,
                bump: data[112],
            },
        )
    }
}

/// What was written is what is read, whatever follows it.
pub proof fn lemma_state_round_trip(record: State, rest: Seq<u8>)
    ensures
        record.encoded().len() == State::SPACE,
        State::decoded(record.encoded() + rest) == Some(record),
{
    let data = record.encoded() + rest;
    assert(data.subrange(0, 8) =~= STATE_DISCRIMINATOR@);
    assert(data.subrange(8, 40) =~= record.authority@);
    lemma_address_of_view(record.authority);
}

/// Bytes that are read as a pool state start with that state's bytes.
pub proof fn lemma_state_bytes(data: Seq<u8>)
    requires
        State::decoded(data) is Some,
    ensures
        data.take(State::SPACE as int) == State::decoded(data).unwrap().encoded(),
{
    lemma_address_of_bytes(data.subrange(8, 40));
    assert(data.take(40) =~= State::decoded(data).unwrap().encoded());
}

/// What was written is what is read, whatever follows it.
pub proof fn lemma_interest_distributor_round_trip(record: InterestDistributor, rest: Seq<u8>)
    ensures
        record.encoded().len() == InterestDistributor::SPACE,
        InterestDistributor::decoded(record.encoded() + rest) == Some(record),
{
    let data = record.encoded() + rest;
    assert(data.subrange(0, 8) =~= INTEREST_DISTRIBUTOR_DISCRIMINATOR@);
    assert(data.subrange(8, 40) =~= record.state@);
    assert(data.subrange(40, 72) =~= record.mint@);
    lemma_address_of_view(record.state);
    lemma_address_of_view(record.mint);
}

/// Bytes that are read as an interest pool start with that pool's bytes.
pub proof fn lemma_interest_distributor_bytes(data: Seq<u8>)
    requires
        InterestDistributor::decoded(data) is Some,
    ensures
        data.take(InterestDistributor::SPACE as int) == InterestDistributor::decoded(
            data,
        ).unwrap().encoded(),
{
    lemma_address_of_bytes(data.subrange(8, 40));
    lemma_address_of_bytes(data.subrange(40, 72));
    assert(data.take(73) =~= InterestDistributor::decoded(data).unwrap().encoded());
}

/// What was written is what is read, whatever follows it.
pub proof fn lemma_savings_manager_round_trip(record: SavingsManager, rest: Seq<u8>)
    ensures
        record.encoded().len() == SavingsManager::SPACE,
        SavingsManager::decoded(record.encoded() + rest) == Some(record),
{
    let data = record.encoded() + rest;
    lemma_timestamp_bytes(record.last_interest_deposit_ts);
    assert(data.subrange(0, 8) =~= SAVINGS_MANAGER_DISCRIMINATOR@);
    assert(data.subrange(8, 40) =~= record.user@);
    assert(data.subrange(40, 72) =~= record.mint@);
    assert(data.subrange(72, 104) =~= record.distributor@);
    assert(data.subrange(104, 112) =~= timestamp_bytes(record.last_interest_deposit_ts));
    lemma_address_of_view(record.user);
    lemma_address_of_view(record.mint);
    lemma_address_of_view(record.distributor);
}

/// Bytes that are read as a vault record start with that record's bytes.
pub proof fn lemma_savings_manager_bytes(data: Seq<u8>)
    requires
        SavingsManager::decoded(data) is Some,
    ensures
        data.take(SavingsManager::SPACE as int) == SavingsManager::decoded(
            data,
        ).unwrap().encoded(),
{
    lemma_address_of_bytes(data.subrange(8, 40));
    lemma_address_of_bytes(data.subrange(40, 72));
    lemma_address_of_bytes(data.subrange(72, 104));
    lemma_auto_spec_u64_to_from_le_bytes();
    let raw = spec_u64_from_le_bytes(data.subrange(104, 112));
    assert(((raw as i64) as u64) == raw) by (bit_vector);
    assert(data.take(113) =~= SavingsManager::decoded(data).unwrap().encoded());
}

} // verus!
