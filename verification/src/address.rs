//! Identities and deterministic address derivation.
//!
//! Every record of the ledger lives at an address that is derived from a
//! fixed tag and the identities the record belongs to. Callers recompute
//! these addresses on their own, so the seeds and their order are part of the
//! interface.

use anchor_lang::prelude::Pubkey;
use vstd::prelude::*;
use vstd::std_specs::cmp::PartialEqSpecImpl;

verus! {

/// The address under which the savings program is deployed.
pub const ID: [u8; 32] = [
    156, 148, 57, 239, 227, 158, 29, 210, 14, 69, 250, 23, 70, 57, 162, 38,
    237, 157, 180, 159, 154, 195, 39, 197, 209, 75, 253, 245, 24, 168, 160, 226,
];

/// The token program, which owns every fund account.
pub const TOKEN_PROGRAM_ID: [u8; 32] = [
    6, 221, 246, 225, 215, 101, 161, 147, 217, 203, 225, 70, 206, 235, 121, 172,
    28, 180, 133, 237, 95, 91, 55, 145, 58, 140, 245, 133, 126, 255, 0, 169,
];

/// The program under which fund accounts are addressed.
pub const ASSOCIATED_TOKEN_PROGRAM_ID: [u8; 32] = [
    140, 151, 37, 143, 78, 36, 137, 241, 187, 61, 16, 41, 20, 142, 13, 131,
    11, 90, 19, 153, 218, 255, 16, 132, 4, 142, 123, 216, 219, 233, 248, 89,
];

/// Tag of a vault record's address: the text `savings-manager`.
pub const SAVINGS_MANAGER_SEED_PREFIX: [u8; 15] = [
    115, 97, 118, 105, 110, 103, 115, 45, 109, 97, 110, 97, 103, 101, 114,
];

/// Tag of an interest pool's address: the text `interest-distributor`.
pub const INTEREST_DISTRIBUTOR_SEED_PREFIX: [u8; 20] = [
    105, 110, 116, 101, 114, 101, 115, 116, 45, 100,
    105, 115, 116, 114, 105, 98, 117, 116, 111, 114,
];

/// A 32-byte identity: a user, an asset, a program, or the address of a record.
#[derive(Clone, Copy, Debug)]
pub struct Address {
    pub bytes: [u8; 32],
}

impl View for Address {
    type V = Seq<u8>;

    open spec fn view(&self) -> Seq<u8> {
        self.bytes@
    }
}

impl PartialEq for Address {
    fn eq(&self, other: &Address) -> (r: bool) {
        let mut i: usize = 0;
        while i < 32
            invariant
                i <= 32,
                forall|j: int| 0 <= j < i ==> self.bytes[j] == other.bytes[j],
            decreases 32 - i,
        {
            if self.bytes[i] != other.bytes[i] {
                return false;
            }
            i += 1;
        }
        assert(self.bytes =~= other.bytes);
        true
    }
}

impl Eq for Address {}

impl PartialEqSpecImpl for Address {
    open spec fn obeys_eq_spec() -> bool {
        true
    }

    open spec fn eq_spec(&self, other: &Address) -> bool {
        *self == *other
    }
}

impl Address {
    /// The address that holds exactly these bytes.
    pub open spec fn of(bytes: Seq<u8>) -> Address {
        choose|a: Address| a@ == bytes
    }

    /// The address with these bytes.
    pub fn new(bytes: [u8; 32]) -> (r: Address)
        ensures
            r.bytes == bytes,
    {
        Address { bytes }
    }

    /// The bytes of the address.
    pub fn to_bytes(&self) -> (r: [u8; 32])
        ensures
            r == self.bytes,
    {
        self.bytes
    }
}

/// Two addresses are equal exactly when they hold the same bytes.
pub proof fn lemma_address_eq(a: Address, b: Address)
    ensures
        (a == b) <==> (a@ == b@),
{
    if a@ == b@ {
        assert(a.bytes =~= b.bytes);
    }
}

/// An address is determined by its bytes.
pub proof fn lemma_address_of_view(a: Address)
    ensures
        Address::of(a@) == a,
        a@.len() == 32,
{
    lemma_address_eq(Address::of(a@), a);
}

spec fn array_with(bytes: Seq<u8>, k: nat) -> [u8; 32]
    decreases k,
{
    if k == 0 {
        arbitrary()
    } else {
        vstd::array::spec_array_update(array_with(bytes, (k - 1) as nat), k - 1, bytes[k - 1])
    }
}

proof fn lemma_array_with(bytes: Seq<u8>, k: nat)
    requires
        bytes.len() == 32,
        k <= 32,
    ensures
        forall|j: int| 0 <= j < k ==> array_with(bytes, k)@[j] == bytes[j],
    decreases k,
{
    if k > 0 {
        lemma_array_with(bytes, (k - 1) as nat);
    }
}

/// Any 32 bytes are the bytes of an address.
pub proof fn lemma_address_of_bytes(bytes: Seq<u8>)
    requires
        bytes.len() == 32,
    ensures
        Address::of(bytes)@ == bytes,
{
    lemma_array_with(bytes, 32);
    let a = Address { bytes: array_with(bytes, 32) };
    assert(a@ =~= bytes);
}

/// The address of the savings program.
pub fn id() -> (r: Address)
    ensures
        r.bytes == ID,
{
    Address { bytes: ID }
}

/// The address of the token program.
pub fn token_program_id() -> (r: Address)
    ensures
        r.bytes == TOKEN_PROGRAM_ID,
{
    Address { bytes: TOKEN_PROGRAM_ID }
}

/// The program address and bump seed that `Pubkey::try_find_program_address`
/// yields for a list of seeds under a program, each taken by its bytes; `None`
/// where it finds no address.
pub uninterp spec fn program_address(seeds: Seq<Seq<u8>>, program: Seq<u8>) -> Option<(Seq<u8>, u8)>;

/// The address that `Pubkey::create_program_address` yields for a list of
/// seeds under a program, each taken by its bytes; `None` where it yields an
/// error.
pub uninterp spec fn created_address(seeds: Seq<Seq<u8>>, program: Seq<u8>) -> Option<Seq<u8>>;

/// What a list of seeds holds.
pub open spec fn seeds_view(seeds: Seq<Vec<u8>>) -> Seq<Seq<u8>> {
    Seq::new(seeds.len(), |i: int| seeds[i]@)
}

/// Calls `Pubkey::try_find_program_address` with three seeds. The contract
/// claims that the outcome is the one the function yields for these bytes:
/// it is computed from the arguments alone and the call does not panic,
/// whatever the seeds' lengths. It also claims what the function is
/// documented to be for: the address it finds is the one that
/// `Pubkey::create_program_address` yields for the same seeds followed by
/// the bump seed.
#[verifier::external_body]
fn try_find_program_address(s0: &[u8], s1: &[u8], s2: &[u8], program: &Address) -> (r: Option<
    (Address, u8),
>)
    ensures
        r matches Some((a, bump)) ==> program_address(seq![s0@, s1@, s2@], program@) == Some(
            (a@, bump),
        ),
        r matches Some((a, bump)) ==> created_address(
            seq![s0@, s1@, s2@, seq![bump]],
            program@,
        ) == Some(a@),
        r is None ==> program_address(seq![s0@, s1@, s2@], program@) is None,
{
    let program_id = Pubkey::new_from_array(program.bytes);
    match Pubkey::try_find_program_address(&[s0, s1, s2], &program_id) {
        Some((key, bump)) => Some((Address { bytes: key.to_bytes() }, bump)),
        None => None,
    }
}

/// Calls `Pubkey::create_program_address`. The contract claims only that
/// the outcome is the one the function yields for these bytes, an error
/// taken as `None`: it is computed from the arguments alone and the call
/// does not panic, whatever the seeds.
#[verifier::external_body]
fn try_create_program_address(seeds: &Vec<Vec<u8>>, program: &Address) -> (r: Option<Address>)
    ensures
        r matches Some(a) ==> created_address(seeds_view(seeds@), program@) == Some(a@),
        r is None ==> created_address(seeds_view(seeds@), program@) is None,
{
    let slices: Vec<&[u8]> = seeds.iter().map(|seed| seed.as_slice()).collect();
    match Pubkey::create_program_address(&slices, &Pubkey::new_from_array(program.bytes)) {
        Ok(key) => Some(Address { bytes: key.to_bytes() }),
        Err(_) => None,
    }
}

/// The address and nonce derived from three seeds under a program.
pub open spec fn derived(s0: Seq<u8>, s1: Seq<u8>, s2: Seq<u8>, program: Address) -> Option<
    (Address, u8),
> {
    match program_address(seq![s0, s1, s2], program@) {
        Some((bytes, bump)) => Some((Address::of(bytes), bump)),
        None => None,
    }
}

/// The address for which a program signs when it presents these seeds, the
/// nonce last; `None` where the seeds are no one's.
pub open spec fn signer_of(seeds: Seq<Seq<u8>>, program: Address) -> Option<Address> {
    match created_address(seeds, program@) {
        Some(bytes) => Some(Address::of(bytes)),
        None => None,
    }
}

/// Derives the address and nonce for three seeds under a program. The
/// program signs for that address by the three seeds and the nonce.
pub fn find_program_address(s0: &[u8], s1: &[u8], s2: &[u8], program: &Address) -> (r: Option<
    (Address, u8),
>)
    ensures
        r == derived(s0@, s1@, s2@, *program),
        r matches Some((a, bump)) ==> signer_of(seq![s0@, s1@, s2@, seq![bump]], *program)
            == Some(a),
{
    let r = try_find_program_address(s0, s1, s2, program);
    proof {
        if let Some((a, _)) = r {
            lemma_address_of_view(a);
        }
    }
    r
}

/// Works out the address for which a program signs by these seeds.
pub fn program_signer(seeds: &Vec<Vec<u8>>, program: &Address) -> (r: Option<Address>)
    ensures
        r == signer_of(seeds_view(seeds@), *program),
{
    let r = try_create_program_address(seeds, program);
    proof {
        if let Some(a) = r {
            lemma_address_of_view(a);
        }
    }
    r
}

/// The seeds by which the interest pool of a state and an asset signs.
pub open spec fn interest_distributor_seeds(state: Address, mint: Address, bump: u8) -> Seq<Seq<u8>> {
    seq![INTEREST_DISTRIBUTOR_SEED_PREFIX@, state@, mint@, seq![bump]]
}

/// The seeds by which the vault record of a user and an interest pool
/// signs.
pub open spec fn savings_manager_seeds(user: Address, distributor: Address, bump: u8) -> Seq<Seq<u8>> {
    seq![SAVINGS_MANAGER_SEED_PREFIX@, user@, distributor@, seq![bump]]
}

/// Address and nonce of the interest pool of a (state, asset) pair.
pub open spec fn interest_distributor_pda(program: Address, state: Address, mint: Address) -> Option<
    (Address, u8),
> {
    derived(INTEREST_DISTRIBUTOR_SEED_PREFIX@, state@, mint@, program)
}

/// Address and nonce of the vault record of a (user, interest pool) pair.
pub open spec fn savings_manager_pda(program: Address, user: Address, distributor: Address) -> Option<
    (Address, u8),
> {
    derived(SAVINGS_MANAGER_SEED_PREFIX@, user@, distributor@, program)
}

/// Address of the fund account that holds an asset on behalf of an owner.
pub open spec fn associated_token_address(owner: Address, mint: Address) -> Option<Address> {
    match derived(
        owner@,
        TOKEN_PROGRAM_ID@,
        mint@,
        Address { bytes: ASSOCIATED_TOKEN_PROGRAM_ID },
    ) {
        Some((address, _)) => Some(address),
        None => None,
    }
}

/// Derives the address and nonce of the interest pool of a state and an
/// asset.
pub fn derive_interest_distributor_pda(program: &Address, state: &Address, mint: &Address) -> (r:
    Option<(Address, u8)>)
    ensures
        r == interest_distributor_pda(*program, *state, *mint),
        r matches Some((a, bump)) ==> signer_of(
            interest_distributor_seeds(*state, *mint, bump),
            *program,
        ) == Some(a),
{
    find_program_address(
        INTEREST_DISTRIBUTOR_SEED_PREFIX.as_slice(),
        state.bytes.as_slice(),
        mint.bytes.as_slice(),
        program,
    )
}

/// Derives the address and nonce of the vault record of a user and an
/// interest pool.
pub fn derive_savings_manager_pda(program: &Address, user: &Address, distributor: &Address) -> (r:
    Option<(Address, u8)>)
    ensures
        r == savings_manager_pda(*program, *user, *distributor),
        r matches Some((a, bump)) ==> signer_of(
            savings_manager_seeds(*user, *distributor, bump),
            *program,
        ) == Some(a),
{
    find_program_address(
        SAVINGS_MANAGER_SEED_PREFIX.as_slice(),
        user.bytes.as_slice(),
        distributor.bytes.as_slice(),
        program,
    )
}

/// Derives the address of the fund account of an owner for an asset: the
/// one that the token program's convention gives, from the owner, the token
/// program and the asset, under the program for associated accounts.
pub fn get_associated_token_address(owner: &Address, mint: &Address) -> (r: Option<Address>)
    ensures
        r == associated_token_address(*owner, *mint),
{
    let program = Address { bytes: ASSOCIATED_TOKEN_PROGRAM_ID };
    match find_program_address(
        owner.bytes.as_slice(),
        TOKEN_PROGRAM_ID.as_slice(),
        mint.bytes.as_slice(),
        &program,
    ) {
        Some((address, _)) => Some(address),
        None => None,
    }
}

} // verus!
