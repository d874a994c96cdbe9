use anchor_lang::prelude::Pubkey;
use savings_program::address::{
    derive_interest_distributor_pda, derive_savings_manager_pda, find_program_address,
    get_associated_token_address, id, token_program_id, Address, ASSOCIATED_TOKEN_PROGRAM_ID, ID,
    INTEREST_DISTRIBUTOR_SEED_PREFIX, SAVINGS_MANAGER_SEED_PREFIX, TOKEN_PROGRAM_ID,
};
use std::str::FromStr;

fn key(address: &Address) -> Pubkey {
    Pubkey::new_from_array(address.bytes)
}

fn sample(seed: u8) -> Address {
    let mut bytes = [0u8; 32];
    for (i, b) in bytes.iter_mut().enumerate() {
        *b = seed.wrapping_mul(31).wrapping_add(i as u8);
    }
    Address::new(bytes)
}

#[test]
fn program_ids_are_the_published_ones() {
    assert_eq!(
        Pubkey::new_from_array(ID),
        Pubkey::from_str("BYDhC79wks4E3P5Fi5Ez4oKwS8fM1PQFVnRQLZsa4YdP").unwrap()
    );
    assert_eq!(Pubkey::new_from_array(TOKEN_PROGRAM_ID), anchor_spl::token::ID);
    assert_eq!(
        Pubkey::new_from_array(ASSOCIATED_TOKEN_PROGRAM_ID),
        anchor_spl::associated_token::ID
    );
    assert_eq!(id().bytes, ID);
    assert_eq!(token_program_id().bytes, TOKEN_PROGRAM_ID);
}

#[test]
fn seed_tags_are_the_documented_texts() {
    assert_eq!(&SAVINGS_MANAGER_SEED_PREFIX[..], b"savings-manager");
    assert_eq!(&INTEREST_DISTRIBUTOR_SEED_PREFIX[..], b"interest-distributor");
}

#[test]
fn addresses_compare_by_bytes() {
    let a = sample(1);
    let mut other = a.bytes;
    assert_eq!(a, Address::new(other));
    other[31] ^= 1;
    assert_ne!(a, Address::new(other));
    other[31] ^= 1;
    other[0] ^= 0x80;
    assert_ne!(a, Address::new(other));
    assert_eq!(a.to_bytes(), a.bytes);
}

#[test]
fn derivation_agrees_with_the_host() {
    let program = sample(9);
    let (a, b, c) = (sample(2), sample(3), sample(4));
    let expected = Pubkey::find_program_address(&[&a.bytes, &b.bytes, &c.bytes], &key(&program));
    let (address, bump) = find_program_address(&a.bytes, &b.bytes, &c.bytes, &program).unwrap();
    assert_eq!(key(&address), expected.0);
    assert_eq!(bump, expected.1);
    // The result is not one of the inputs.
    assert_ne!(address, a);
    assert_ne!(address, program);
}

#[test]
fn derivation_rejects_an_overlong_seed() {
    let program = id();
    let long = [7u8; 33];
    assert!(find_program_address(&long, b"x", b"y", &program).is_none());
    assert!(find_program_address(&long[..32], b"x", b"y", &program).is_some());
}

#[test]
fn interest_distributor_address_uses_tag_state_mint() {
    let (state, mint) = (sample(5), sample(6));
    let expected = Pubkey::find_program_address(
        &[b"interest-distributor", &state.bytes, &mint.bytes],
        &key(&id()),
    );
    let (address, bump) = derive_interest_distributor_pda(&id(), &state, &mint).unwrap();
    assert_eq!((key(&address), bump), expected);
    // Order of the identities matters.
    let swapped = derive_interest_distributor_pda(&id(), &mint, &state).unwrap();
    assert_ne!(swapped.0, address);
}

#[test]
fn savings_manager_address_uses_tag_user_distributor() {
    let (user, distributor) = (sample(7), sample(8));
    let expected = Pubkey::find_program_address(
        &[b"savings-manager", &user.bytes, &distributor.bytes],
        &key(&id()),
    );
    let (address, bump) = derive_savings_manager_pda(&id(), &user, &distributor).unwrap();
    assert_eq!((key(&address), bump), expected);
    let other_program = derive_savings_manager_pda(&sample(1), &user, &distributor).unwrap();
    assert_ne!(other_program.0, address);
}

#[test]
fn fund_address_agrees_with_the_token_library() {
    let (owner, mint) = (sample(10), sample(11));
    let expected =
        anchor_spl::associated_token::get_associated_token_address(&key(&owner), &key(&mint));
    let address = get_associated_token_address(&owner, &mint).unwrap();
    assert_eq!(key(&address), expected);
    assert_ne!(address, owner);
    assert_ne!(get_associated_token_address(&mint, &owner).unwrap(), address);
}
