use anchor_lang::prelude::Pubkey;
use anchor_lang::solana_program::hash::hash;
use anchor_lang::AnchorSerialize;
use savings_program::address::Address;
use savings_program::layout::{
    INTEREST_DISTRIBUTOR_DISCRIMINATOR, SAVINGS_MANAGER_DISCRIMINATOR, STATE_DISCRIMINATOR,
};
use savings_program::state::{InterestDistributor, SavingsManager, State};

fn address(seed: u8) -> Address {
    let mut bytes = [0u8; 32];
    for (i, b) in bytes.iter_mut().enumerate() {
        *b = seed.wrapping_add((i as u8).wrapping_mul(3));
    }
    Address::new(bytes)
}

fn tag(name: &str) -> Vec<u8> {
    hash(format!("account:{}", name).as_bytes()).to_bytes()[..8].to_vec()
}

fn field<T: AnchorSerialize>(out: &mut Vec<u8>, value: &T) {
    value.serialize(out).unwrap();
}

fn key(a: &Address) -> Pubkey {
    Pubkey::new_from_array(a.bytes)
}

fn manager(ts: i64) -> SavingsManager {
    SavingsManager {
        user: address(1),
        mint: address(2),
        distributor: address(3),
        last_interest_deposit_ts: ts,
        bump: 254,
    }
}

#[test]
fn tags_are_the_hashes_of_the_record_names() {
    assert_eq!(STATE_DISCRIMINATOR.to_vec(), tag("State"));
    assert_eq!(INTEREST_DISTRIBUTOR_DISCRIMINATOR.to_vec(), tag("InterestDistributor"));
    assert_eq!(SAVINGS_MANAGER_DISCRIMINATOR.to_vec(), tag("SavingsManager"));
}

#[test]
fn records_take_their_declared_space() {
    assert_eq!(State::SPACE, 40);
    assert_eq!(InterestDistributor::SPACE, 73);
    assert_eq!(SavingsManager::SPACE, 113);
    assert_eq!(State { authority: address(1) }.try_serialize().len(), State::SPACE);
    assert_eq!(manager(0).try_serialize().len(), SavingsManager::SPACE);
}

#[test]
fn state_is_laid_out_as_tag_then_authority() {
    let record = State { authority: address(9) };
    let mut expected = tag("State");
    field(&mut expected, &key(&record.authority));
    assert_eq!(record.try_serialize(), expected);
    assert_eq!(State::try_deserialize(&expected), Some(record));
}

#[test]
fn interest_distributor_is_laid_out_in_declared_order() {
    let record = InterestDistributor { state: address(4), mint: address(5), bump: 7 };
    let mut expected = tag("InterestDistributor");
    field(&mut expected, &key(&record.state));
    field(&mut expected, &key(&record.mint));
    field(&mut expected, &record.bump);
    assert_eq!(record.try_serialize(), expected);
    assert_eq!(InterestDistributor::try_deserialize(&expected), Some(record));
    // State and asset are not interchangeable.
    let swapped = InterestDistributor { state: address(5), mint: address(4), bump: 7 };
    assert_ne!(swapped.try_serialize(), expected);
}

#[test]
fn savings_manager_is_laid_out_in_declared_order() {
    for ts in [0i64, 1, -1, 1_700_000_000, i64::MAX, i64::MIN, 0x0102_0304_0506_0708] {
        let record = manager(ts);
        let mut expected = tag("SavingsManager");
        field(&mut expected, &key(&record.user));
        field(&mut expected, &key(&record.mint));
        field(&mut expected, &key(&record.distributor));
        field(&mut expected, &record.last_interest_deposit_ts);
        field(&mut expected, &record.bump);
        assert_eq!(record.try_serialize(), expected);
        assert_eq!(SavingsManager::try_deserialize(&expected), Some(record));
    }
}

#[test]
fn timestamp_is_little_endian() {
    let bytes = manager(0x0102_0304_0506_0708).try_serialize();
    assert_eq!(&bytes[104..112], &[8, 7, 6, 5, 4, 3, 2, 1]);
    let bytes = manager(-2).try_serialize();
    assert_eq!(&bytes[104..112], &[0xFE, 0xFF, 0xFF, 0xFF, 0xFF, 0xFF, 0xFF, 0xFF]);
    assert_eq!(bytes[112], 254);
}

#[test]
fn reading_ignores_what_follows_a_record() {
    let record = manager(77);
    let mut bytes = record.try_serialize();
    bytes.extend_from_slice(&[1, 2, 3, 4, 5]);
    assert_eq!(SavingsManager::try_deserialize(&bytes), Some(record));
    let state = State { authority: address(1) };
    let mut bytes = state.try_serialize();
    bytes.push(0);
    assert_eq!(State::try_deserialize(&bytes), Some(state));
}

#[test]
fn reading_rejects_short_or_foreign_bytes() {
    let record = manager(77);
    let bytes = record.try_serialize();
    assert_eq!(SavingsManager::try_deserialize(&bytes[..112]), None);
    assert_eq!(SavingsManager::try_deserialize(&bytes[..7]), None);
    assert_eq!(SavingsManager::try_deserialize(&[]), None);
    let mut wrong = bytes.clone();
    wrong[7] ^= 1;
    assert_eq!(SavingsManager::try_deserialize(&wrong), None);
    // A record of one kind is not read as one of another kind.
    assert_eq!(State::try_deserialize(&bytes), None);
    assert_eq!(InterestDistributor::try_deserialize(&bytes), None);
    let pool = InterestDistributor { state: address(4), mint: address(5), bump: 7 }.try_serialize();
    assert_eq!(SavingsManager::try_deserialize(&pool), None);
    assert_eq!(InterestDistributor::try_deserialize(&pool[..72]), None);
    assert_eq!(State::try_deserialize(&State { authority: address(1) }.try_serialize()[..39]), None);
}
