use std::str::FromStr;

use anchor_lang::prelude::Pubkey;
use solana_movies::{
    add_movie, decode_movie, encode_movie, movie_address, movie_discriminator, movie_space, AddMovie, Key,
    Ledger, Movie, MovieError,
};

const RENT: u64 = 1_000;

fn program_id() -> Key {
    Key::new(Pubkey::from_str("8WiX3pvaDXPppRY6vZqLgwkhs6pUoKQt9ycCFwq2rqVK").unwrap().to_bytes())
}

fn owner_a() -> Key {
    Key::new([7u8; 32])
}

fn owner_b() -> Key {
    Key::new([9u8; 32])
}

fn funded_ledger() -> Ledger {
    let mut ledger = Ledger::new();
    assert!(ledger.airdrop(&owner_a(), 10_000));
    assert!(ledger.airdrop(&owner_b(), 10_000));
    ledger
}

fn ctx_for(owner: Key, name: &str) -> AddMovie {
    let (movie, _) = movie_address(&owner, name, &program_id()).unwrap();
    AddMovie { movie, user: owner, program_id: program_id() }
}

#[test]
fn owner_creates_inception() {
    let mut ledger = funded_ledger();
    let ctx = ctx_for(owner_a(), "Inception");
    assert_eq!(add_movie(&mut ledger, &ctx, "Inception".to_string(), RENT), Ok(()));
    let movie = ledger.read_movie(&ctx.movie).unwrap();
    assert_eq!(movie.owner, owner_a());
    assert_eq!(movie.movie_name, "Inception");
    assert_eq!(ledger.lamports(&owner_a()), Some(9_000));
    assert_eq!(ledger.lamports(&ctx.movie), Some(RENT));
    let i = ledger.find(&ctx.movie).unwrap();
    assert_eq!(ledger.slots[i].data.len(), 8 + 32 + 4 + 9);
}

#[test]
fn second_inception_by_same_owner_is_duplicate() {
    let mut ledger = funded_ledger();
    let ctx = ctx_for(owner_a(), "Inception");
    assert_eq!(add_movie(&mut ledger, &ctx, "Inception".to_string(), RENT), Ok(()));
    let i = ledger.find(&ctx.movie).unwrap();
    let data_before = ledger.slots[i].data.clone();
    assert_eq!(
        add_movie(&mut ledger, &ctx, "Inception".to_string(), RENT),
        Err(MovieError::SlotAlreadyExists)
    );
    assert_eq!(ledger.slots[i].data, data_before);
    assert_eq!(ledger.lamports(&owner_a()), Some(9_000));
    let movie = ledger.read_movie(&ctx.movie).unwrap();
    assert_eq!(movie.owner, owner_a());
    assert_eq!(movie.movie_name, "Inception");
}

#[test]
fn other_owner_inception_coexists() {
    let mut ledger = funded_ledger();
    let ctx_a = ctx_for(owner_a(), "Inception");
    let ctx_b = ctx_for(owner_b(), "Inception");
    assert_ne!(ctx_a.movie, ctx_b.movie);
    assert_eq!(add_movie(&mut ledger, &ctx_a, "Inception".to_string(), RENT), Ok(()));
    assert_eq!(add_movie(&mut ledger, &ctx_b, "Inception".to_string(), RENT), Ok(()));
    let a = ledger.read_movie(&ctx_a.movie).unwrap();
    let b = ledger.read_movie(&ctx_b.movie).unwrap();
    assert_eq!(a.owner, owner_a());
    assert_eq!(b.owner, owner_b());
    assert_eq!(a.movie_name, "Inception");
    assert_eq!(b.movie_name, "Inception");
    assert_eq!(ledger.slots.len(), 4);
}

#[test]
fn address_derivation_is_deterministic() {
    let first = movie_address(&owner_a(), "Inception", &program_id());
    let second = movie_address(&owner_a(), "Inception", &program_id());
    assert!(first.is_some());
    assert_eq!(first, second);
}

#[test]
fn address_matches_runtime_derivation() {
    let pid = Pubkey::new_from_array(program_id().bytes);
    let owner = owner_a();
    let (expected, bump) =
        Pubkey::find_program_address(&[b"movie_account", &owner.bytes, b"Inception"], &pid);
    let (got, got_bump) = movie_address(&owner, "Inception", &program_id()).unwrap();
    assert_eq!(got.bytes, expected.to_bytes());
    assert_eq!(got_bump, bump);
}

#[test]
fn distinct_inputs_give_distinct_addresses() {
    let pid = program_id();
    let a1 = movie_address(&owner_a(), "Inception", &pid).unwrap().0;
    let a2 = movie_address(&owner_a(), "Inceptio", &pid).unwrap().0;
    let a3 = movie_address(&owner_b(), "Inception", &pid).unwrap().0;
    let a4 = movie_address(&owner_a(), "", &pid).unwrap().0;
    assert_ne!(a1, a2);
    assert_ne!(a1, a3);
    assert_ne!(a2, a3);
    assert_ne!(a1, a4);
}

#[test]
fn space_is_exact() {
    assert_eq!(movie_space("Inception"), 53);
    assert_eq!(movie_space(""), 44);
    assert_eq!(movie_space("é"), 46);
    let name = "x".repeat(32);
    assert_eq!(movie_space(&name), 76);
    assert_eq!(movie_space(&"y".repeat(1000)), 1044);
}

#[test]
fn discriminator_is_digest_prefix() {
    assert_eq!(movie_discriminator(), vec![222, 96, 145, 199, 237, 196, 205, 180]);
}

#[test]
fn layout_bytes() {
    let movie = Movie { owner: owner_a(), movie_name: "Inception".to_string() };
    let bytes = encode_movie(&movie);
    let mut expected = vec![222u8, 96, 145, 199, 237, 196, 205, 180];
    expected.extend_from_slice(&[7u8; 32]);
    expected.extend_from_slice(&[9, 0, 0, 0]);
    expected.extend_from_slice(b"Inception");
    assert_eq!(bytes, expected);
    assert_eq!(bytes.len(), movie_space("Inception"));
}

#[test]
fn layout_round_trip() {
    let movie = Movie { owner: owner_b(), movie_name: "Amélie".to_string() };
    let back = decode_movie(&encode_movie(&movie)).unwrap();
    assert_eq!(back.owner, owner_b());
    assert_eq!(back.movie_name, "Amélie");
    let empty = Movie { owner: owner_a(), movie_name: String::new() };
    let back = decode_movie(&encode_movie(&empty)).unwrap();
    assert_eq!(back.movie_name, "");
}

#[test]
fn decode_rejects_other_bytes() {
    let movie = Movie { owner: owner_a(), movie_name: "Inception".to_string() };
    let good = encode_movie(&movie);
    assert!(decode_movie(&good[..43]).is_none());
    assert!(decode_movie(&[]).is_none());
    let mut wrong_tag = good.clone();
    wrong_tag[0] ^= 1;
    assert!(decode_movie(&wrong_tag).is_none());
    let mut wrong_len = good.clone();
    wrong_len[40] = 8;
    assert!(decode_movie(&wrong_len).is_none());
    let mut trailing = good.clone();
    trailing.push(0);
    assert!(decode_movie(&trailing).is_none());
    let mut bad_text = good.clone();
    bad_text[44] = 0xff;
    assert!(decode_movie(&bad_text).is_none());
}

#[test]
fn name_too_long() {
    let mut ledger = funded_ledger();
    let name = "x".repeat(33);
    let ctx = AddMovie { movie: owner_b(), user: owner_a(), program_id: program_id() };
    assert_eq!(add_movie(&mut ledger, &ctx, name, RENT), Err(MovieError::NameTooLong));
    assert_eq!(ledger.slots.len(), 2);
}

#[test]
fn longest_name_is_accepted() {
    let mut ledger = funded_ledger();
    let name = "x".repeat(32);
    let ctx = ctx_for(owner_a(), &name);
    assert_eq!(add_movie(&mut ledger, &ctx, name.clone(), RENT), Ok(()));
    assert_eq!(ledger.read_movie(&ctx.movie).unwrap().movie_name, name);
}

#[test]
fn supplied_address_must_match() {
    let mut ledger = funded_ledger();
    let mut ctx = ctx_for(owner_a(), "Inception");
    ctx.movie = ctx_for(owner_b(), "Inception").movie;
    assert_eq!(
        add_movie(&mut ledger, &ctx, "Inception".to_string(), RENT),
        Err(MovieError::InvalidAddressDerivation)
    );
    assert_eq!(ledger.slots.len(), 2);
    let ctx = ctx_for(owner_a(), "Inception");
    assert_eq!(
        add_movie(&mut ledger, &ctx, "Interstellar".to_string(), RENT),
        Err(MovieError::InvalidAddressDerivation)
    );
}

#[test]
fn payer_without_funds() {
    let mut ledger = funded_ledger();
    let ctx = ctx_for(owner_a(), "Inception");
    assert_eq!(
        add_movie(&mut ledger, &ctx, "Inception".to_string(), 10_001),
        Err(MovieError::InsufficientFunds)
    );
    assert_eq!(ledger.lamports(&owner_a()), Some(10_000));
    let stranger = Key::new([1u8; 32]);
    let ctx = ctx_for(stranger, "Inception");
    assert_eq!(
        add_movie(&mut ledger, &ctx, "Inception".to_string(), RENT),
        Err(MovieError::InsufficientFunds)
    );
    assert_eq!(ledger.slots.len(), 2);
}

#[test]
fn exact_balance_is_enough() {
    let mut ledger = funded_ledger();
    let ctx = ctx_for(owner_a(), "Inception");
    assert_eq!(add_movie(&mut ledger, &ctx, "Inception".to_string(), 10_000), Ok(()));
    assert_eq!(ledger.lamports(&owner_a()), Some(0));
}

#[test]
fn write_of_other_size_is_refused() {
    let mut ledger = funded_ledger();
    let address = Key::new([3u8; 32]);
    let movie = Movie { owner: owner_a(), movie_name: "Inception".to_string() };
    assert_eq!(ledger.create_account(&owner_a(), &address, 52, RENT), Ok(()));
    assert_eq!(ledger.write_data(&address, encode_movie(&movie)), Err(MovieError::SizeMismatch));
    let other = Key::new([4u8; 32]);
    assert_eq!(ledger.create_account(&owner_a(), &other, 54, RENT), Ok(()));
    assert_eq!(ledger.write_data(&other, encode_movie(&movie)), Err(MovieError::SizeMismatch));
    let exact = Key::new([5u8; 32]);
    assert_eq!(ledger.create_account(&owner_a(), &exact, 53, RENT), Ok(()));
    assert_eq!(ledger.write_data(&exact, encode_movie(&movie)), Ok(()));
    assert_eq!(ledger.read_movie(&exact).unwrap().movie_name, "Inception");
}

#[test]
fn write_to_missing_slot() {
    let mut ledger = funded_ledger();
    assert_eq!(ledger.write_data(&Key::new([3u8; 32]), vec![1, 2]), Err(MovieError::AccountNotFound));
}

#[test]
fn create_account_twice() {
    let mut ledger = funded_ledger();
    let address = Key::new([3u8; 32]);
    assert_eq!(ledger.create_account(&owner_a(), &address, 10, RENT), Ok(()));
    assert_eq!(ledger.create_account(&owner_b(), &address, 10, RENT), Err(MovieError::SlotAlreadyExists));
    assert_eq!(ledger.lamports(&owner_b()), Some(10_000));
    let i = ledger.find(&address).unwrap();
    assert_eq!(ledger.slots[i].data, vec![0u8; 10]);
}

#[test]
fn read_of_empty_or_missing_slot() {
    let ledger = funded_ledger();
    assert!(ledger.read_movie(&owner_a()).is_none());
    assert!(ledger.read_movie(&Key::new([3u8; 32])).is_none());
}

#[test]
fn airdrop_adds_and_refuses_overflow() {
    let mut ledger = Ledger::new();
    assert!(ledger.airdrop(&owner_a(), 5));
    assert!(ledger.airdrop(&owner_a(), 6));
    assert_eq!(ledger.lamports(&owner_a()), Some(11));
    assert!(!ledger.airdrop(&owner_a(), u64::MAX));
    assert_eq!(ledger.lamports(&owner_a()), Some(11));
    assert_eq!(ledger.slots.len(), 1);
}

#[test]
fn keys_compare_by_bytes() {
    let mut bytes = [7u8; 32];
    assert!(owner_a().same(&Key::new(bytes)));
    bytes[31] = 8;
    assert!(!owner_a().same(&Key::new(bytes)));
}
