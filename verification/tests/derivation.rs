use solana_sdk::pubkey::Pubkey;
use txengine::addr::{addr_eq, derive_with_seed, find_program_address, Address};
use txengine::errors::DeriveError;

fn addr(bytes: [u8; 32]) -> Address {
    Address { bytes }
}

#[test]
fn derive_with_seed_deterministic() {
    let base = addr([7; 32]);
    let owner = addr([0; 32]);
    let a1 = derive_with_seed(&base, "test_program_001", &owner).unwrap();
    let a2 = derive_with_seed(&base, "test_program_001", &owner).unwrap();
    assert_eq!(a1.bytes, a2.bytes);
}

#[test]
fn derive_with_seed_matches_ledger_library() {
    let base = addr([7; 32]);
    let owner = addr([0; 32]);
    let ours = derive_with_seed(&base, "test_program_001", &owner).unwrap();
    let theirs = Pubkey::create_with_seed(
        &Pubkey::new_from_array([7; 32]),
        "test_program_001",
        &Pubkey::new_from_array([0; 32]),
    )
    .unwrap();
    assert_eq!(ours.bytes, theirs.to_bytes());
}

#[test]
fn derive_with_seed_changes_the_address() {
    let base = addr([7; 32]);
    let owner = addr([0; 32]);
    let derived = derive_with_seed(&base, "seed", &owner).unwrap();
    assert_ne!(derived.bytes, base.bytes);
    assert_ne!(derived.bytes, owner.bytes);
}

#[test]
fn derive_with_seed_rejects_long_seed() {
    let base = addr([1; 32]);
    let owner = addr([0; 32]);
    let seed = "123456789012345678901234567890123"; // 33 bytes
    assert!(matches!(
        derive_with_seed(&base, seed, &owner),
        Err(DeriveError::InvalidSeed)
    ));
    // 32 bytes is still accepted
    let seed32 = "12345678901234567890123456789012";
    assert!(derive_with_seed(&base, seed32, &owner).is_ok());
}

#[test]
fn derive_with_seed_rejects_malformed_owner() {
    let base = addr([1; 32]);
    let mut owner_bytes = [0u8; 32];
    owner_bytes[11..32].copy_from_slice(b"ProgramDerivedAddress");
    let owner = addr(owner_bytes);
    assert!(matches!(
        derive_with_seed(&base, "seed", &owner),
        Err(DeriveError::InvalidSeed)
    ));
    // the ledger library rejects the same owner
    assert!(Pubkey::create_with_seed(
        &Pubkey::new_from_array([1; 32]),
        "seed",
        &Pubkey::new_from_array(owner_bytes),
    )
    .is_err());
}

#[test]
fn find_program_address_deterministic_and_off_curve() {
    let program = addr(txengine::ids::metadata_program_address().bytes);
    let mint = [9u8; 32];
    let seeds = vec![
        b"metadata".to_vec(),
        program.bytes.to_vec(),
        mint.to_vec(),
    ];
    let (a1, b1) = find_program_address(&seeds, &program).unwrap();
    let (a2, b2) = find_program_address(&seeds, &program).unwrap();
    assert_eq!(a1.bytes, a2.bytes);
    assert_eq!(b1, b2);
    assert!(!Pubkey::new_from_array(a1.bytes).is_on_curve());
}

#[test]
fn find_program_address_matches_ledger_library() {
    let program = addr(txengine::ids::metadata_program_address().bytes);
    let mint = [9u8; 32];
    let seeds = vec![
        b"metadata".to_vec(),
        program.bytes.to_vec(),
        mint.to_vec(),
    ];
    let (ours, our_bump) = find_program_address(&seeds, &program).unwrap();
    let (theirs, their_bump) = Pubkey::find_program_address(
        &[b"metadata", &program.bytes, &mint],
        &Pubkey::new_from_array(program.bytes),
    );
    assert_eq!(ours.bytes, theirs.to_bytes());
    assert_eq!(our_bump, their_bump);
}

#[test]
fn find_program_address_rejects_overlong_seed() {
    let program = addr([3; 32]);
    let seeds = vec![vec![0u8; 33]]; // every bump fails on an over-long seed
    assert!(matches!(
        find_program_address(&seeds, &program),
        Err(DeriveError::NoValidAddress)
    ));
}

#[test]
fn addr_eq_compares_bytes() {
    let a = addr([5; 32]);
    let b = addr([5; 32]);
    let mut c = addr([5; 32]);
    c.bytes[31] = 6;
    assert!(addr_eq(&a, &b));
    assert!(!addr_eq(&a, &c));
}

#[test]
fn derived_token_account_address_matches_ledger_library() {
    let wallet = addr([4; 32]);
    let mint = addr([5; 32]);
    let token_program = txengine::ids::token_program_address();
    let ours = txengine::addr::derived_token_account_address(&wallet, &mint, &token_program);
    let theirs = spl_associated_token_account::get_associated_token_address_with_program_id(
        &Pubkey::new_from_array(wallet.bytes),
        &Pubkey::new_from_array(mint.bytes),
        &spl_token::id(),
    );
    assert_eq!(ours.bytes, theirs.to_bytes());
    assert_ne!(ours.bytes, wallet.bytes);
}
