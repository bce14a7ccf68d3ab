use solana_sdk::pubkey::Pubkey;
use txengine::addr::Address;
use txengine::ids;
use txengine::instr;

fn addr(bytes: [u8; 32]) -> Address {
    Address { bytes }
}

#[test]
fn program_ids_match_the_libraries() {
    assert_eq!(
        ids::token_program_address().bytes,
        spl_token::id().to_bytes()
    );
    assert_eq!(
        ids::ata_program_address().bytes,
        spl_associated_token_account::id().to_bytes()
    );
    assert_eq!(
        ids::metadata_program_address().bytes,
        mpl_token_metadata::ID.to_bytes()
    );
    assert_eq!(
        ids::system_program_address().bytes,
        solana_sdk::system_program::id().to_bytes()
    );
}

#[test]
fn mint_account_size_matches_the_token_library() {
    assert_eq!(
        instr::MINT_ACCOUNT_SIZE,
        <spl_token::state::Mint as solana_sdk::program_pack::Pack>::LEN as u64
    );
}

#[test]
fn transfer_instruction_exact() {
    let from = addr([1; 32]);
    let to = addr([2; 32]);
    let ix = instr::transfer(&from, &to, 7);
    assert_eq!(ix.program_id.bytes, [0; 32]);
    assert_eq!(ix.accounts.len(), 2);
    assert_eq!(ix.accounts[0].addr.bytes, from.bytes);
    assert!(ix.accounts[0].is_signer && ix.accounts[0].is_writable);
    assert_eq!(ix.accounts[1].addr.bytes, to.bytes);
    assert!(!ix.accounts[1].is_signer && ix.accounts[1].is_writable);
    assert_eq!(ix.data, vec![2, 0, 0, 0, 7, 0, 0, 0, 0, 0, 0, 0]);
    // byte for byte what the ledger library builds
    let theirs = solana_sdk::system_instruction::transfer(
        &Pubkey::new_from_array(from.bytes),
        &Pubkey::new_from_array(to.bytes),
        7,
    );
    assert_eq!(ix.data, theirs.data);
}

#[test]
fn create_account_instruction_exact() {
    let payer = addr([1; 32]);
    let fresh = addr([2; 32]);
    let owner = ids::token_program_address();
    let ix = instr::create_account(&payer, &fresh, 1000, 82, &owner);
    assert_eq!(ix.program_id.bytes, [0; 32]);
    assert_eq!(ix.accounts.len(), 2);
    assert!(ix.accounts[0].is_signer && ix.accounts[0].is_writable);
    assert!(ix.accounts[1].is_signer && ix.accounts[1].is_writable);
    let mut expected = vec![0, 0, 0, 0];
    expected.extend_from_slice(&1000u64.to_le_bytes());
    expected.extend_from_slice(&82u64.to_le_bytes());
    expected.extend_from_slice(&owner.bytes);
    assert_eq!(ix.data, expected);
}

#[test]
fn create_account_with_seed_instruction_exact() {
    let payer = addr([1; 32]);
    let derived = addr([2; 32]);
    let base = addr([1; 32]);
    let owner = addr([0; 32]);
    let ix = instr::create_account_with_seed(&payer, &derived, &base, "token_001", 500, 0, &owner);
    assert_eq!(ix.program_id.bytes, [0; 32]);
    assert_eq!(ix.accounts.len(), 3);
    assert!(ix.accounts[0].is_signer && ix.accounts[0].is_writable);
    assert!(!ix.accounts[1].is_signer && ix.accounts[1].is_writable);
    assert!(ix.accounts[2].is_signer && !ix.accounts[2].is_writable);
    let theirs = solana_sdk::system_instruction::create_account_with_seed(
        &Pubkey::new_from_array(payer.bytes),
        &Pubkey::new_from_array(derived.bytes),
        &Pubkey::new_from_array(base.bytes),
        "token_001",
        500,
        0,
        &Pubkey::new_from_array(owner.bytes),
    );
    assert_eq!(ix.data, theirs.data);
    // the seed is length-prefixed inside the payload
    assert_eq!(&ix.data[0..4], &[3, 0, 0, 0]);
    assert_eq!(&ix.data[4..36], &base.bytes);
    assert_eq!(&ix.data[36..44], &9u64.to_le_bytes());
    assert_eq!(&ix.data[44..53], b"token_001");
}

#[test]
fn initialize_mint_instruction_exact() {
    let mint = addr([3; 32]);
    let authority = addr([4; 32]);
    let ix = instr::initialize_mint(&mint, &authority, Some(&authority), 2);
    assert_eq!(ix.program_id.bytes, spl_token::id().to_bytes());
    assert_eq!(ix.accounts.len(), 1);
    assert_eq!(ix.accounts[0].addr.bytes, mint.bytes);
    assert!(!ix.accounts[0].is_signer && ix.accounts[0].is_writable);
    let mut expected = vec![20, 2];
    expected.extend_from_slice(&authority.bytes);
    expected.push(1);
    expected.extend_from_slice(&authority.bytes);
    assert_eq!(ix.data, expected);
    // and with no freeze authority the option byte is zero
    let ix2 = instr::initialize_mint(&mint, &authority, None, 2);
    assert_eq!(ix2.data[34], 0);
    assert_eq!(ix2.data.len(), 35);
}

#[test]
fn mint_to_checked_instruction_exact() {
    let mint = addr([3; 32]);
    let dest = addr([5; 32]);
    let authority = addr([4; 32]);
    let ix = instr::mint_to_checked(&mint, &dest, &authority, 100, 2);
    assert_eq!(ix.program_id.bytes, spl_token::id().to_bytes());
    assert_eq!(ix.accounts.len(), 3);
    assert!(ix.accounts[2].is_signer && !ix.accounts[2].is_writable);
    let mut expected = vec![14];
    expected.extend_from_slice(&100u64.to_le_bytes());
    expected.push(2);
    assert_eq!(ix.data, expected);
}

#[test]
fn create_derived_token_account_is_idempotent() {
    let payer = addr([1; 32]);
    let owner = addr([1; 32]);
    let mint = addr([6; 32]);
    let token_program = ids::token_program_address();
    let ix1 = instr::create_derived_token_account(&payer, &owner, &mint, &token_program);
    let ix2 = instr::create_derived_token_account(&payer, &owner, &mint, &token_program);
    assert_eq!(ix1.program_id.bytes, ix2.program_id.bytes);
    assert_eq!(ix1.accounts.len(), ix2.accounts.len());
    for (a, b) in ix1.accounts.iter().zip(ix2.accounts.iter()) {
        assert_eq!(a.addr.bytes, b.addr.bytes);
        assert_eq!(a.is_signer, b.is_signer);
        assert_eq!(a.is_writable, b.is_writable);
    }
    assert_eq!(ix1.data, ix2.data);
    assert_eq!(ix1.data, vec![0]);
    // the derived account is the same address the address derivation gives
    let ata = txengine::addr::derived_token_account_address(&owner, &mint, &token_program);
    assert_eq!(ix1.accounts[1].addr.bytes, ata.bytes);
}

#[test]
fn create_metadata_instruction_exact() {
    let mint = addr([6; 32]);
    let payer = addr([1; 32]);
    let program = ids::metadata_program_address();
    let seeds = vec![
        b"metadata".to_vec(),
        program.bytes.to_vec(),
        mint.bytes.to_vec(),
    ];
    let (metadata, _bump) = txengine::addr::find_program_address(&seeds, &program).unwrap();
    let ix = txengine::instr::create_metadata(
        &metadata,
        &mint,
        &payer,
        &payer,
        &payer,
        "Seven Seas Gold",
        "GOLD",
        "https://thisisnot.arealurl/info.json",
        0,
        true,
    );
    assert_eq!(ix.program_id.bytes, mpl_token_metadata::ID.to_bytes());
    assert_eq!(ix.accounts.len(), 6);
    // byte for byte what the metadata library builds
    let theirs = mpl_token_metadata::instructions::CreateMetadataAccountV3Builder::new()
        .metadata(Pubkey::new_from_array(metadata.bytes))
        .mint(Pubkey::new_from_array(mint.bytes))
        .mint_authority(Pubkey::new_from_array(payer.bytes))
        .payer(Pubkey::new_from_array(payer.bytes))
        .update_authority(Pubkey::new_from_array(payer.bytes), true)
        .data(mpl_token_metadata::types::DataV2 {
            name: "Seven Seas Gold".to_string(),
            symbol: "GOLD".to_string(),
            uri: "https://thisisnot.arealurl/info.json".to_string(),
            seller_fee_basis_points: 0,
            creators: None,
            collection: None,
            uses: None,
        })
        .is_mutable(true)
        .instruction();
    assert_eq!(ix.data, theirs.data);
    assert_eq!(ix.data[0], 33);
    for (ours, m) in ix.accounts.iter().zip(theirs.accounts.iter()) {
        assert_eq!(ours.addr.bytes, m.pubkey.to_bytes());
        assert_eq!(ours.is_signer, m.is_signer);
        assert_eq!(ours.is_writable, m.is_writable);
    }
}
