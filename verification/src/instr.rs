//! Individual state-transition instructions. Each builder is a pure
//! mapping from typed parameters to an instruction record: a program id,
//! an ordered list of account references, and an opaque data payload. No
//! builder touches the network.

use vstd::prelude::*;
use vstd::string::StringSliceAdditionalSpecFns;
use solana_sdk::pubkey::Pubkey;
use mpl_token_metadata::instructions::CreateMetadataAccountV3Builder;
use mpl_token_metadata::types::DataV2;
use crate::addr::{Address, ata_of};
use crate::ids::{system_program_id, token_program_id, ata_program_id, metadata_program_id};

verus! {

/// One account mentioned by an instruction, with its access flags.
#[derive(Clone, Copy, Debug)]
pub struct AccountRef {
    pub addr: Address,
    pub is_signer: bool,
    pub is_writable: bool,
}

/// An immutable instruction record: the program that executes it, the
/// ordered accounts it touches, and its data payload.
#[derive(Debug)]
pub struct Instruction {
    pub program_id: Address,
    pub accounts: Vec<AccountRef>,
    pub data: Vec<u8>,
}

/// An account reference has the given address and flags.
pub open spec fn is_ref(a: AccountRef, addr: Seq<u8>, signer: bool, writable: bool) -> bool {
    a.addr@ == addr && a.is_signer == signer && a.is_writable == writable
}

/// The little-endian encoding of `n` in `len` bytes.
pub open spec fn le_bytes(n: nat, len: nat) -> Seq<u8>
    decreases len,
{
    if len == 0 {
        Seq::empty()
    } else {
        seq![(n % 256) as u8] + le_bytes(n / 256, (len - 1) as nat)
    }
}

/// The data payload of a create-account instruction: tag 0, then the
/// funding amount, the data size, and the owning program.
pub open spec fn create_account_data(lamports: nat, space: nat, owner: Seq<u8>) -> Seq<u8> {
    le_bytes(0, 4) + le_bytes(lamports, 8) + le_bytes(space, 8) + owner
}

/// The data payload of a create-account-with-seed instruction: tag 3, the
/// base address, the length-prefixed seed bytes, the funding amount, the
/// data size, and the owning program.
pub open spec fn create_account_with_seed_data(
    base: Seq<u8>,
    seed: Seq<u8>,
    lamports: nat,
    space: nat,
    owner: Seq<u8>,
) -> Seq<u8> {
    le_bytes(3, 4) + base + le_bytes(seed.len(), 8) + seed + le_bytes(lamports, 8) + le_bytes(
        space,
        8,
    ) + owner
}

/// The data payload of a transfer instruction: tag 2, then the amount.
pub open spec fn transfer_data(lamports: nat) -> Seq<u8> {
    le_bytes(2, 4) + le_bytes(lamports, 8)
}

/// The data payload of an initialize-mint instruction: tag 20, the
/// decimals, the mint authority, and the optional freeze authority.
pub open spec fn initialize_mint_data(
    decimals: u8,
    authority: Seq<u8>,
    freeze: Option<Seq<u8>>,
) -> Seq<u8> {
    seq![20u8, decimals] + authority + (match freeze {
        Option::None => seq![0u8],
        Option::Some(f) => seq![1u8] + f,
    })
}

/// The data payload of a mint-to instruction with a checked decimals
/// value: tag 14, the amount, and the decimals.
pub open spec fn mint_to_checked_data(amount: nat, decimals: u8) -> Seq<u8> {
    seq![14u8] + le_bytes(amount, 8) + seq![decimals]
}

/// The data payload of a create-metadata instruction: tag 33, the
/// length-prefixed name, symbol and uri, the seller-fee basis points,
/// three empty optional fields, the mutability flag, and an empty optional
/// collection-details field.
pub open spec fn create_metadata_data(
    name: Seq<u8>,
    symbol: Seq<u8>,
    uri: Seq<u8>,
    seller_fee_basis_points: u16,
    is_mutable: bool,
) -> Seq<u8> {
    seq![33u8] + le_bytes(name.len(), 4) + name + le_bytes(symbol.len(), 4) + symbol + le_bytes(
        uri.len(),
        4,
    ) + uri + le_bytes(seller_fee_basis_points as nat, 2) + seq![0u8, 0u8, 0u8] + seq![
        if is_mutable {
            1u8
        } else {
            0u8
        },
    ] + seq![0u8]
}

/// The byte size of a mint account, which a create-account instruction
/// must allocate before the mint is initialized in the same transaction.
pub const MINT_ACCOUNT_SIZE: u64 = 82;

/// Building a derived-token-account instruction is idempotent: any two
/// instructions built for the same (payer, owner, mint, token program)
/// are the same record, account for account and byte for byte — a second
/// submission targets the same derived address rather than a new one.
pub proof fn lemma_derived_token_account_idempotent(
    r1: Instruction,
    r2: Instruction,
    payer: Seq<u8>,
    owner: Seq<u8>,
    mint: Seq<u8>,
    token_program: Seq<u8>,
)
    requires
        derived_token_account_shape(r1, payer, owner, mint, token_program),
        derived_token_account_shape(r2, payer, owner, mint, token_program),
    ensures
        r1.program_id@ == r2.program_id@,
        r1.accounts@.len() == r2.accounts@.len(),
        forall|i: int|
            0 <= i < r1.accounts@.len() ==> r1.accounts@[i].addr@ == r2.accounts@[i].addr@
                && r1.accounts@[i].is_signer == r2.accounts@[i].is_signer
                && r1.accounts@[i].is_writable == r2.accounts@[i].is_writable,
        r1.data@ == r2.data@,
{
    assert forall|i: int|
        0 <= i < r1.accounts@.len() implies r1.accounts@[i].addr@ == r2.accounts@[i].addr@
            && r1.accounts@[i].is_signer == r2.accounts@[i].is_signer && r1.accounts@[i].is_writable
            == r2.accounts@[i].is_writable by {
        assert(0 <= i < 6);
    }
}

/// The exact shape that `create_derived_token_account` gives its result.
pub open spec fn derived_token_account_shape(
    r: Instruction,
    payer: Seq<u8>,
    owner: Seq<u8>,
    mint: Seq<u8>,
    token_program: Seq<u8>,
) -> bool {
    &&& r.program_id@ == ata_program_id()
    &&& r.accounts@.len() == 6
    &&& is_ref(r.accounts@[0], payer, true, true)
    &&& is_ref(r.accounts@[1], ata_of(owner, token_program, mint), false, true)
    &&& is_ref(r.accounts@[2], owner, false, false)
    &&& is_ref(r.accounts@[3], mint, false, false)
    &&& is_ref(r.accounts@[4], system_program_id(), false, false)
    &&& is_ref(r.accounts@[5], token_program, false, false)
    &&& r.data@ == seq![0u8]
}

/// Relies on `solana_sdk::system_instruction::create_account`: the
/// instruction runs under the system program, its accounts are the payer
/// and the new account (both writable signers), and its data is the
/// bincode encoding of the create-account variant.
#[verifier::external_body]
fn create_account_raw(
    payer: &Address,
    new_account: &Address,
    lamports: u64,
    space: u64,
    owner: &Address,
) -> (r: Instruction)
    ensures
        r.program_id@ == system_program_id(),
        r.accounts@.len() == 2,
        is_ref(r.accounts@[0], payer@, true, true),
        is_ref(r.accounts@[1], new_account@, true, true),
        r.data@ == create_account_data(lamports as nat, space as nat, owner@),
{
    let ix = solana_sdk::system_instruction::create_account(
        &Pubkey::from(payer.bytes), &Pubkey::from(new_account.bytes),
        lamports, space, &Pubkey::from(owner.bytes),
    );
    let accs = ix.accounts.iter().map(|m| AccountRef {
        addr: Address { bytes: m.pubkey.to_bytes() }, is_signer: m.is_signer, is_writable: m.is_writable,
    }).collect();
    Instruction { program_id: Address { bytes: ix.program_id.to_bytes() }, accounts: accs, data: ix.data }
}

/// Relies on `solana_sdk::system_instruction::create_account_with_seed`:
/// the instruction runs under the system program, its accounts are the
/// payer (writable signer), the derived account (writable), and the base
/// (read-only signer), and its data is the bincode encoding of the
/// create-account-with-seed variant, with the seed as a length-prefixed
/// string.
#[verifier::external_body]
fn create_account_with_seed_raw(
    payer: &Address,
    derived: &Address,
    base: &Address,
    seed: &str,
    lamports: u64,
    space: u64,
    owner: &Address,
) -> (r: Instruction)
    ensures
        r.program_id@ == system_program_id(),
        r.accounts@.len() == 3,
        is_ref(r.accounts@[0], payer@, true, true),
        is_ref(r.accounts@[1], derived@, false, true),
        is_ref(r.accounts@[2], base@, true, false),
        r.data@ == create_account_with_seed_data(
            base@,
            seed.spec_bytes(),
            lamports as nat,
            space as nat,
            owner@,
        ),
{
    let ix = solana_sdk::system_instruction::create_account_with_seed(
        &Pubkey::from(payer.bytes), &Pubkey::from(derived.bytes), &Pubkey::from(base.bytes),
        seed, lamports, space, &Pubkey::from(owner.bytes),
    );
    let accs = ix.accounts.iter().map(|m| AccountRef {
        addr: Address { bytes: m.pubkey.to_bytes() }, is_signer: m.is_signer, is_writable: m.is_writable,
    }).collect();
    Instruction { program_id: Address { bytes: ix.program_id.to_bytes() }, accounts: accs, data: ix.data }
}

/// Relies on `solana_sdk::system_instruction::transfer`: the instruction
/// runs under the system program, its accounts are the funding account
/// (writable signer) and the recipient (writable), and its data is the
/// bincode encoding of the transfer variant.
#[verifier::external_body]
fn transfer_raw(from: &Address, to: &Address, lamports: u64) -> (r: Instruction)
    ensures
        r.program_id@ == system_program_id(),
        r.accounts@.len() == 2,
        is_ref(r.accounts@[0], from@, true, true),
        is_ref(r.accounts@[1], to@, false, true),
        r.data@ == transfer_data(lamports as nat),
{
    let ix = solana_sdk::system_instruction::transfer(
        &Pubkey::from(from.bytes), &Pubkey::from(to.bytes), lamports,
    );
    let accs = ix.accounts.iter().map(|m| AccountRef {
        addr: Address { bytes: m.pubkey.to_bytes() }, is_signer: m.is_signer, is_writable: m.is_writable,
    }).collect();
    Instruction { program_id: Address { bytes: ix.program_id.to_bytes() }, accounts: accs, data: ix.data }
}

/// Relies on `spl_token::instruction::initialize_mint2`, called with the
/// token program's own id so that its program check always passes: the
/// mint is the single (writable) account, and the data is the packed
/// initialize-mint variant.
#[verifier::external_body]
fn initialize_mint_raw(
    mint: &Address,
    authority: &Address,
    freeze_authority: Option<&Address>,
    decimals: u8,
) -> (r: Instruction)
    ensures
        r.program_id@ == token_program_id(),
        r.accounts@.len() == 1,
        is_ref(r.accounts@[0], mint@, false, true),
        r.data@ == initialize_mint_data(
            decimals,
            authority@,
            match freeze_authority {
                Option::None => Option::None,
                Option::Some(f) => Option::Some(f@),
            },
        ),
{
    let f = freeze_authority.map(|a| Pubkey::from(a.bytes));
    let ix = spl_token::instruction::initialize_mint2(
        &spl_token::id(), &Pubkey::from(mint.bytes), &Pubkey::from(authority.bytes),
        f.as_ref(), decimals,
    ).unwrap();
    let accs = ix.accounts.iter().map(|m| AccountRef {
        addr: Address { bytes: m.pubkey.to_bytes() }, is_signer: m.is_signer, is_writable: m.is_writable,
    }).collect();
    Instruction { program_id: Address { bytes: ix.program_id.to_bytes() }, accounts: accs, data: ix.data }
}

/// Relies on `spl_token::instruction::mint_to_checked`, called with the
/// token program's own id and no multisig signer set: the accounts are the
/// mint (writable), the destination (writable), and the authority
/// (read-only signer), and the data is the packed mint-to-checked variant.
#[verifier::external_body]
fn mint_to_checked_raw(
    mint: &Address,
    destination: &Address,
    authority: &Address,
    amount: u64,
    decimals: u8,
) -> (r: Instruction)
    ensures
        r.program_id@ == token_program_id(),
        r.accounts@.len() == 3,
        is_ref(r.accounts@[0], mint@, false, true),
        is_ref(r.accounts@[1], destination@, false, true),
        is_ref(r.accounts@[2], authority@, true, false),
        r.data@ == mint_to_checked_data(amount as nat, decimals),
{
    let ix = spl_token::instruction::mint_to_checked(
        &spl_token::id(), &Pubkey::from(mint.bytes), &Pubkey::from(destination.bytes),
        &Pubkey::from(authority.bytes), &[], amount, decimals,
    ).unwrap();
    let accs = ix.accounts.iter().map(|m| AccountRef {
        addr: Address { bytes: m.pubkey.to_bytes() }, is_signer: m.is_signer, is_writable: m.is_writable,
    }).collect();
    Instruction { program_id: Address { bytes: ix.program_id.to_bytes() }, accounts: accs, data: ix.data }
}

/// Relies on
/// `spl_associated_token_account::instruction::create_associated_token_account`:
/// the instruction runs under the derived-token-account program; its
/// accounts are the payer (writable signer), the derived token account
/// (writable), the owning wallet, the mint, the system program and the
/// token program (all read-only); its data is the single create tag. On a
/// seed set with no valid bump for the derived account — statistically
/// impossible — the library aborts rather than build a wrong instruction.
#[verifier::external_body]
fn create_derived_token_account_raw(
    payer: &Address,
    owner: &Address,
    mint: &Address,
    token_program: &Address,
) -> (r: Instruction)
    ensures
        derived_token_account_shape(r, payer@, owner@, mint@, token_program@),
{
    let ix = spl_associated_token_account::instruction::create_associated_token_account(
        &Pubkey::from(payer.bytes), &Pubkey::from(owner.bytes),
        &Pubkey::from(mint.bytes), &Pubkey::from(token_program.bytes),
    );
    let accs = ix.accounts.iter().map(|m| AccountRef {
        addr: Address { bytes: m.pubkey.to_bytes() }, is_signer: m.is_signer, is_writable: m.is_writable,
    }).collect();
    Instruction { program_id: Address { bytes: ix.program_id.to_bytes() }, accounts: accs, data: ix.data }
}

/// Relies on `mpl_token_metadata`'s create-metadata-account builder: the
/// instruction runs under the token-metadata program; its accounts are the
/// metadata account (writable), the mint, the mint authority (signer), the
/// payer (writable signer), the update authority (signer), and the system
/// program; its data is the borsh encoding of the version-3 arguments with
/// no creators, collection, uses or collection details.
#[verifier::external_body]
fn create_metadata_raw(
    metadata: &Address,
    mint: &Address,
    mint_authority: &Address,
    payer: &Address,
    update_authority: &Address,
    name: &str,
    symbol: &str,
    uri: &str,
    seller_fee_basis_points: u16,
    is_mutable: bool,
) -> (r: Instruction)
    ensures
        r.program_id@ == metadata_program_id(),
        r.accounts@.len() == 6,
        is_ref(r.accounts@[0], metadata@, false, true),
        is_ref(r.accounts@[1], mint@, false, false),
        is_ref(r.accounts@[2], mint_authority@, true, false),
        is_ref(r.accounts@[3], payer@, true, true),
        is_ref(r.accounts@[4], update_authority@, true, false),
        is_ref(r.accounts@[5], system_program_id(), false, false),
        r.data@ == create_metadata_data(
            name.spec_bytes(),
            symbol.spec_bytes(),
            uri.spec_bytes(),
            seller_fee_basis_points,
            is_mutable,
        ),
{
    let ix = CreateMetadataAccountV3Builder::new()
        .metadata(metadata.bytes.into()).mint(mint.bytes.into())
        .mint_authority(mint_authority.bytes.into()).payer(payer.bytes.into())
        .update_authority(update_authority.bytes.into(), true)
        .data(DataV2 {
            name: name.into(), symbol: symbol.into(), uri: uri.into(),
            seller_fee_basis_points, creators: None, collection: None, uses: None,
        }).is_mutable(is_mutable).instruction();
    Instruction {
        program_id: Address { bytes: ix.program_id.to_bytes() },
        accounts: ix.accounts.iter().map(|m| AccountRef {
            addr: Address { bytes: m.pubkey.to_bytes() }, is_signer: m.is_signer, is_writable: m.is_writable,
        }).collect(),
        data: ix.data,
    }
}

/// Builds a create-account instruction: `payer` funds a fresh
/// `new_account` of `space` bytes owned by `owner`; both must sign.
pub fn create_account(
    payer: &Address,
    new_account: &Address,
    lamports: u64,
    space: u64,
    owner: &Address,
) -> (r: Instruction)
    ensures
        r.program_id@ == system_program_id(),
        r.accounts@.len() == 2,
        is_ref(r.accounts@[0], payer@, true, true),
        is_ref(r.accounts@[1], new_account@, true, true),
        r.data@ == create_account_data(lamports as nat, space as nat, owner@),
{
    create_account_raw(payer, new_account, lamports, space, owner)
}

/// Builds a create-account-with-seed instruction: `payer` funds the
/// account at `derived`, which the caller must have computed as the
/// seed-based derivation of (`base`, `seed`, `owner`); the builder does
/// not verify that equation, and the ledger rejects the transaction with
/// an address mismatch when it does not hold. Only `payer` and `base`
/// sign.
pub fn create_account_with_seed(
    payer: &Address,
    derived: &Address,
    base: &Address,
    seed: &str,
    lamports: u64,
    space: u64,
    owner: &Address,
) -> (r: Instruction)
    ensures
        r.program_id@ == system_program_id(),
        r.accounts@.len() == 3,
        is_ref(r.accounts@[0], payer@, true, true),
        is_ref(r.accounts@[1], derived@, false, true),
        is_ref(r.accounts@[2], base@, true, false),
        r.data@ == create_account_with_seed_data(
            base@,
            seed.spec_bytes(),
            lamports as nat,
            space as nat,
            owner@,
        ),
{
    create_account_with_seed_raw(payer, derived, base, seed, lamports, space, owner)
}

/// Builds a transfer instruction moving `lamports` from `from` (which must
/// sign) to `to`. Whether `from` can afford the amount is decided by the
/// ledger at submission, not here.
pub fn transfer(from: &Address, to: &Address, lamports: u64) -> (r: Instruction)
    ensures
        r.program_id@ == system_program_id(),
        r.accounts@.len() == 2,
        is_ref(r.accounts@[0], from@, true, true),
        is_ref(r.accounts@[1], to@, false, true),
        r.data@ == transfer_data(lamports as nat),
{
    transfer_raw(from, to, lamports)
}

/// Builds an initialize-mint instruction for a mint account that an
/// earlier instruction of the same transaction must already have created
/// with the token program as owner and the mint account size.
pub fn initialize_mint(
    mint: &Address,
    authority: &Address,
    freeze_authority: Option<&Address>,
    decimals: u8,
) -> (r: Instruction)
    ensures
        r.program_id@ == token_program_id(),
        r.accounts@.len() == 1,
        is_ref(r.accounts@[0], mint@, false, true),
        r.data@ == initialize_mint_data(
            decimals,
            authority@,
            match freeze_authority {
                Option::None => Option::None,
                Option::Some(f) => Option::Some(f@),
            },
        ),
{
    initialize_mint_raw(mint, authority, freeze_authority, decimals)
}

/// Builds a mint-to instruction with a checked decimals value: the
/// authority must sign, and the ledger rejects the transaction with a
/// decimal mismatch when `decimals` differs from the mint's stored value.
pub fn mint_to_checked(
    mint: &Address,
    destination: &Address,
    authority: &Address,
    amount: u64,
    decimals: u8,
) -> (r: Instruction)
    ensures
        r.program_id@ == token_program_id(),
        r.accounts@.len() == 3,
        is_ref(r.accounts@[0], mint@, false, true),
        is_ref(r.accounts@[1], destination@, false, true),
        is_ref(r.accounts@[2], authority@, true, false),
        r.data@ == mint_to_checked_data(amount as nat, decimals),
{
    mint_to_checked_raw(mint, destination, authority, amount, decimals)
}

/// Builds a create-derived-token-account instruction: `payer` funds the
/// token account of `owner` for `mint`, whose address is itself derived
/// from (owner, token program, mint). Building is idempotent — two builds
/// for the same inputs are identical — but submitting it twice makes the
/// ledger reject the second with an account-already-exists error.
pub fn create_derived_token_account(
    payer: &Address,
    owner: &Address,
    mint: &Address,
    token_program: &Address,
) -> (r: Instruction)
    ensures
        derived_token_account_shape(r, payer@, owner@, mint@, token_program@),
{
    create_derived_token_account_raw(payer, owner, mint, token_program)
}

/// Builds a create-metadata instruction for `mint`; the caller must have
/// computed `metadata` as the program-derived address of
/// (the literal seed "metadata", the metadata program id, the mint) under
/// the metadata program.
pub fn create_metadata(
    metadata: &Address,
    mint: &Address,
    mint_authority: &Address,
    payer: &Address,
    update_authority: &Address,
    name: &str,
    symbol: &str,
    uri: &str,
    seller_fee_basis_points: u16,
    is_mutable: bool,
) -> (r: Instruction)
    ensures
        r.program_id@ == metadata_program_id(),
        r.accounts@.len() == 6,
        is_ref(r.accounts@[0], metadata@, false, true),
        is_ref(r.accounts@[1], mint@, false, false),
        is_ref(r.accounts@[2], mint_authority@, true, false),
        is_ref(r.accounts@[3], payer@, true, true),
        is_ref(r.accounts@[4], update_authority@, true, false),
        is_ref(r.accounts@[5], system_program_id(), false, false),
        r.data@ == create_metadata_data(
            name.spec_bytes(),
            symbol.spec_bytes(),
            uri.spec_bytes(),
            seller_fee_basis_points,
            is_mutable,
        ),
{
    create_metadata_raw(
        metadata,
        mint,
        mint_authority,
        payer,
        update_authority,
        name,
        symbol,
        uri,
        seller_fee_basis_points,
        is_mutable,
    )
}

} // verus!
