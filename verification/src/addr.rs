//! Account addresses and their deterministic derivation: seed-based
//! derivation from a base address, and program-derived addresses found by
//! searching bump values from 255 downward.

use vstd::prelude::*;
use vstd::string::StringSliceAdditionalSpecFns;
use crate::errors::DeriveError;

verus! {

/// A 32-byte opaque identifier naming an account on the ledger.
#[derive(Clone, Copy, Debug)]
pub struct Address {
    pub bytes: [u8; 32],
}

impl View for Address {
    type V = Seq<u8>;

    open spec fn view(&self) -> Seq<u8> {
        self.bytes@
    }
}

/// Byte-wise equality of two addresses.
pub fn addr_eq(a: &Address, b: &Address) -> (r: bool)
    ensures
        r == (a@ == b@),
{
    let mut i: usize = 0;
    while i < 32
        invariant
            i <= 32,
            forall|j: int| 0 <= j < i ==> a@[j] == b@[j],
        decreases 32 - i,
    {
        if a.bytes[i] != b.bytes[i] {
            return false;
        }
        i += 1;
    }
    proof {
        assert(a@ =~= b@);
    }
    true
}

/// The address that seed-based derivation assigns to
/// (base, seed bytes, owner): the digest of their concatenation.
pub uninterp spec fn seed_derived(base: Seq<u8>, seed: Seq<u8>, owner: Seq<u8>) -> Seq<u8>;

/// The 21-byte marker reserved for program-derived addresses; an owner
/// whose address ends with it is rejected by seed-based derivation.
pub open spec fn pda_marker() -> Seq<u8> {
    seq![
        80u8, 114u8, 111u8, 103u8, 114u8, 97u8, 109u8, 68u8, 101u8, 114u8, 105u8, 118u8,
        101u8, 100u8, 65u8, 100u8, 100u8, 114u8, 101u8, 115u8, 115u8,
    ]
}

/// An owner address is malformed for seed-based derivation when its last
/// 21 bytes equal the program-derived-address marker.
pub open spec fn owner_is_malformed(owner: Seq<u8>) -> bool {
    owner.subrange(11, 32) =~= pda_marker()
}

/// Relies on `solana_sdk::pubkey::Pubkey::create_with_seed`: for a seed of
/// at most 32 bytes and an owner that does not end with the reserved
/// derived-address marker, it returns the address obtained by hashing
/// (base, seed bytes, owner) — a pure function of those inputs, and it
/// returns no error on them.
#[verifier::external_body]
fn create_with_seed_raw(base: &Address, seed: &str, owner: &Address) -> (r: Address)
    requires
        seed.spec_bytes().len() <= 32,
        !owner_is_malformed(owner@),
    ensures
        r@ == seed_derived(base@, seed.spec_bytes(), owner@),
{
    let b = solana_sdk::pubkey::Pubkey::new_from_array(base.bytes);
    let o = solana_sdk::pubkey::Pubkey::new_from_array(owner.bytes);
    let p = solana_sdk::pubkey::Pubkey::create_with_seed(&b, seed, &o).unwrap();
    Address { bytes: p.to_bytes() }
}

/// Reports whether an owner address ends with the derived-address marker.
fn owner_malformed(owner: &Address) -> (r: bool)
    ensures
        r == owner_is_malformed(owner@),
{
    let marker: [u8; 21] = [
        80, 114, 111, 103, 114, 97, 109, 68, 101, 114, 105, 118, 101, 100, 65, 100, 100,
        114, 101, 115, 115,
    ];
    let mut i: usize = 0;
    while i < 21
        invariant
            i <= 21,
            marker@ =~= pda_marker(),
            forall|j: int| 0 <= j < i ==> owner@[11 + j] == pda_marker()[j],
        decreases 21 - i,
    {
        if owner.bytes[11 + i] != marker[i] {
            assert(owner@.subrange(11, 32)[i as int] != pda_marker()[i as int]);
            return false;
        }
        i += 1;
    }
    proof {
        assert(owner@.subrange(11, 32) =~= pda_marker());
    }
    true
}

/// Deterministic seed-based derivation of an account address from a base
/// address, a seed string and the owning program's id.
///
/// Succeeds exactly when the seed is at most 32 bytes long and the owner
/// id is not malformed; the result is then a pure function of the three
/// inputs, so calling it twice on equal inputs yields equal addresses.
pub fn derive_with_seed(base: &Address, seed: &str, owner: &Address) -> (r: Result<
    Address,
    DeriveError,
>)
    ensures
        r is Ok <==> (seed.spec_bytes().len() <= 32 && !owner_is_malformed(owner@)),
        r matches Ok(a) ==> a@ == seed_derived(base@, seed.spec_bytes(), owner@),
        r matches Err(e) ==> e == DeriveError::InvalidSeed,
{
    let seed_bytes: &[u8] = seed.as_bytes();
    if seed_bytes.len() > 32 {
        return Err(DeriveError::InvalidSeed);
    }
    if owner_malformed(owner) {
        return Err(DeriveError::InvalidSeed);
    }
    Ok(create_with_seed_raw(base, seed, owner))
}

/// The candidate program-derived address for (seeds, bump, program):
/// `Some` of the derived address when the digest of the seeds, the bump
/// byte and the program id falls off the signing-key curve, `None` when
/// it lands on the curve or the seeds are unusable (more than 16 of them,
/// or one longer than 32 bytes).
pub uninterp spec fn pda_candidate(seeds: Seq<Seq<u8>>, bump: u8, program: Seq<u8>) -> Option<
    Seq<u8>,
>;

/// Relies on `solana_sdk::pubkey::Pubkey::create_program_address`, called
/// with the bump appended as a final one-byte seed: its result is a pure
/// function of (seeds, bump, program); every error it reports (too many
/// seeds, an over-long seed, or a candidate on the signing-key curve) is
/// returned here as `None`.
#[verifier::external_body]
fn pda_candidate_raw(seeds: &Vec<Vec<u8>>, bump: u8, program: &Address) -> (r: Option<Address>)
    ensures
        r is Some <==> pda_candidate(seeds.deep_view(), bump, program@) is Some,
        r matches Some(a) ==> pda_candidate(seeds.deep_view(), bump, program@) == Some(a@),
{
    let p = solana_sdk::pubkey::Pubkey::new_from_array(program.bytes);
    let mut refs: Vec<&[u8]> = seeds.iter().map(|s| s.as_slice()).collect();
    let bump_arr = [bump];
    refs.push(&bump_arr);
    match solana_sdk::pubkey::Pubkey::create_program_address(&refs, &p) {
        Ok(a) => Some(Address { bytes: a.to_bytes() }),
        Err(_) => None,
    }
}

/// Searches bump values from 255 down to 1 for the first whose candidate
/// derivation is valid (off the signing-key curve), returning that address
/// and bump; fails with `NoValidAddress` when no bump in that range works.
///
/// The result is a pure function of (seeds, program): the returned bump is
/// the greatest one with a valid candidate, so two calls on equal inputs
/// agree.
pub fn find_program_address(seeds: &Vec<Vec<u8>>, program: &Address) -> (r: Result<
    (Address, u8),
    DeriveError,
>)
    ensures
        r is Ok <==> exists|b: u8|
            1 <= b && pda_candidate(seeds.deep_view(), b, program@) is Some,
        r matches Ok(p) ==> {
            &&& 1 <= p.1
            &&& pda_candidate(seeds.deep_view(), p.1, program@) == Some(p.0@)
            &&& forall|b: u8| b > p.1 ==> pda_candidate(seeds.deep_view(), b, program@) is None
        },
        r matches Err(e) ==> e == DeriveError::NoValidAddress,
{
    let mut bump: u8 = 255;
    loop
        invariant
            1 <= bump <= 255,
            forall|b: u8| b > bump ==> pda_candidate(seeds.deep_view(), b, program@) is None,
        decreases bump,
    {
        match pda_candidate_raw(seeds, bump, program) {
            Some(a) => {
                return Ok((a, bump));
            },
            None => {},
        }
        if bump == 1 {
            return Err(DeriveError::NoValidAddress);
        }
        bump = bump - 1;
    }
}

/// Deterministic bump search: any two results that both satisfy the
/// contract of the program-address search for the same seeds and program
/// — a valid candidate at their bump, none at any greater bump — are the
/// same address and the same bump.
pub proof fn lemma_find_program_address_deterministic(
    seeds: Seq<Seq<u8>>,
    program: Seq<u8>,
    addr1: Seq<u8>,
    bump1: u8,
    addr2: Seq<u8>,
    bump2: u8,
)
    requires
        pda_candidate(seeds, bump1, program) == Some(addr1),
        forall|b: u8| b > bump1 ==> pda_candidate(seeds, b, program) is None,
        pda_candidate(seeds, bump2, program) == Some(addr2),
        forall|b: u8| b > bump2 ==> pda_candidate(seeds, b, program) is None,
    ensures
        bump1 == bump2,
        addr1 == addr2,
{
    if bump1 < bump2 {
        assert(pda_candidate(seeds, bump2, program) is None);
    }
    if bump2 < bump1 {
        assert(pda_candidate(seeds, bump1, program) is None);
    }
}

/// The address of the derived token account that `wallet` holds for
/// `mint` under `token_program`.
pub uninterp spec fn ata_of(wallet: Seq<u8>, token_program: Seq<u8>, mint: Seq<u8>) -> Seq<u8>;

/// Relies on
/// `spl_associated_token_account::get_associated_token_address_with_program_id`:
/// the result is a pure function of (wallet, token program, mint) — the
/// program-derived address of those seeds under the derived-token-account
/// program, at the greatest valid bump. On a seed set with no valid bump
/// — statistically impossible — the library aborts rather than answer.
#[verifier::external_body]
fn ata_raw(wallet: &Address, mint: &Address, token_program: &Address) -> (r: Address)
    ensures
        r@ == ata_of(wallet@, token_program@, mint@),
{
    let a = spl_associated_token_account::get_associated_token_address_with_program_id(
        &solana_sdk::pubkey::Pubkey::new_from_array(wallet.bytes),
        &solana_sdk::pubkey::Pubkey::new_from_array(mint.bytes),
        &solana_sdk::pubkey::Pubkey::new_from_array(token_program.bytes),
    );
    Address { bytes: a.to_bytes() }
}

/// The deterministic address of the derived token account that `wallet`
/// holds for `mint` under `token_program`: a pure function of the three
/// inputs, so two calls on equal inputs yield the same address.
pub fn derived_token_account_address(
    wallet: &Address,
    mint: &Address,
    token_program: &Address,
) -> (r: Address)
    ensures
        r@ == ata_of(wallet@, token_program@, mint@),
{
    ata_raw(wallet, mint, token_program)
}

} // verus!
