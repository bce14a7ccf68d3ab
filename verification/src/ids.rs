//! The well-known program addresses the engine builds instructions for.
//! Each is a fixed 32-byte protocol constant, written out here and checked
//! by tests against the libraries that publish them.

use vstd::prelude::*;
use crate::addr::Address;

verus! {

/// The system program's address: 32 zero bytes.
pub open spec fn system_program_id() -> Seq<u8> {
    Seq::new(32, |i: int| 0u8)
}

/// The token program's address.
pub open spec fn token_program_id() -> Seq<u8> {
    seq![
        6u8, 221u8, 246u8, 225u8, 215u8, 101u8, 161u8, 147u8, 217u8, 203u8, 225u8, 70u8,
        206u8, 235u8, 121u8, 172u8, 28u8, 180u8, 133u8, 237u8, 95u8, 91u8, 55u8, 145u8,
        58u8, 140u8, 245u8, 133u8, 126u8, 255u8, 0u8, 169u8,
    ]
}

/// The derived-token-account program's address.
pub open spec fn ata_program_id() -> Seq<u8> {
    seq![
        140u8, 151u8, 37u8, 143u8, 78u8, 36u8, 137u8, 241u8, 187u8, 61u8, 16u8, 41u8,
        20u8, 142u8, 13u8, 131u8, 11u8, 90u8, 19u8, 153u8, 218u8, 255u8, 16u8, 132u8,
        4u8, 142u8, 123u8, 216u8, 219u8, 233u8, 248u8, 89u8,
    ]
}

/// The token-metadata program's address.
pub open spec fn metadata_program_id() -> Seq<u8> {
    seq![
        11u8, 112u8, 101u8, 177u8, 227u8, 209u8, 124u8, 69u8, 56u8, 157u8, 82u8, 127u8,
        107u8, 4u8, 195u8, 205u8, 88u8, 184u8, 108u8, 115u8, 26u8, 160u8, 253u8, 181u8,
        73u8, 182u8, 209u8, 188u8, 3u8, 248u8, 41u8, 70u8,
    ]
}

/// The system program's address as a value.
pub fn system_program_address() -> (r: Address)
    ensures
        r@ == system_program_id(),
{
    let a = Address { bytes: [0; 32] };
    proof {
        assert(a@ =~= system_program_id());
    }
    a
}

/// The token program's address as a value.
pub fn token_program_address() -> (r: Address)
    ensures
        r@ == token_program_id(),
{
    let a = Address {
        bytes: [
            6, 221, 246, 225, 215, 101, 161, 147, 217, 203, 225, 70, 206, 235, 121, 172,
            28, 180, 133, 237, 95, 91, 55, 145, 58, 140, 245, 133, 126, 255, 0, 169,
        ],
    };
    proof {
        assert(a@ =~= token_program_id());
    }
    a
}

/// The derived-token-account program's address as a value.
pub fn ata_program_address() -> (r: Address)
    ensures
        r@ == ata_program_id(),
{
    let a = Address {
        bytes: [
            140, 151, 37, 143, 78, 36, 137, 241, 187, 61, 16, 41, 20, 142, 13, 131, 11,
            90, 19, 153, 218, 255, 16, 132, 4, 142, 123, 216, 219, 233, 248, 89,
        ],
    };
    proof {
        assert(a@ =~= ata_program_id());
    }
    a
}

/// The token-metadata program's address as a value.
pub fn metadata_program_address() -> (r: Address)
    ensures
        r@ == metadata_program_id(),
{
    let a = Address {
        bytes: [
            11, 112, 101, 177, 227, 209, 124, 69, 56, 157, 82, 127, 107, 4, 195, 205, 88,
            184, 108, 115, 26, 160, 253, 181, 73, 182, 209, 188, 3, 248, 41, 70,
        ],
    };
    proof {
        assert(a@ =~= metadata_program_id());
    }
    a
}

} // verus!
