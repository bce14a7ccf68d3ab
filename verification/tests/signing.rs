use txengine::addr::Address;
use txengine::errors::SignError;
use txengine::instr;
use txengine::message::{assemble, Blockhash};
use txengine::txn::{build_signed, serialize_message, sign, signer_address, SigningKey};

fn key(b: u8) -> SigningKey {
    SigningKey { seed: [b; 32] }
}

fn hash(b: u8) -> Blockhash {
    Blockhash { bytes: [b; 32] }
}

#[test]
fn signer_address_is_deterministic_and_not_the_seed() {
    let k = key(11);
    let a1 = signer_address(&k);
    let a2 = signer_address(&k);
    assert_eq!(a1.bytes, a2.bytes);
    assert_ne!(a1.bytes, k.seed);
}

#[test]
fn sign_orders_signatures_by_message_not_by_key_list() {
    let k1 = key(11);
    let k2 = key(22);
    let payer = signer_address(&k1);
    let second = signer_address(&k2);
    let recipient = Address { bytes: [9; 32] };
    let ix1 = instr::transfer(&payer, &recipient, 10);
    let ix2 = instr::transfer(&second, &recipient, 20);

    let msg_a = assemble(vec![ix1, ix2], &payer, hash(3));
    let tx_a = sign(msg_a, &vec![k1, k2]).unwrap();

    let ix1b = instr::transfer(&payer, &recipient, 10);
    let ix2b = instr::transfer(&second, &recipient, 20);
    let msg_b = assemble(vec![ix1b, ix2b], &payer, hash(3));
    let tx_b = sign(msg_b, &vec![k2, k1]).unwrap();

    assert_eq!(tx_a.signatures.len(), 2);
    assert_eq!(tx_a.signatures, tx_b.signatures);
}

#[test]
fn sign_covers_every_required_signer() {
    let k1 = key(11);
    let k2 = key(22);
    let payer = signer_address(&k1);
    let second = signer_address(&k2);
    let recipient = Address { bytes: [9; 32] };
    let ix1 = instr::transfer(&second, &recipient, 20);
    let msg = assemble(vec![ix1], &payer, hash(3));
    let tx = sign(msg, &vec![k2, k1]).unwrap();
    // two writable signers: the fee payer and the transfer source
    assert_eq!(tx.signatures.len(), 2);
    for s in tx.signatures.iter() {
        assert_eq!(s.len(), 64);
    }
}

#[test]
fn signatures_verify_over_the_serialized_message() {
    let k1 = key(11);
    let payer = signer_address(&k1);
    let recipient = Address { bytes: [9; 32] };
    let ix = instr::transfer(&payer, &recipient, 10);
    let msg = assemble(vec![ix], &payer, hash(3));
    let bytes = serialize_message(&msg);
    let tx = sign(msg, &vec![k1]).unwrap();
    assert_eq!(tx.signatures.len(), 1);
    let sig = solana_sdk::signature::Signature::try_from(tx.signatures[0].as_slice()).unwrap();
    assert!(sig.verify(&payer.bytes, &bytes));
    // a signature over different bytes does not verify
    let mut other = bytes.clone();
    other[0] ^= 1;
    assert!(!sig.verify(&payer.bytes, &other));
}

#[test]
fn sign_fails_without_a_matching_key() {
    let k1 = key(11);
    let k2 = key(22);
    let payer = signer_address(&k1);
    let second = signer_address(&k2);
    let recipient = Address { bytes: [9; 32] };
    let ix = instr::transfer(&second, &recipient, 20);
    let msg = assemble(vec![ix], &payer, hash(3));
    // k2 alone cannot cover the fee payer
    assert!(matches!(sign(msg, &vec![k2]), Err(SignError::MissingSigner)));
}

#[test]
fn serialized_message_layout() {
    let payer = Address { bytes: [1; 32] };
    let msg = assemble(vec![], &payer, hash(7));
    let bytes = serialize_message(&msg);
    // one account: 8-byte count, 34-byte entry, 32-byte block reference,
    // 8-byte instruction count
    assert_eq!(bytes.len(), 8 + 34 + 32 + 8);
    assert_eq!(&bytes[0..8], &1u64.to_le_bytes());
    assert_eq!(&bytes[8..40], &[1; 32]);
    assert_eq!(&bytes[40..42], &[1, 1]); // fee payer signs and is writable
    assert_eq!(&bytes[42..74], &[7; 32]);
    assert_eq!(&bytes[74..82], &0u64.to_le_bytes());
}

#[test]
fn distinct_blockhashes_give_distinct_transactions() {
    let k1 = key(11);
    let payer = signer_address(&k1);
    let recipient = Address { bytes: [9; 32] };
    let m1 = assemble(vec![instr::transfer(&payer, &recipient, 10)], &payer, hash(3));
    let m2 = assemble(vec![instr::transfer(&payer, &recipient, 10)], &payer, hash(4));
    let t1 = sign(m1, &vec![k1]).unwrap();
    let t2 = sign(m2, &vec![k1]).unwrap();
    // a fresh block reference produces a distinct transaction identity
    assert_ne!(t1.signatures, t2.signatures);
}

#[test]
fn build_signed_equals_assemble_then_sign() {
    let k1 = key(11);
    let payer = signer_address(&k1);
    let recipient = Address { bytes: [9; 32] };
    let one = build_signed(
        vec![instr::transfer(&payer, &recipient, 10)],
        &payer,
        hash(3),
        &vec![k1],
    )
    .unwrap();
    let msg = assemble(vec![instr::transfer(&payer, &recipient, 10)], &payer, hash(3));
    let two = sign(msg, &vec![k1]).unwrap();
    assert_eq!(one.signatures, two.signatures);
    assert_eq!(
        serialize_message(&one.message),
        serialize_message(&two.message)
    );
}
