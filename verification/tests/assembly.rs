use txengine::addr::Address;
use txengine::instr;
use txengine::message::{assemble, Blockhash};

fn addr(b: u8) -> Address {
    Address { bytes: [b; 32] }
}

fn hash(b: u8) -> Blockhash {
    Blockhash { bytes: [b; 32] }
}

#[test]
fn assemble_partitions_accounts_in_order() {
    let payer = addr(1);
    let a = addr(2);
    let b = addr(3);
    let mint = addr(4);
    let dest = addr(5);
    let authority = addr(6);
    let ix1 = instr::transfer(&a, &b, 10);
    let ix2 = instr::mint_to_checked(&mint, &dest, &authority, 100, 2);
    let msg = assemble(vec![ix1, ix2], &payer, hash(9));

    let keys = &msg.account_keys;
    // writable signers first (fee payer leading), then read-only signers,
    // then writable non-signers, then read-only non-signers
    assert_eq!(keys[0].addr.bytes, payer.bytes);
    assert_eq!(keys[1].addr.bytes, a.bytes);
    assert_eq!(keys[2].addr.bytes, authority.bytes);
    assert_eq!(keys[3].addr.bytes, b.bytes);
    assert_eq!(keys[4].addr.bytes, mint.bytes);
    assert_eq!(keys[5].addr.bytes, dest.bytes);
    assert_eq!(keys.len(), 6);
    assert!(keys[0].is_signer && keys[0].is_writable);
    assert!(keys[1].is_signer && keys[1].is_writable);
    assert!(keys[2].is_signer && !keys[2].is_writable);
    assert!(!keys[3].is_signer && keys[3].is_writable);
    assert!(!keys[4].is_signer && keys[4].is_writable);
    assert!(!keys[5].is_signer && keys[5].is_writable);
    assert_eq!(msg.recent_blockhash.bytes, [9; 32]);
}

#[test]
fn assemble_deduplicates_and_merges_flags() {
    let payer = addr(1);
    let a = addr(2);
    let b = addr(3);
    // b is a plain recipient in the first transfer and the paying signer
    // in the second: one entry, with both flags set
    let ix1 = instr::transfer(&a, &b, 10);
    let ix2 = instr::transfer(&b, &a, 20);
    let msg = assemble(vec![ix1, ix2], &payer, hash(0));
    assert_eq!(msg.account_keys.len(), 3);
    assert_eq!(msg.account_keys[0].addr.bytes, payer.bytes);
    for k in msg.account_keys.iter() {
        // the payer signs, and each of a and b signs some transfer
        assert!(k.is_writable);
        assert!(k.is_signer);
    }
    let count_a = msg
        .account_keys
        .iter()
        .filter(|k| k.addr.bytes == a.bytes)
        .count();
    assert_eq!(count_a, 1);
}

#[test]
fn assemble_keeps_instruction_order_and_repetition() {
    let payer = addr(1);
    let w = addr(2);
    let ix1 = instr::create_account(&payer, &w, 100, 0, &addr(0));
    let ix2 = instr::transfer(&payer, &w, 5);
    let ix3 = instr::transfer(&payer, &w, 5);
    let msg = assemble(vec![ix1, ix2, ix3], &payer, hash(0));
    // never reordered, never deduplicated: an instruction repeated twice
    // executes twice
    assert_eq!(msg.instructions.len(), 3);
    assert_eq!(&msg.instructions[0].data[0..4], &[0, 0, 0, 0]);
    assert_eq!(&msg.instructions[1].data[0..4], &[2, 0, 0, 0]);
    assert_eq!(msg.instructions[1].data, msg.instructions[2].data);
}

#[test]
fn assemble_orders_create_before_initialize_when_given_so() {
    // an initialize-mint depends on the create-account before it in the
    // same transaction; the assembler keeps exactly the order it is given
    let payer = addr(1);
    let mint = addr(4);
    let create = instr::create_account(
        &payer,
        &mint,
        1000,
        instr::MINT_ACCOUNT_SIZE,
        &txengine::ids::token_program_address(),
    );
    let init = instr::initialize_mint(&mint, &payer, Some(&payer), 2);
    let msg = assemble(vec![create, init], &payer, hash(0));
    assert_eq!(&msg.instructions[0].data[0..4], &[0, 0, 0, 0]);
    assert_eq!(msg.instructions[1].data[0], 20);

    let swapped = assemble(
        vec![
            instr::initialize_mint(&mint, &payer, Some(&payer), 2),
            instr::create_account(
                &payer,
                &mint,
                1000,
                instr::MINT_ACCOUNT_SIZE,
                &txengine::ids::token_program_address(),
            ),
        ],
        &payer,
        hash(0),
    );
    assert_eq!(swapped.instructions[0].data[0], 20);
}

#[test]
fn assemble_with_no_instructions_holds_only_the_payer() {
    let payer = addr(1);
    let msg = assemble(vec![], &payer, hash(2));
    assert_eq!(msg.account_keys.len(), 1);
    assert_eq!(msg.account_keys[0].addr.bytes, payer.bytes);
    assert!(msg.account_keys[0].is_signer && msg.account_keys[0].is_writable);
}
