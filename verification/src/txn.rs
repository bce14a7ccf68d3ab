//! Signing an assembled message. The message is serialized to a canonical
//! byte string by a verified serializer, and each required signer of the
//! message — in the message's own order — is matched to one supplied key,
//! whose signature over exactly those bytes is recorded.

use vstd::prelude::*;
use crate::addr::{Address, addr_eq};
use crate::errors::SignError;
use crate::instr::{AccountRef, Instruction, le_bytes};
use crate::message::Message;

verus! {

/// A signing key, held as the 32-byte secret seed it is derived from.
#[derive(Clone, Copy, Debug)]
pub struct SigningKey {
    pub seed: [u8; 32],
}

/// The address of the key derived from a 32-byte secret seed.
pub uninterp spec fn key_address(seed: Seq<u8>) -> Seq<u8>;

/// The 64-byte signature that the key with the given seed produces over
/// the given message bytes.
pub uninterp spec fn signed_by(seed: Seq<u8>, msg: Seq<u8>) -> Seq<u8>;

/// Relies on `solana_sdk::signer::keypair::keypair_from_seed` (which
/// accepts every 32-byte seed) and `Signer::pubkey`: the address is a pure
/// function of the seed.
#[verifier::external_body]
fn key_address_raw(key: &SigningKey) -> (r: Address)
    ensures
        r@ == key_address(key.seed@),
{
    let kp = solana_sdk::signer::keypair::keypair_from_seed(&key.seed).unwrap();
    Address { bytes: solana_sdk::signer::Signer::pubkey(&kp).to_bytes() }
}

/// Relies on `Signer::sign_message` over `keypair_from_seed`: the
/// signature is deterministic — a pure function of the seed and the
/// message bytes — and is 64 bytes long.
#[verifier::external_body]
fn sign_message_raw(key: &SigningKey, msg: &Vec<u8>) -> (r: Vec<u8>)
    ensures
        r@ == signed_by(key.seed@, msg@),
        r@.len() == 64,
{
    let kp = solana_sdk::signer::keypair::keypair_from_seed(&key.seed).unwrap();
    let sig = solana_sdk::signer::Signer::sign_message(&kp, msg.as_slice());
    let bytes: &[u8] = sig.as_ref();
    bytes.to_vec()
}

/// The address of the signing key with the given seed.
pub fn signer_address(key: &SigningKey) -> (r: Address)
    ensures
        r@ == key_address(key.seed@),
{
    key_address_raw(key)
}

/// The serialization of one account entry: its address, then one byte for
/// each flag.
pub open spec fn ser_account(a: AccountRef) -> Seq<u8> {
    a.addr@ + seq![
        if a.is_signer {
            1u8
        } else {
            0u8
        },
        if a.is_writable {
            1u8
        } else {
            0u8
        },
    ]
}

/// The serialization of an account list, in order.
pub open spec fn ser_accounts(s: Seq<AccountRef>) -> Seq<u8>
    decreases s.len(),
{
    if s.len() == 0 {
        Seq::empty()
    } else {
        ser_accounts(s.drop_last()) + ser_account(s.last())
    }
}

/// The serialization of one instruction: its program id, its
/// length-prefixed account list, and its length-prefixed data.
pub open spec fn ser_instruction(ix: Instruction) -> Seq<u8> {
    ix.program_id@ + le_bytes(ix.accounts@.len(), 8) + ser_accounts(ix.accounts@) + le_bytes(
        ix.data@.len(),
        8,
    ) + ix.data@
}

/// The serialization of an instruction list, in order.
pub open spec fn ser_instructions(s: Seq<Instruction>) -> Seq<u8>
    decreases s.len(),
{
    if s.len() == 0 {
        Seq::empty()
    } else {
        ser_instructions(s.drop_last()) + ser_instruction(s.last())
    }
}

/// The canonical byte string of a message, the exact bytes every
/// signature covers: the length-prefixed account list, the recent block
/// reference, and the length-prefixed instruction list.
pub open spec fn message_bytes(m: Message) -> Seq<u8> {
    le_bytes(m.account_keys@.len(), 8) + ser_accounts(m.account_keys@) + m.recent_blockhash@
        + le_bytes(m.instructions@.len(), 8) + ser_instructions(m.instructions@)
}

/// Appends the little-endian encoding of `n` in `len` bytes.
fn push_le(out: &mut Vec<u8>, n: u64, len: usize)
    ensures
        final(out)@ == old(out)@ + le_bytes(n as nat, len as nat),
    decreases len,
{
    if len == 0 {
        proof {
            assert(old(out)@ + le_bytes(n as nat, 0) =~= old(out)@);
        }
        return ;
    }
    out.push((n % 256) as u8);
    push_le(out, n / 256, len - 1);
    proof {
        assert(out@ =~= old(out)@ + le_bytes(n as nat, len as nat));
    }
}

/// Appends the serialization of every account entry, in order.
fn push_accounts(out: &mut Vec<u8>, accounts: &Vec<AccountRef>)
    ensures
        final(out)@ == old(out)@ + ser_accounts(accounts@),
{
    let mut i: usize = 0;
    while i < accounts.len()
        invariant
            i <= accounts@.len(),
            out@ == old(out)@ + ser_accounts(accounts@.take(i as int)),
        decreases accounts@.len() - i,
    {
        let a = accounts[i];
        out.extend_from_slice(a.addr.bytes.as_slice());
        out.push(if a.is_signer { 1 } else { 0 });
        out.push(if a.is_writable { 1 } else { 0 });
        proof {
            let ii = i as int;
            assert(accounts@.take(ii + 1).drop_last() =~= accounts@.take(ii));
            assert(accounts@.take(ii + 1).last() == accounts@[ii]);
            assert(out@ =~= old(out)@ + ser_accounts(accounts@.take(ii + 1)));
        }
        i += 1;
    }
    proof {
        assert(accounts@.take(accounts@.len() as int) =~= accounts@);
    }
}

/// Appends the serialization of one instruction.
fn push_instruction(out: &mut Vec<u8>, ix: &Instruction)
    ensures
        final(out)@ == old(out)@ + ser_instruction(*ix),
{
    out.extend_from_slice(ix.program_id.bytes.as_slice());
    push_le(out, ix.accounts.len() as u64, 8);
    push_accounts(out, &ix.accounts);
    push_le(out, ix.data.len() as u64, 8);
    out.extend_from_slice(ix.data.as_slice());
    proof {
        assert(out@ =~= old(out)@ + ser_instruction(*ix));
    }
}

/// Serializes a message to the canonical byte string that is signed.
pub fn serialize_message(msg: &Message) -> (r: Vec<u8>)
    ensures
        r@ == message_bytes(*msg),
{
    let mut out: Vec<u8> = Vec::new();
    push_le(&mut out, msg.account_keys.len() as u64, 8);
    push_accounts(&mut out, &msg.account_keys);
    out.extend_from_slice(msg.recent_blockhash.bytes.as_slice());
    push_le(&mut out, msg.instructions.len() as u64, 8);
    let ghost head = out@;
    let mut k: usize = 0;
    while k < msg.instructions.len()
        invariant
            k <= msg.instructions@.len(),
            out@ == head + ser_instructions(msg.instructions@.take(k as int)),
        decreases msg.instructions@.len() - k,
    {
        push_instruction(&mut out, &msg.instructions[k]);
        proof {
            let kk = k as int;
            assert(msg.instructions@.take(kk + 1).drop_last() =~= msg.instructions@.take(kk));
            assert(msg.instructions@.take(kk + 1).last() == msg.instructions@[kk]);
            assert(out@ =~= head + ser_instructions(msg.instructions@.take(kk + 1)));
        }
        k += 1;
    }
    proof {
        assert(msg.instructions@.take(msg.instructions@.len() as int) =~= msg.instructions@);
        assert(out@ =~= message_bytes(*msg));
    }
    out
}

/// The number of leading signer entries of an account list: with a
/// well-formed (partitioned) message, all of its required signers.
pub open spec fn signer_count(keys: Seq<AccountRef>) -> int
    decreases keys.len(),
{
    if keys.len() == 0 {
        0
    } else if !keys[0].is_signer {
        0
    } else {
        1 + signer_count(keys.drop_first())
    }
}

/// The leading-signer count is the position of the first non-signer.
proof fn lemma_signer_count_eq(keys: Seq<AccountRef>, i: int)
    requires
        0 <= i <= keys.len(),
        forall|j: int| 0 <= j < i ==> keys[j].is_signer,
        i < keys.len() ==> !keys[i].is_signer,
    ensures
        signer_count(keys) == i,
    decreases keys.len(),
{
    if keys.len() > 0 && i > 0 {
        assert(keys[0].is_signer);
        assert(forall|j: int| 0 <= j < i - 1 ==> keys.drop_first()[j] == keys[j + 1]);
        assert(i - 1 < keys.drop_first().len() ==> keys.drop_first()[i - 1] == keys[i]);
        lemma_signer_count_eq(keys.drop_first(), i - 1);
    }
}

/// In a message whose account classes are in non-decreasing order —
/// every assembled message — an entry is a signer exactly when it stands
/// in the leading signer block, so a signature list aligned to that block
/// covers every required signer of the message.
pub proof fn lemma_signers_lead(keys: Seq<AccountRef>)
    requires
        forall|i: int, j: int|
            0 <= i <= j < keys.len() ==> crate::message::class_of(keys[i])
                <= crate::message::class_of(keys[j]),
    ensures
        forall|j: int| 0 <= j < keys.len() ==> (keys[j].is_signer <==> j < signer_count(keys)),
    decreases keys.len(),
{
    if keys.len() > 0 {
        let rest = keys.drop_first();
        assert(forall|j: int| 0 <= j < rest.len() ==> rest[j] == keys[j + 1]);
        assert forall|i: int, j: int|
            0 <= i <= j < rest.len() implies crate::message::class_of(rest[i])
                <= crate::message::class_of(rest[j]) by {
            assert(rest[i] == keys[i + 1] && rest[j] == keys[j + 1]);
        }
        lemma_signers_lead(rest);
        if keys[0].is_signer {
            assert(signer_count(keys) == 1 + signer_count(rest));
            assert forall|j: int|
                0 <= j < keys.len() implies (keys[j].is_signer <==> j < signer_count(keys)) by {
                if j >= 1 {
                    assert(keys[j] == rest[j - 1]);
                }
            }
        }
        if !keys[0].is_signer {
            assert forall|j: int| 0 <= j < keys.len() implies !keys[j].is_signer by {
                assert(crate::message::class_of(keys[0]) <= crate::message::class_of(keys[j]));
            }
            assert(signer_count(keys) == 0);
        }
    }
}

/// Counts the leading signer entries of an account list.
fn count_signers(keys: &Vec<AccountRef>) -> (n: usize)
    ensures
        n == signer_count(keys@),
        n <= keys@.len(),
        forall|j: int| 0 <= j < n ==> keys@[j].is_signer,
{
    let mut i: usize = 0;
    while i < keys.len() && keys[i].is_signer
        invariant
            i <= keys@.len(),
            forall|j: int| 0 <= j < i ==> keys@[j].is_signer,
        decreases keys@.len() - i,
    {
        i += 1;
    }
    proof {
        lemma_signer_count_eq(keys@, i as int);
    }
    i
}

/// A message together with its signature list, aligned to the message's
/// leading signer entries.
#[derive(Debug)]
pub struct Transaction {
    pub message: Message,
    pub signatures: Vec<Vec<u8>>,
}

/// Position `s` of `sigs` carries the signature of some key of `keys`
/// whose address is the address of signer `s` of the message, over the
/// message's canonical bytes.
pub open spec fn sig_at(msg: Message, keys: Seq<SigningKey>, sigs: Seq<Seq<u8>>, s: int) -> bool {
    exists|k: int|
        0 <= k < keys.len() && #[trigger] key_address(keys[k].seed@) == msg.account_keys@[s].addr@
            && sigs[s] == signed_by(keys[k].seed@, message_bytes(msg))
}

/// The signature list `sigs` is exactly what signing `msg` with `keys`
/// must produce: one signature per required signer of the message, in the
/// message's own signer order, each produced over the message's canonical
/// bytes by a supplied key whose address is that signer's address.
pub open spec fn sig_list_matches(msg: Message, keys: Seq<SigningKey>, sigs: Seq<Seq<u8>>) -> bool {
    &&& sigs.len() == signer_count(msg.account_keys@)
    &&& forall|s: int| 0 <= s < sigs.len() ==> #[trigger] sig_at(msg, keys, sigs, s)
}

/// Attaches signatures to a message: for each leading signer entry of the
/// message's account list, in order, the first supplied key with that
/// address signs the message's canonical bytes. Fails with
/// `MissingSigner` — before anything touches the network — exactly when
/// some required signer has no matching key.
pub fn sign(message: Message, keys: &Vec<SigningKey>) -> (r: Result<Transaction, SignError>)
    ensures
        r is Ok <==> (forall|s: int|
            #![trigger message.account_keys@[s]]
            0 <= s < signer_count(message.account_keys@) ==> exists|k: int|
                0 <= k < keys@.len() && #[trigger] key_address(keys@[k].seed@)
                    == message.account_keys@[s].addr@),
        r matches Ok(tx) ==> tx.message == message && sig_list_matches(
            message,
            keys@,
            tx.signatures.deep_view(),
        ),
        r matches Err(e) ==> e == SignError::MissingSigner,
{
    let msg_bytes = serialize_message(&message);
    let n = count_signers(&message.account_keys);
    let mut sigs: Vec<Vec<u8>> = Vec::new();
    let mut s: usize = 0;
    while s < n
        invariant
            n == signer_count(message.account_keys@),
            n <= message.account_keys@.len(),
            msg_bytes@ == message_bytes(message),
            s <= n,
            sigs@.len() == s,
            forall|s2: int| 0 <= s2 < s ==> #[trigger] sig_at(
                message,
                keys@,
                sigs.deep_view(),
                s2,
            ),
        decreases n - s,
    {
        let target = message.account_keys[s].addr;
        let mut k: usize = 0;
        let mut found: usize = keys.len();
        while k < keys.len()
            invariant
                k <= keys@.len(),
                found == keys@.len() || (found < k && key_address(keys@[found as int].seed@)
                    == target@),
                found == keys@.len() ==> forall|k2: int|
                    0 <= k2 < k ==> key_address(keys@[k2].seed@) != target@,
            decreases keys@.len() - k,
        {
            if found == keys.len() {
                let ka = signer_address(&keys[k]);
                if addr_eq(&ka, &target) {
                    found = k;
                }
            }
            k += 1;
        }
        if found == keys.len() {
            proof {
                assert(!(exists|k2: int|
                    0 <= k2 < keys@.len() && #[trigger] key_address(keys@[k2].seed@)
                        == message.account_keys@[s as int].addr@));
            }
            return Err(SignError::MissingSigner);
        }
        let sig = sign_message_raw(&keys[found], &msg_bytes);
        let ghost prev = sigs.deep_view();
        sigs.push(sig);
        proof {
            let dv = sigs.deep_view();
            assert(dv.len() == prev.len() + 1);
            assert(forall|s2: int| 0 <= s2 < prev.len() ==> dv[s2] == prev[s2]);
            assert(dv[s as int] == sig@);
            assert forall|s2: int| 0 <= s2 < s + 1 implies #[trigger] sig_at(
                message,
                keys@,
                dv,
                s2,
            ) by {
                if s2 < s {
                    assert(sig_at(message, keys@, prev, s2));
                    let k2 = choose|k2: int|
                        0 <= k2 < keys@.len() && #[trigger] key_address(keys@[k2].seed@)
                            == message.account_keys@[s2].addr@ && prev[s2] == signed_by(
                            keys@[k2].seed@,
                            message_bytes(message),
                        );
                    assert(dv[s2] == prev[s2]);
                    assert(0 <= k2 < keys@.len() && key_address(keys@[k2].seed@)
                        == message.account_keys@[s2].addr@ && dv[s2] == signed_by(
                        keys@[k2].seed@,
                        message_bytes(message),
                    ));
                    assert(sig_at(message, keys@, dv, s2));
                } else {
                    assert(dv[s2] == sig@);
                    assert(0 <= found < keys@.len());
                    assert(key_address(keys@[found as int].seed@)
                        == message.account_keys@[s2].addr@);
                    assert(dv[s2] == signed_by(keys@[found as int].seed@, message_bytes(message)));
                    assert(sig_at(message, keys@, dv, s2));
                }
            }
        }
        s += 1;
    }
    proof {
        assert forall|s2: int|
            #![trigger message.account_keys@[s2]]
            0 <= s2 < signer_count(message.account_keys@) implies exists|k: int|
                0 <= k < keys@.len() && #[trigger] key_address(keys@[k].seed@)
                    == message.account_keys@[s2].addr@ by {
            assert(sig_at(message, keys@, sigs.deep_view(), s2));
            let k = choose|k: int|
                0 <= k < keys@.len() && #[trigger] key_address(keys@[k].seed@)
                    == message.account_keys@[s2].addr@ && sigs.deep_view()[s2] == signed_by(
                    keys@[k].seed@,
                    message_bytes(message),
                );
            assert(key_address(keys@[k].seed@) == message.account_keys@[s2].addr@);
        }
    }
    Ok(Transaction { message, signatures: sigs })
}

/// Assembles an ordered instruction list into a message under the given
/// fee payer and block reference, then signs it, in one step. Fails with
/// `MissingSigner` exactly when some required signer of the assembled
/// message has no matching key.
pub fn build_signed(
    instructions: Vec<Instruction>,
    fee_payer: &Address,
    recent_blockhash: crate::message::Blockhash,
    keys: &Vec<SigningKey>,
) -> (r: Result<Transaction, SignError>)
    ensures
        r matches Ok(tx) ==> crate::message::assembled_from(
            tx.message,
            instructions@,
            fee_payer@,
            recent_blockhash@,
        ) && sig_list_matches(tx.message, keys@, tx.signatures.deep_view()),
        r matches Err(e) ==> e == SignError::MissingSigner,
{
    let message = crate::message::assemble(instructions, fee_payer, recent_blockhash);
    sign(message, keys)
}

/// Signature alignment is a function of the message alone: two key lists
/// that both cover a message's required signers, and that agree on the
/// seed behind every shared address, produce the same signature list —
/// the order in which the keys were supplied does not matter.
pub proof fn lemma_signature_alignment(
    msg: Message,
    keys1: Seq<SigningKey>,
    keys2: Seq<SigningKey>,
    sigs1: Seq<Seq<u8>>,
    sigs2: Seq<Seq<u8>>,
)
    requires
        sig_list_matches(msg, keys1, sigs1),
        sig_list_matches(msg, keys2, sigs2),
        forall|k1: int, k2: int|
            0 <= k1 < keys1.len() && 0 <= k2 < keys2.len() && #[trigger] key_address(
                keys1[k1].seed@,
            ) == #[trigger] key_address(keys2[k2].seed@) ==> keys1[k1].seed@ == keys2[k2].seed@,
    ensures
        sigs1 == sigs2,
{
    assert forall|s: int| 0 <= s < sigs1.len() implies sigs1[s] == sigs2[s] by {
        assert(sig_at(msg, keys1, sigs1, s));
        assert(sig_at(msg, keys2, sigs2, s));
        let k1 = choose|k: int|
            0 <= k < keys1.len() && #[trigger] key_address(keys1[k].seed@)
                == msg.account_keys@[s].addr@ && sigs1[s] == signed_by(
                keys1[k].seed@,
                message_bytes(msg),
            );
        let k2 = choose|k: int|
            0 <= k < keys2.len() && #[trigger] key_address(keys2[k].seed@)
                == msg.account_keys@[s].addr@ && sigs2[s] == signed_by(
                keys2[k].seed@,
                message_bytes(msg),
            );
        assert(key_address(keys1[k1].seed@) == key_address(keys2[k2].seed@));
        assert(keys1[k1].seed@ == keys2[k2].seed@);
    }
    assert(sigs1 =~= sigs2);
}

} // verus!
