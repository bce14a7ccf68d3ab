//! Assembling an ordered list of instructions into a single signable
//! message: the account references of all instructions are deduplicated
//! and partitioned into writable signers, read-only signers, writable
//! non-signers and read-only non-signers, in that order, with the fee
//! payer first; the instruction sequence itself is kept exactly as given.

use vstd::prelude::*;
use crate::addr::{Address, addr_eq};
use crate::instr::{AccountRef, Instruction};

verus! {

/// A recent block reference, used as a replay-protection nonce and an
/// expiry mechanism.
#[derive(Clone, Copy, Debug)]
pub struct Blockhash {
    pub bytes: [u8; 32],
}

impl View for Blockhash {
    type V = Seq<u8>;

    open spec fn view(&self) -> Seq<u8> {
        self.bytes@
    }
}

/// The partition class of an account entry: writable signers first (0),
/// then read-only signers (1), writable non-signers (2), and read-only
/// non-signers (3).
pub open spec fn class_of(a: AccountRef) -> int {
    if a.is_signer && a.is_writable {
        0
    } else if a.is_signer {
        1
    } else if a.is_writable {
        2
    } else {
        3
    }
}

/// Some entry of `refs` names `addr`.
pub open spec fn addr_in(refs: Seq<AccountRef>, addr: Seq<u8>) -> bool {
    exists|t: int| 0 <= t < refs.len() && refs[t].addr@ == addr
}

/// Some entry of `refs` names `addr` as a signer.
pub open spec fn signer_in(refs: Seq<AccountRef>, addr: Seq<u8>) -> bool {
    exists|t: int| 0 <= t < refs.len() && refs[t].addr@ == addr && refs[t].is_signer
}

/// Some entry of `refs` names `addr` as writable.
pub open spec fn writable_in(refs: Seq<AccountRef>, addr: Seq<u8>) -> bool {
    exists|t: int| 0 <= t < refs.len() && refs[t].addr@ == addr && refs[t].is_writable
}

/// Some instruction of `ixs` mentions `addr`.
pub open spec fn mentioned(ixs: Seq<Instruction>, addr: Seq<u8>) -> bool {
    exists|k: int| 0 <= k < ixs.len() && addr_in(ixs[k].accounts@, addr)
}

/// Some instruction of `ixs` mentions `addr` as a signer.
pub open spec fn mentioned_signer(ixs: Seq<Instruction>, addr: Seq<u8>) -> bool {
    exists|k: int| 0 <= k < ixs.len() && signer_in(ixs[k].accounts@, addr)
}

/// Some instruction of `ixs` mentions `addr` as writable.
pub open spec fn mentioned_writable(ixs: Seq<Instruction>, addr: Seq<u8>) -> bool {
    exists|k: int| 0 <= k < ixs.len() && writable_in(ixs[k].accounts@, addr)
}

/// No two entries of `refs` name the same address.
pub open spec fn distinct_addrs(refs: Seq<AccountRef>) -> bool {
    forall|j1: int, j2: int| 0 <= j1 < j2 < refs.len() ==> refs[j1].addr@ != refs[j2].addr@
}

/// `a` is one of the account references of some instruction of `ixs`.
pub open spec fn ref_from(ixs: Seq<Instruction>, a: AccountRef) -> bool {
    exists|k: int, i: int|
        0 <= k < ixs.len() && 0 <= i < ixs[k].accounts@.len() && ixs[k].accounts@[i] == a
}

/// `a` is one of the entries of `refs`.
pub open spec fn refs_contain(refs: Seq<AccountRef>, a: AccountRef) -> bool {
    exists|t: int| 0 <= t < refs.len() && refs[t] == a
}

/// An ordered, deduplicated account list, the instruction sequence, and a
/// recent block reference.
#[derive(Debug)]
pub struct Message {
    pub account_keys: Vec<AccountRef>,
    pub instructions: Vec<Instruction>,
    pub recent_blockhash: Blockhash,
}

impl Message {
    /// The structural invariant every assembled message has: a non-empty
    /// account list whose first entry is a writable signer (the fee
    /// payer), with no address repeated and the partition classes in
    /// non-decreasing order.
    pub open spec fn wf(&self) -> bool {
        &&& self.account_keys@.len() >= 1
        &&& self.account_keys@[0].is_signer
        &&& self.account_keys@[0].is_writable
        &&& distinct_addrs(self.account_keys@)
        &&& forall|i: int, j: int|
            0 <= i <= j < self.account_keys@.len() ==> class_of(self.account_keys@[i]) <= class_of(
                self.account_keys@[j],
            )
    }

    /// The fee payer's address: the first account of the message.
    pub open spec fn fee_payer(&self) -> Seq<u8> {
        self.account_keys@[0].addr@
    }
}

/// Collects the account references of all instructions, in order.
fn flatten_refs(instructions: &Vec<Instruction>) -> (refs: Vec<AccountRef>)
    ensures
        forall|t: int| 0 <= t < refs@.len() ==> ref_from(instructions@, refs@[t]),
        forall|k: int, i: int|
            0 <= k < instructions@.len() && 0 <= i < instructions@[k].accounts@.len()
                ==> refs_contain(refs@, instructions@[k].accounts@[i]),
{
    let mut refs: Vec<AccountRef> = Vec::new();
    let mut k: usize = 0;
    while k < instructions.len()
        invariant
            k <= instructions@.len(),
            forall|t: int| 0 <= t < refs@.len() ==> ref_from(instructions@, refs@[t]),
            forall|k2: int, i2: int|
                0 <= k2 < k && 0 <= i2 < instructions@[k2].accounts@.len() ==> refs_contain(
                    refs@,
                    instructions@[k2].accounts@[i2],
                ),
        decreases instructions@.len() - k,
    {
        let accounts = &instructions[k].accounts;
        let mut i: usize = 0;
        while i < accounts.len()
            invariant
                k < instructions@.len(),
                accounts@ == instructions@[k as int].accounts@,
                i <= accounts@.len(),
                forall|t: int| 0 <= t < refs@.len() ==> ref_from(instructions@, refs@[t]),
                forall|k2: int, i2: int|
                    0 <= k2 < k && 0 <= i2 < instructions@[k2].accounts@.len() ==> refs_contain(
                        refs@,
                        instructions@[k2].accounts@[i2],
                    ),
                forall|i2: int|
                    0 <= i2 < i ==> refs_contain(refs@, instructions@[k as int].accounts@[i2]),
            decreases accounts@.len() - i,
        {
            let a = accounts[i];
            let ghost prev = refs@;
            refs.push(a);
            proof {
                assert(ref_from(instructions@, a)) by {
                    assert(instructions@[k as int].accounts@[i as int] == a);
                }
                assert(refs@[prev.len() as int] == a);
                assert forall|k2: int, i2: int|
                    0 <= k2 < k && 0 <= i2 < instructions@[k2].accounts@.len()
                        implies refs_contain(refs@, instructions@[k2].accounts@[i2]) by {
                    let t = choose|t: int|
                        0 <= t < prev.len() && prev[t] == instructions@[k2].accounts@[i2];
                    assert(refs@[t] == prev[t]);
                }
                assert forall|i2: int|
                    0 <= i2 < i + 1 implies refs_contain(
                        refs@,
                        instructions@[k as int].accounts@[i2],
                    ) by {
                    if i2 < i {
                        let t = choose|t: int|
                            0 <= t < prev.len() && prev[t] == instructions@[k as int].accounts@[i2];
                        assert(refs@[t] == prev[t]);
                    } else {
                        assert(refs@[prev.len() as int] == instructions@[k as int].accounts@[i2]);
                    }
                }
            }
            i += 1;
        }
        k += 1;
    }
    refs
}

/// How each mention predicate changes when one reference is appended.
proof fn lemma_mentions_push(s: Seq<AccountRef>, x: AccountRef, addr: Seq<u8>)
    ensures
        addr_in(s.push(x), addr) == (addr_in(s, addr) || x.addr@ == addr),
        signer_in(s.push(x), addr) == (signer_in(s, addr) || (x.addr@ == addr && x.is_signer)),
        writable_in(s.push(x), addr) == (writable_in(s, addr) || (x.addr@ == addr
            && x.is_writable)),
{
    let p = s.push(x);
    assert(p[s.len() as int] == x);
    assert(forall|w: int| 0 <= w < s.len() ==> p[w] == s[w]);
    if addr_in(p, addr) {
        let w = choose|w: int| 0 <= w < p.len() && p[w].addr@ == addr;
        if w < s.len() {
            assert(s[w].addr@ == addr);
        }
    }
    if signer_in(p, addr) {
        let w = choose|w: int| 0 <= w < p.len() && p[w].addr@ == addr && p[w].is_signer;
        if w < s.len() {
            assert(s[w].addr@ == addr && s[w].is_signer);
        }
    }
    if writable_in(p, addr) {
        let w = choose|w: int| 0 <= w < p.len() && p[w].addr@ == addr && p[w].is_writable;
        if w < s.len() {
            assert(s[w].addr@ == addr && s[w].is_writable);
        }
    }
    if addr_in(s, addr) {
        let w = choose|w: int| 0 <= w < s.len() && s[w].addr@ == addr;
        assert(p[w].addr@ == addr);
    }
    if signer_in(s, addr) {
        let w = choose|w: int| 0 <= w < s.len() && s[w].addr@ == addr && s[w].is_signer;
        assert(p[w].addr@ == addr && p[w].is_signer);
    }
    if writable_in(s, addr) {
        let w = choose|w: int| 0 <= w < s.len() && s[w].addr@ == addr && s[w].is_writable;
        assert(p[w].addr@ == addr && p[w].is_writable);
    }
}

/// A signer or writable mention is in particular a mention.
proof fn lemma_mention_weaken(s: Seq<AccountRef>, addr: Seq<u8>)
    ensures
        signer_in(s, addr) ==> addr_in(s, addr),
        writable_in(s, addr) ==> addr_in(s, addr),
{
    if signer_in(s, addr) {
        let w = choose|w: int| 0 <= w < s.len() && s[w].addr@ == addr && s[w].is_signer;
        assert(s[w].addr@ == addr);
    }
    if writable_in(s, addr) {
        let w = choose|w: int| 0 <= w < s.len() && s[w].addr@ == addr && s[w].is_writable;
        assert(s[w].addr@ == addr);
    }
}

/// Merges a flat reference list into a deduplicated account list headed by
/// the fee payer, with each account's flags the disjunction of every
/// mention of it (the fee payer is always a writable signer).
fn merge_refs(fee_payer: &Address, refs: &Vec<AccountRef>) -> (merged: Vec<AccountRef>)
    ensures
        merged@.len() >= 1,
        merged@[0].addr@ == fee_payer@,
        merged@[0].is_signer,
        merged@[0].is_writable,
        distinct_addrs(merged@),
        forall|j: int|
            0 <= j < merged@.len() ==> merged@[j].is_signer == (merged@[j].addr@ == fee_payer@
                || signer_in(refs@, merged@[j].addr@)),
        forall|j: int|
            0 <= j < merged@.len() ==> merged@[j].is_writable == (merged@[j].addr@ == fee_payer@
                || writable_in(refs@, merged@[j].addr@)),
        forall|j: int|
            1 <= j < merged@.len() ==> addr_in(refs@, merged@[j].addr@) && merged@[j].addr@
                != fee_payer@,
        forall|t: int| 0 <= t < refs@.len() ==> addr_in(merged@, refs@[t].addr@),
{
    let mut merged: Vec<AccountRef> = Vec::new();
    merged.push(AccountRef { addr: *fee_payer, is_signer: true, is_writable: true });
    let mut t: usize = 0;
    while t < refs.len()
        invariant
            t <= refs@.len(),
            merged@.len() >= 1,
            merged@[0].addr@ == fee_payer@,
            merged@[0].is_signer,
            merged@[0].is_writable,
            distinct_addrs(merged@),
            forall|j: int|
                0 <= j < merged@.len() ==> merged@[j].is_signer == (merged@[j].addr@ == fee_payer@
                    || signer_in(refs@.take(t as int), merged@[j].addr@)),
            forall|j: int|
                0 <= j < merged@.len() ==> merged@[j].is_writable == (merged@[j].addr@
                    == fee_payer@ || writable_in(refs@.take(t as int), merged@[j].addr@)),
            forall|j: int|
                1 <= j < merged@.len() ==> addr_in(refs@.take(t as int), merged@[j].addr@)
                    && merged@[j].addr@ != fee_payer@,
            forall|u: int| 0 <= u < t ==> addr_in(merged@, refs@[u].addr@),
        decreases refs@.len() - t,
    {
        let ghost pre = merged@;
        let ghost tt = t as int;
        let a = refs[t];
        let n = merged.len();
        let mut j: usize = 0;
        let mut idx: usize = n;
        while j < n
            invariant
                n == merged@.len(),
                j <= n,
                idx == n || (idx < n && merged@[idx as int].addr@ == a.addr@),
                idx == n ==> forall|j2: int| 0 <= j2 < j ==> merged@[j2].addr@ != a.addr@,
            decreases n - j,
        {
            if idx == n && addr_eq(&merged[j].addr, &a.addr) {
                idx = j;
            }
            j += 1;
        }
        proof {
            assert(refs@.take(tt + 1) =~= refs@.take(tt).push(refs@[tt]));
            assert(a == refs@[tt]);
        }
        if idx < n {
            let e = merged[idx];
            let updated = AccountRef {
                addr: e.addr,
                is_signer: e.is_signer || a.is_signer,
                is_writable: e.is_writable || a.is_writable,
            };
            merged[idx] = updated;
            proof {
                let m = merged@;
                assert(m =~= pre.update(idx as int, updated));
                assert forall|jj: int| 0 <= jj < m.len() implies m[jj].is_signer == (m[jj].addr@
                    == fee_payer@ || signer_in(refs@.take(tt + 1), m[jj].addr@)) && m[jj].is_writable
                    == (m[jj].addr@ == fee_payer@ || writable_in(
                    refs@.take(tt + 1),
                    m[jj].addr@,
                )) by {
                    lemma_mentions_push(refs@.take(tt), refs@[tt], m[jj].addr@);
                    if jj != idx {
                        assert(m[jj] == pre[jj]);
                        assert(pre[jj].addr@ != pre[idx as int].addr@);
                    }
                }
                assert forall|jj: int|
                    1 <= jj < m.len() implies addr_in(refs@.take(tt + 1), m[jj].addr@)
                        && m[jj].addr@ != fee_payer@ by {
                    lemma_mentions_push(refs@.take(tt), refs@[tt], m[jj].addr@);
                    if jj != idx {
                        assert(m[jj] == pre[jj]);
                    } else {
                        assert(m[jj].addr@ == pre[jj].addr@);
                    }
                }
                assert(addr_in(merged@, refs@[tt].addr@)) by {
                    assert(merged@[idx as int].addr@ == refs@[tt].addr@);
                }
                assert forall|u: int| 0 <= u < tt + 1 implies addr_in(merged@, refs@[u].addr@) by {
                    if u < tt {
                        let w = choose|w: int| 0 <= w < pre.len() && pre[w].addr@ == refs@[u].addr@;
                        assert(m[w].addr@ == pre[w].addr@);
                    }
                }
            }
        } else {
            let fresh = AccountRef {
                addr: a.addr,
                is_signer: a.is_signer,
                is_writable: a.is_writable,
            };
            merged.push(fresh);
            proof {
                let m = merged@;
                let newj = m.len() - 1;
                assert(forall|j2: int| 0 <= j2 < newj ==> m[j2] == pre[j2]);
                assert(forall|j2: int| 0 <= j2 < newj ==> m[j2].addr@ != a.addr@);
                // the fresh address was never seen before this position
                assert(!addr_in(refs@.take(tt), a.addr@)) by {
                    if addr_in(refs@.take(tt), a.addr@) {
                        let w = choose|w: int|
                            0 <= w < refs@.take(tt).len() && refs@.take(tt)[w].addr@ == a.addr@;
                        assert(refs@[w].addr@ == a.addr@);
                        assert(addr_in(pre, refs@[w].addr@));
                        let v = choose|v: int| 0 <= v < pre.len() && pre[v].addr@ == refs@[w].addr@;
                        assert(false);
                    }
                }
                assert forall|jj: int| 0 <= jj < m.len() implies m[jj].is_signer == (m[jj].addr@
                    == fee_payer@ || signer_in(refs@.take(tt + 1), m[jj].addr@)) && m[jj].is_writable
                    == (m[jj].addr@ == fee_payer@ || writable_in(
                    refs@.take(tt + 1),
                    m[jj].addr@,
                )) by {
                    lemma_mentions_push(refs@.take(tt), refs@[tt], m[jj].addr@);
                    lemma_mention_weaken(refs@.take(tt), m[jj].addr@);
                    if jj == newj {
                        assert(m[jj] == fresh);
                        assert(m[jj].addr@ != fee_payer@) by {
                            assert(pre[0].addr@ == fee_payer@);
                        }
                    } else {
                        assert(m[jj] == pre[jj]);
                    }
                }
                assert forall|jj: int|
                    1 <= jj < m.len() implies addr_in(refs@.take(tt + 1), m[jj].addr@)
                        && m[jj].addr@ != fee_payer@ by {
                    lemma_mentions_push(refs@.take(tt), refs@[tt], m[jj].addr@);
                    if jj == newj {
                        assert(m[jj].addr@ == refs@[tt].addr@);
                        assert(pre[0].addr@ == fee_payer@);
                    } else {
                        assert(m[jj] == pre[jj]);
                    }
                }
                assert(addr_in(merged@, refs@[tt].addr@)) by {
                    assert(merged@[newj].addr@ == refs@[tt].addr@);
                }
                assert forall|u: int| 0 <= u < tt + 1 implies addr_in(merged@, refs@[u].addr@) by {
                    if u < tt {
                        let w = choose|w: int| 0 <= w < pre.len() && pre[w].addr@ == refs@[u].addr@;
                        assert(m[w].addr@ == pre[w].addr@);
                    }
                }
                assert(distinct_addrs(m)) by {
                    assert forall|j1: int, j2: int|
                        0 <= j1 < j2 < m.len() implies m[j1].addr@ != m[j2].addr@ by {
                        if j2 == newj {
                            assert(m[j1].addr@ != a.addr@);
                        }
                    }
                }
            }
        }
        t += 1;
    }
    proof {
        assert(refs@.take(refs@.len() as int) =~= refs@);
    }
    merged
}

/// Appends to `out`, in order, every entry of `merged` whose flags are
/// exactly (`signer`, `writable`).
fn push_class(merged: &Vec<AccountRef>, out: &mut Vec<AccountRef>, signer: bool, writable: bool)
    requires
        distinct_addrs(merged@),
    ensures
        final(out)@.len() >= old(out)@.len(),
        forall|t: int| 0 <= t < old(out)@.len() ==> final(out)@[t] == old(out)@[t],
        forall|t: int|
            old(out)@.len() <= t < final(out)@.len() ==> final(out)@[t].is_signer == signer
                && final(out)@[t].is_writable == writable,
        forall|t: int|
            old(out)@.len() <= t < final(out)@.len() ==> refs_contain(merged@, final(out)@[t]),
        forall|j: int|
            0 <= j < merged@.len() && merged@[j].is_signer == signer && merged@[j].is_writable
                == writable ==> exists|t: int|
                old(out)@.len() <= t < final(out)@.len() && final(out)@[t] == merged@[j],
        forall|t1: int, t2: int|
            old(out)@.len() <= t1 < t2 < final(out)@.len() ==> final(out)@[t1].addr@
                != final(out)@[t2].addr@,
        (old(out)@.len() == 0 && merged@.len() > 0 && merged@[0].is_signer == signer && merged@[
            0
        ].is_writable == writable) ==> (final(out)@.len() > 0 && final(out)@[0] == merged@[0]),
{
    let ghost init = old(out)@;
    let mut i: usize = 0;
    while i < merged.len()
        invariant
            i <= merged@.len(),
            distinct_addrs(merged@),
            out@.len() >= init.len(),
            forall|t: int| 0 <= t < init.len() ==> out@[t] == init[t],
            forall|t: int|
                init.len() <= t < out@.len() ==> out@[t].is_signer == signer
                    && out@[t].is_writable == writable,
            forall|t: int| #![trigger out@[t]]
                init.len() <= t < out@.len() ==> exists|j: int|
                    0 <= j < i && #[trigger] merged@[j] == out@[t],
            forall|j: int|
                0 <= j < i && merged@[j].is_signer == signer && merged@[j].is_writable == writable
                    ==> exists|t: int|
                    init.len() <= t < out@.len() && #[trigger] out@[t] == merged@[j],
            forall|t1: int, t2: int|
                init.len() <= t1 < t2 < out@.len() ==> out@[t1].addr@ != out@[t2].addr@,
            (init.len() == 0 && i > 0 && merged@[0].is_signer == signer && merged@[0].is_writable
                == writable) ==> (out@.len() > 0 && out@[0] == merged@[0]),
        decreases merged@.len() - i,
    {
        let m = merged[i];
        let ghost prev = out@;
        if m.is_signer == signer && m.is_writable == writable {
            out.push(m);
            proof {
                assert forall|t: int|
                    init.len() <= t < prev.len() implies prev[t].addr@ != m.addr@ by {
                    let j = choose|j: int| 0 <= j < i && #[trigger] merged@[j] == prev[t];
                    assert(merged@[j].addr@ != merged@[i as int].addr@);
                }
                assert(out@[prev.len() as int] == merged@[i as int]);
            }
        }
        proof {
            assert forall|t: int| #![trigger out@[t]]
                init.len() <= t < out@.len() implies exists|j: int|
                    0 <= j < i + 1 && #[trigger] merged@[j] == out@[t] by {
                if t < prev.len() {
                    let j = choose|j: int| 0 <= j < i && #[trigger] merged@[j] == prev[t];
                    assert(merged@[j] == out@[t]);
                } else {
                    assert(merged@[i as int] == out@[t]);
                }
            }
            assert forall|j: int|
                0 <= j < i + 1 && merged@[j].is_signer == signer && merged@[j].is_writable
                    == writable implies exists|t: int|
                    init.len() <= t < out@.len() && #[trigger] out@[t] == merged@[j] by {
                if j < i {
                    let t = choose|t: int|
                        init.len() <= t < prev.len() && #[trigger] prev[t] == merged@[j];
                    assert(out@[t] == merged@[j]);
                } else {
                    assert(out@[prev.len() as int] == merged@[j]);
                }
            }
        }
        i += 1;
    }
    proof {
        assert forall|t: int| init.len() <= t < out@.len() implies refs_contain(merged@, out@[t]) by {
            let j = choose|j: int| 0 <= j < merged@.len() && #[trigger] merged@[j] == out@[t];
            assert(merged@[j] == out@[t]);
        }
    }
}

/// The full relation between an assembled message and what it was
/// assembled from: the message is well-formed, keeps the instruction
/// sequence and block reference exactly, leads with the fee payer, lists
/// every account any instruction mentions and nothing else, and gives
/// each account its signer and writable flags exactly when the fee payer
/// or some mention demands them.
pub open spec fn assembled_from(
    msg: Message,
    ixs: Seq<Instruction>,
    fee_payer: Seq<u8>,
    blockhash: Seq<u8>,
) -> bool {
    &&& msg.wf()
    &&& msg.instructions@ == ixs
    &&& msg.recent_blockhash@ == blockhash
    &&& msg.fee_payer() == fee_payer
    &&& forall|k: int, i: int|
        0 <= k < ixs.len() && 0 <= i < ixs[k].accounts@.len() ==> addr_in(
            msg.account_keys@,
            ixs[k].accounts@[i].addr@,
        )
    &&& forall|j: int|
        0 <= j < msg.account_keys@.len() ==> msg.account_keys@[j].is_signer == (
        msg.account_keys@[j].addr@ == fee_payer || mentioned_signer(
            ixs,
            msg.account_keys@[j].addr@,
        ))
    &&& forall|j: int|
        0 <= j < msg.account_keys@.len() ==> msg.account_keys@[j].is_writable == (
        msg.account_keys@[j].addr@ == fee_payer || mentioned_writable(
            ixs,
            msg.account_keys@[j].addr@,
        ))
    &&& forall|j: int|
        0 <= j < msg.account_keys@.len() ==> (msg.account_keys@[j].addr@ == fee_payer
            || mentioned(ixs, msg.account_keys@[j].addr@))
}

/// Assembles an ordered list of instructions, a fee payer and a recent
/// block reference into a single signable message.
///
/// The instruction sequence is kept exactly as given — assembly never
/// reorders, deduplicates or validates instructions, so an instruction
/// may rely on state created by an earlier one in the same list. The
/// account list is deduplicated, partitioned as writable signers,
/// read-only signers, writable non-signers, read-only non-signers — in
/// that order — with the fee payer as the first account; each account is
/// a signer (or writable) exactly when some instruction mentions it so,
/// or it is the fee payer.
pub fn assemble(instructions: Vec<Instruction>, fee_payer: &Address, recent_blockhash: Blockhash) -> (msg:
    Message)
    ensures
        assembled_from(msg, instructions@, fee_payer@, recent_blockhash@),
{
    let refs = flatten_refs(&instructions);
    let merged = merge_refs(fee_payer, &refs);
    let mut keys: Vec<AccountRef> = Vec::new();
    push_class(&merged, &mut keys, true, true);
    let ghost n1 = keys@.len() as int;
    let ghost s1 = keys@;
    push_class(&merged, &mut keys, true, false);
    let ghost n2 = keys@.len() as int;
    let ghost s2 = keys@;
    push_class(&merged, &mut keys, false, true);
    let ghost n3 = keys@.len() as int;
    let ghost s3 = keys@;
    push_class(&merged, &mut keys, false, false);
    proof {
        let ks = keys@;
        let ixs = instructions@;
        // every key entry is some merged entry, and its class matches its block
        assert forall|t: int| 0 <= t < ks.len() implies refs_contain(merged@, ks[t]) by {
            if t < n1 {
                assert(ks[t] == s1[t] && refs_contain(merged@, s1[t]));
            } else if t < n2 {
                assert(ks[t] == s2[t] && refs_contain(merged@, s2[t]));
            } else if t < n3 {
                assert(ks[t] == s3[t] && refs_contain(merged@, s3[t]));
            }
        }
        // classes are non-decreasing: block membership fixes the class
        assert forall|i: int, j: int|
            0 <= i <= j < ks.len() implies class_of(ks[i]) <= class_of(ks[j]) by {
            assert(0 <= i < n1 ==> class_of(ks[i]) == 0);
            assert(n1 <= i < n2 ==> class_of(ks[i]) == 1);
            assert(n2 <= i < n3 ==> class_of(ks[i]) == 2);
            assert(n3 <= i < ks.len() ==> class_of(ks[i]) == 3);
            assert(0 <= j < n1 ==> class_of(ks[j]) == 0);
            assert(n1 <= j < n2 ==> class_of(ks[j]) == 1);
            assert(n2 <= j < n3 ==> class_of(ks[j]) == 2);
            assert(n3 <= j < ks.len() ==> class_of(ks[j]) == 3);
        }
        // every merged entry appears among the keys
        assert forall|j: int| 0 <= j < merged@.len() implies refs_contain(ks, merged@[j]) by {
            let m = merged@[j];
            if m.is_signer && m.is_writable {
                let t = choose|t: int| 0 <= t < n1 && s1[t] == m;
                assert(ks[t] == m);
            } else if m.is_signer {
                let t = choose|t: int| n1 <= t < n2 && s2[t] == m;
                assert(ks[t] == m);
            } else if m.is_writable {
                let t = choose|t: int| n2 <= t < n3 && s3[t] == m;
                assert(ks[t] == m);
            } else {
                let t = choose|t: int| n3 <= t < ks.len() && ks[t] == m;
                assert(ks[t] == m);
            }
        }
        // distinct addresses: entries from the same block are distinct by
        // the block's own guarantee; entries from different blocks have
        // different flags, so they are different merged entries
        assert forall|t1: int, t2: int|
            0 <= t1 < t2 < ks.len() implies ks[t1].addr@ != ks[t2].addr@ by {
            let j1 = choose|j: int| 0 <= j < merged@.len() && merged@[j] == ks[t1];
            let j2 = choose|j: int| 0 <= j < merged@.len() && merged@[j] == ks[t2];
            if j1 != j2 {
                assert(merged@[j1].addr@ != merged@[j2].addr@);
            } else {
                assert(ks[t1] == ks[t2]);
                assert(class_of(ks[t1]) == class_of(ks[t2]));
                if t1 < n1 {
                    assert(t2 < n1);
                } else if t1 < n2 {
                    assert(n1 <= t2 < n2);
                } else if t1 < n3 {
                    assert(n2 <= t2 < n3);
                }
                assert(false);
            }
        }
        // the fee payer is first: merged[0] is a writable signer, so the
        // first block starts with it
        assert(ks[0] == merged@[0]);
        // flags and origin transfer from the merge through the reference
        // list back to the instructions
        assert forall|j: int|
            0 <= j < ks.len() implies ks[j].is_signer == (ks[j].addr@ == fee_payer@
                || mentioned_signer(ixs, ks[j].addr@)) by {
            let m = choose|w: int| 0 <= w < merged@.len() && merged@[w] == ks[j];
            if ks[j].addr@ != fee_payer@ {
                if signer_in(refs@, ks[j].addr@) {
                    let u = choose|u: int|
                        0 <= u < refs@.len() && refs@[u].addr@ == ks[j].addr@ && refs@[u].is_signer;
                    let (k2, i2) = choose|k2: int, i2: int|
                        0 <= k2 < ixs.len() && 0 <= i2 < ixs[k2].accounts@.len()
                            && ixs[k2].accounts@[i2] == refs@[u];
                    assert(signer_in(ixs[k2].accounts@, ks[j].addr@));
                    assert(mentioned_signer(ixs, ks[j].addr@));
                }
                if mentioned_signer(ixs, ks[j].addr@) {
                    let k2 = choose|k2: int|
                        0 <= k2 < ixs.len() && signer_in(ixs[k2].accounts@, ks[j].addr@);
                    let i2 = choose|i2: int|
                        0 <= i2 < ixs[k2].accounts@.len() && ixs[k2].accounts@[i2].addr@
                            == ks[j].addr@ && ixs[k2].accounts@[i2].is_signer;
                    assert(refs_contain(refs@, ixs[k2].accounts@[i2]));
                    let u = choose|u: int|
                        0 <= u < refs@.len() && refs@[u] == ixs[k2].accounts@[i2];
                    assert(signer_in(refs@, ks[j].addr@));
                }
            }
        }
        assert forall|j: int|
            0 <= j < ks.len() implies ks[j].is_writable == (ks[j].addr@ == fee_payer@
                || mentioned_writable(ixs, ks[j].addr@)) by {
            let m = choose|w: int| 0 <= w < merged@.len() && merged@[w] == ks[j];
            if ks[j].addr@ != fee_payer@ {
                if writable_in(refs@, ks[j].addr@) {
                    let u = choose|u: int|
                        0 <= u < refs@.len() && refs@[u].addr@ == ks[j].addr@
                            && refs@[u].is_writable;
                    let (k2, i2) = choose|k2: int, i2: int|
                        0 <= k2 < ixs.len() && 0 <= i2 < ixs[k2].accounts@.len()
                            && ixs[k2].accounts@[i2] == refs@[u];
                    assert(writable_in(ixs[k2].accounts@, ks[j].addr@));
                    assert(mentioned_writable(ixs, ks[j].addr@));
                }
                if mentioned_writable(ixs, ks[j].addr@) {
                    let k2 = choose|k2: int|
                        0 <= k2 < ixs.len() && writable_in(ixs[k2].accounts@, ks[j].addr@);
                    let i2 = choose|i2: int|
                        0 <= i2 < ixs[k2].accounts@.len() && ixs[k2].accounts@[i2].addr@
                            == ks[j].addr@ && ixs[k2].accounts@[i2].is_writable;
                    assert(refs_contain(refs@, ixs[k2].accounts@[i2]));
                    let u = choose|u: int|
                        0 <= u < refs@.len() && refs@[u] == ixs[k2].accounts@[i2];
                    assert(writable_in(refs@, ks[j].addr@));
                }
            }
        }
        assert forall|j: int|
            0 <= j < ks.len() implies (ks[j].addr@ == fee_payer@ || mentioned(
                ixs,
                ks[j].addr@,
            )) by {
            let m = choose|w: int| 0 <= w < merged@.len() && merged@[w] == ks[j];
            if ks[j].addr@ != fee_payer@ {
                assert(merged@[m].addr@ != fee_payer@);
                assert(m >= 1) by {
                    assert(merged@[0].addr@ == fee_payer@);
                }
                assert(addr_in(refs@, ks[j].addr@));
                let u = choose|u: int| 0 <= u < refs@.len() && refs@[u].addr@ == ks[j].addr@;
                let (k2, i2) = choose|k2: int, i2: int|
                    0 <= k2 < ixs.len() && 0 <= i2 < ixs[k2].accounts@.len()
                        && ixs[k2].accounts@[i2] == refs@[u];
                assert(addr_in(ixs[k2].accounts@, ks[j].addr@));
            }
        }
        assert forall|k: int, i: int|
            0 <= k < ixs.len() && 0 <= i < ixs[k].accounts@.len() implies addr_in(
                ks,
                ixs[k].accounts@[i].addr@,
            ) by {
            assert(refs_contain(refs@, ixs[k].accounts@[i]));
            let u = choose|u: int| 0 <= u < refs@.len() && refs@[u] == ixs[k].accounts@[i];
            assert(addr_in(merged@, refs@[u].addr@));
            let w = choose|w: int| 0 <= w < merged@.len() && merged@[w].addr@ == refs@[u].addr@;
            assert(refs_contain(ks, merged@[w]));
            let v = choose|v: int| 0 <= v < ks.len() && ks[v] == merged@[w];
            assert(ks[v].addr@ == ixs[k].accounts@[i].addr@);
        }
    }
    Message { account_keys: keys, instructions, recent_blockhash }
}

} // verus!
