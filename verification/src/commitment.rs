//! The state commitment: an order-independent digest of the entire account
//! set.
//!
//! Each (identifier, record) pair has a 64-bit leaf digest; the commitment is
//! the exclusive-or of all leaf digests. Exclusive-or is commutative and
//! associative, so the commitment is a function of the set of pairs alone —
//! it cannot depend on enumeration order, insertion history or the container
//! that holds the accounts.

use vstd::prelude::*;

use crate::account::{AccountId, AccountView, L2Account};
use crate::assoc::{keys_unique, map_of, lemma_map_of_index, lemma_map_of_contains};

verus! {

/// One mixing round: rotate the accumulator and fold in a word.
pub open spec fn mix_step(acc: u64, x: u64) -> u64 {
    ((acc << 13) | (acc >> 51)) ^ x
}

/// Folds a byte string into the accumulator, left to right.
pub open spec fn mix_bytes(acc: u64, data: Seq<u8>) -> u64
    decreases data.len(),
{
    if data.len() == 0 {
        acc
    } else {
        mix_bytes(mix_step(acc, data[0] as u64), data.drop_first())
    }
}

/// The leaf digest of one (identifier, record) pair.
pub open spec fn leaf_digest(id: AccountId, a: AccountView) -> u64 {
    let h = mix_step(0x6a09e667f3bcc908, id.w0);
    let h = mix_step(h, id.w1);
    let h = mix_step(h, id.w2);
    let h = mix_step(h, id.w3);
    let h = mix_step(h, a.lamports);
    let h = mix_step(h, a.owner.w0);
    let h = mix_step(h, a.owner.w1);
    let h = mix_step(h, a.owner.w2);
    let h = mix_step(h, a.owner.w3);
    let h = mix_step(
        h,
        if a.executable {
            1u64
        } else {
            0u64
        },
    );
    let h = mix_step(h, a.rent_epoch);
    let h = mix_step(h, a.data.len() as u64);
    mix_bytes(h, a.data)
}

/// The commitment over a ledger: the exclusive-or of the leaf digests of all
/// its (identifier, record) pairs.
pub open spec fn commitment_of(m: Map<AccountId, AccountView>) -> u64 {
    m.kv_pairs().fold(0u64, |acc: u64, kv: (AccountId, AccountView)| acc ^ leaf_digest(kv.0, kv.1))
}

/// One mixing round, executable.
pub fn mix_step_exec(acc: u64, x: u64) -> (r: u64)
    ensures
        r == mix_step(acc, x),
{
    ((acc << 13u64) | (acc >> 51u64)) ^ x
}

/// The leaf digest, executable.
pub fn leaf_digest_exec(id: &AccountId, a: &L2Account) -> (r: u64)
    ensures
        r == leaf_digest(*id, a@),
{
    let mut h: u64 = mix_step_exec(0x6a09e667f3bcc908, id.w0);
    h = mix_step_exec(h, id.w1);
    h = mix_step_exec(h, id.w2);
    h = mix_step_exec(h, id.w3);
    h = mix_step_exec(h, a.lamports);
    h = mix_step_exec(h, a.owner.w0);
    h = mix_step_exec(h, a.owner.w1);
    h = mix_step_exec(h, a.owner.w2);
    h = mix_step_exec(h, a.owner.w3);
    h = mix_step_exec(h, if a.executable { 1u64 } else { 0u64 });
    h = mix_step_exec(h, a.rent_epoch);
    h = mix_step_exec(h, a.data.len() as u64);
    proof {
        assert(a.data@.skip(0) =~= a.data@);
    }
    let mut i: usize = 0;
    while i < a.data.len()
        invariant
            i <= a.data@.len(),
            mix_bytes(h, a.data@.skip(i as int)) == leaf_digest(*id, a@),
        decreases a.data@.len() - i,
    {
        proof {
            assert(a.data@.skip(i as int).drop_first() =~= a.data@.skip(i as int + 1));
            assert(a.data@.skip(i as int)[0] == a.data@[i as int]);
        }
        h = mix_step_exec(h, a.data[i] as u64);
        i = i + 1;
    }
    proof {
        assert(a.data@.skip(a.data@.len() as int) =~= Seq::<u8>::empty());
    }
    h
}


/// The folding function of the commitment.
pub open spec fn xor_leaf() -> spec_fn(u64, (AccountId, AccountView)) -> u64 {
    |acc: u64, kv: (AccountId, AccountView)| acc ^ leaf_digest(kv.0, kv.1)
}

pub proof fn lemma_xor_leaf_commutative()
    ensures
        vstd::set::fold::is_fun_commutative(xor_leaf()),
{
    assert(forall|b: u64, x: u64, y: u64| ((b ^ x) ^ y) == ((b ^ y) ^ x)) by (bit_vector);
}

pub proof fn lemma_kv_pairs_finite(m: Map<AccountId, AccountView>)
    requires
        m.dom().finite(),
    ensures
        m.kv_pairs().finite(),
{
    let fwd = |k: AccountId| (k, m[k]);
    let rev = |kv: (AccountId, AccountView)| kv.0;
    assert(m.kv_pairs() =~= m.dom().map_by(fwd, rev));
    m.dom().lemma_map_by_finite(fwd, rev);
}

/// The commitment of the empty ledger is zero.
pub proof fn lemma_commitment_empty()
    ensures
        commitment_of(Map::empty()) == 0,
{
    let m = Map::<AccountId, AccountView>::empty();
    assert(m.kv_pairs() =~= Set::empty());
    vstd::set::fold::lemma_fold_empty(0u64, xor_leaf());
}

/// Inserting a fresh pair folds its leaf digest into the commitment.
pub proof fn lemma_commitment_insert(m: Map<AccountId, AccountView>, k: AccountId, v: AccountView)
    requires
        m.dom().finite(),
        !m.contains_key(k),
    ensures
        commitment_of(m.insert(k, v)) == commitment_of(m) ^ leaf_digest(k, v),
{
    lemma_xor_leaf_commutative();
    lemma_kv_pairs_finite(m);
    assert(m.insert(k, v).kv_pairs() =~= m.kv_pairs().insert((k, v)));
    assert(!m.kv_pairs().contains((k, v)));
    vstd::set::fold::lemma_fold_insert(m.kv_pairs(), 0u64, xor_leaf(), (k, v));
    assert(commitment_of(m.insert(k, v)) == xor_leaf()(commitment_of(m), (k, v)));
}

/// Removing a present pair takes its leaf digest back out.
pub proof fn lemma_commitment_remove(m: Map<AccountId, AccountView>, k: AccountId)
    requires
        m.dom().finite(),
        m.contains_key(k),
    ensures
        commitment_of(m.remove(k)) == commitment_of(m) ^ leaf_digest(k, m[k]),
{
    let mr = m.remove(k);
    assert(mr.dom() =~= m.dom().remove(k));
    lemma_commitment_insert(mr, k, m[k]);
    assert(mr.insert(k, m[k]) =~= m);
    let c = commitment_of(mr);
    let l = leaf_digest(k, m[k]);
    assert(c == (c ^ l) ^ l) by (bit_vector);
}

/// How the commitment moves when one record is written: the old leaf (if the
/// identifier was present) leaves the digest, the new leaf enters it.
pub proof fn lemma_commitment_update(m: Map<AccountId, AccountView>, k: AccountId, v: AccountView)
    requires
        m.dom().finite(),
    ensures
        commitment_of(m.insert(k, v)) == commitment_of(m) ^ (if m.contains_key(k) {
            leaf_digest(k, m[k])
        } else {
            0u64
        }) ^ leaf_digest(k, v),
{
    if m.contains_key(k) {
        lemma_commitment_remove(m, k);
        let mr = m.remove(k);
        assert(mr.dom() =~= m.dom().remove(k));
        lemma_commitment_insert(mr, k, v);
        assert(mr.insert(k, v) =~= m.insert(k, v));
    } else {
        lemma_commitment_insert(m, k, v);
        let c = commitment_of(m);
        let l = leaf_digest(k, v);
        assert(c ^ l == (c ^ 0u64) ^ l) by (bit_vector);
    }
}

/// With unique keys, an association list's map holds exactly its pairs.
pub proof fn lemma_map_of_pairs(entries: Seq<(AccountId, AccountView)>, k: AccountId, v: AccountView)
    requires
        keys_unique(entries),
    ensures
        map_of(entries).contains_pair(k, v) <==> entries.contains((k, v)),
{
    if map_of(entries).contains_pair(k, v) {
        lemma_map_of_contains(entries, k);
        let i = choose|i: int| 0 <= i < entries.len() && (#[trigger] entries[i]).0 == k;
        lemma_map_of_index(entries, i);
        assert(entries[i] == (k, v));
    }
    if entries.contains((k, v)) {
        let i = choose|i: int| 0 <= i < entries.len() && entries[i] == (k, v);
        lemma_map_of_index(entries, i);
    }
}

/// Commitment order-independence: two histories that insert the same set of
/// (identifier, record) pairs — in any two orders — give ledgers with the
/// same commitment.
pub proof fn lemma_commitment_order_independent(
    entries1: Seq<(AccountId, AccountView)>,
    entries2: Seq<(AccountId, AccountView)>,
)
    requires
        keys_unique(entries1),
        keys_unique(entries2),
        entries1.to_set() == entries2.to_set(),
    ensures
        commitment_of(map_of(entries1)) == commitment_of(map_of(entries2)),
{
    let m1 = map_of(entries1);
    let m2 = map_of(entries2);
    assert forall|k: AccountId| #[trigger] m1.dom().contains(k) implies m2.dom().contains(k)
        && m1[k] == m2[k] by {
        lemma_map_of_pairs(entries1, k, m1[k]);
        lemma_map_of_pairs(entries2, k, m1[k]);
        assert(entries1.to_set().contains((k, m1[k])));
        assert(m2.contains_pair(k, m1[k]));
    }
    assert forall|k: AccountId| #[trigger] m2.dom().contains(k) implies m1.dom().contains(k) by {
        lemma_map_of_pairs(entries2, k, m2[k]);
        lemma_map_of_pairs(entries1, k, m2[k]);
        assert(entries2.to_set().contains((k, m2[k])));
        assert(m1.contains_pair(k, m2[k]));
    }
    assert(m1 =~= m2);
}

} // verus!
