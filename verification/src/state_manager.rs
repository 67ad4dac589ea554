//! The ledger store: a read-through cache over a durable layer of encoded
//! records, with a running state commitment.
//!
//! The durable layer is authoritative for the ledger's content; the cache
//! holds decoded records and never disagrees with it. Every record that
//! enters the durable layer is a well-formed encoding, so a read can always
//! decode what it finds.

use vstd::prelude::*;

use crate::account::{AccountId, AccountView, L2Account};
use crate::assoc::{find_index, keys_unique, lemma_map_of_contains, lemma_map_of_dom_finite,
    lemma_map_of_index, map_of, set_entry};
use crate::codec::{decode_account, decode_record, encode_record, lemma_codec_round_trip,
    push_u64_le, u64_le_bytes};
use crate::commitment::{commitment_of, lemma_commitment_empty, lemma_commitment_update,
    leaf_digest_exec};

verus! {

/// The bytes a 64-bit commitment presents as a 32-byte state root: the digest
/// little-endian, padded with zeroes.
pub open spec fn state_root_bytes(c: u64) -> Seq<u8> {
    u64_le_bytes(c) + Seq::new(24, |i: int| 0u8)
}

pub struct StateManager {
    cache: Vec<(AccountId, L2Account)>,
    durable: Vec<(AccountId, Vec<u8>)>,
    state_root: u64,
}

impl StateManager {
    /// The durable layer's content: encoded record per identifier.
    pub closed spec fn durable_bytes(self) -> Map<AccountId, Vec<u8>> {
        map_of(self.durable@)
    }

    /// The cache's content.
    pub closed spec fn cache_map(self) -> Map<AccountId, AccountView> {
        map_of(self.cache@).map_values(|a: L2Account| a@)
    }

    /// The ledger this store holds: the durable layer, decoded.
    pub closed spec fn ledger_map(self) -> Map<AccountId, AccountView> {
        self.durable_bytes().map_values(|b: Vec<u8>| decode_account(b@)->Some_0)
    }

    /// Well-formedness: unique keys in both layers, every durable record
    /// decodable, the cache agreeing with the durable layer, and the stored
    /// root equal to the commitment over the ledger.
    pub closed spec fn wf(self) -> bool {
        &&& keys_unique(self.cache@)
        &&& keys_unique(self.durable@)
        &&& forall|k: AccountId| #[trigger]
            self.durable_bytes().contains_key(k) ==> decode_account(
                self.durable_bytes()[k]@,
            ) is Some
        &&& forall|k: AccountId| #[trigger]
            self.cache_map().contains_key(k) ==> self.durable_bytes().contains_key(k)
                && decode_account(self.durable_bytes()[k]@) == Some(self.cache_map()[k])
        &&& self.state_root == commitment_of(self.ledger_map())
    }

    /// An empty ledger store.
    pub fn new() -> (r: StateManager)
        ensures
            r.wf(),
            r.ledger_map() == Map::<AccountId, AccountView>::empty(),
    {
        let r = StateManager { cache: Vec::new(), durable: Vec::new(), state_root: 0 };
        proof {
            assert(r.ledger_map() =~= Map::<AccountId, AccountView>::empty());
            lemma_commitment_empty();
        }
        r
    }

    /// Read-through lookup: the cache answers if it can; otherwise the
    /// durable layer is read, decoded and cached. An identifier absent from
    /// both layers yields `None` — the caller treats it as the implicit
    /// zero-balance account.
    pub fn get_account(&mut self, id: &AccountId) -> (r: Option<L2Account>)
        requires
            old(self).wf(),
        ensures
            final(self).wf(),
            final(self).ledger_map() == old(self).ledger_map(),
            match r {
                Some(a) => old(self).ledger_map().contains_key(*id) && a@ == old(
                    self,
                ).ledger_map()[*id],
                None => !old(self).ledger_map().contains_key(*id),
            },
    {
        match find_index(&self.cache, id) {
            Some(i) => {
                proof {
                    lemma_map_of_index(self.cache@, i as int);
                    assert(self.cache_map().contains_key(*id));
                    assert(self.cache_map()[*id] == self.cache@[i as int].1@);
                }
                let a = self.cache[i].1.duplicate();
                Some(a)
            },
            None => {
                match find_index(&self.durable, id) {
                    Some(j) => {
                        proof {
                            lemma_map_of_index(self.durable@, j as int);
                            assert(self.durable_bytes().contains_key(*id));
                        }
                        let a = match decode_record(&self.durable[j].1) {
                            Some(a) => a,
                            None => {
                                proof {
                                    assert(false);
                                }
                                L2Account::zeroed()
                            },
                        };
                        let dup = a.duplicate();
                        self.cache.push((*id, dup));
                        proof {
                            let oldc = old(self).cache@;
                            let newc = final(self).cache@;
                            assert forall|p: int, q: int|
                                0 <= p < q < newc.len() implies (#[trigger] newc[p]).0 != (
                            #[trigger] newc[q]).0 by {
                                if q < newc.len() - 1 {
                                    assert(oldc[p].0 != oldc[q].0);
                                } else {
                                    assert(oldc[p].0 != *id);
                                }
                            }
                            crate::assoc::lemma_map_of_push(oldc, *id, newc.last().1);
                            assert(newc =~= oldc.push((*id, newc.last().1)));
                            assert(final(self).cache_map() =~= old(self).cache_map().insert(
                                *id,
                                a@,
                            ));
                        }
                        Some(a)
                    },
                    None => {
                        proof {
                            lemma_map_of_contains(self.durable@, *id);
                            assert(!self.durable_bytes().contains_key(*id));
                            assert(!self.ledger_map().contains_key(*id));
                        }
                        None
                    },
                }
            },
        }
    }
    /// Writes one record: the cache and the durable layer move together, and
    /// the running commitment follows. Atomic from the caller's view — both
    /// layers reflect the new record afterwards.
    pub fn update_account(&mut self, id: &AccountId, account: L2Account)
        requires
            old(self).wf(),
        ensures
            final(self).wf(),
            final(self).ledger_map() == old(self).ledger_map().insert(*id, account@),
    {
        let prev = self.get_account(id);
        let old_leaf: u64 = match &prev {
            Some(p) => leaf_digest_exec(id, p),
            None => 0,
        };
        let new_leaf = leaf_digest_exec(id, &account);
        let bytes = encode_record(&account);
        proof {
            assert(account.data@.len() == account.data.len());
            assert(account.data@.len() < 0x10000000000000000);
            lemma_codec_round_trip(account@);
        }
        let ghost mid = *self;
        let ghost av = account@;
        let ghost bvec = bytes;
        set_entry(&mut self.durable, *id, bytes);
        set_entry(&mut self.cache, *id, account);
        self.state_root = self.state_root ^ old_leaf ^ new_leaf;
        proof {
            let m = mid.ledger_map();
            let dv = self.durable_bytes();
            assert(dv == mid.durable_bytes().insert(*id, bvec));
            assert(self.ledger_map() =~= m.insert(*id, av));
            assert(self.cache_map() =~= mid.cache_map().insert(*id, av));
            assert forall|k: AccountId| #[trigger]
                dv.contains_key(k) implies decode_account(dv[k]@) is Some by {
                if k != *id {
                    assert(mid.durable_bytes().contains_key(k));
                    assert(dv[k] == mid.durable_bytes()[k]);
                }
            }
            assert forall|k: AccountId| #[trigger]
                self.cache_map().contains_key(k) implies dv.contains_key(k) && decode_account(
                dv[k]@,
            ) == Some(self.cache_map()[k]) by {
                if k != *id {
                    assert(mid.cache_map().contains_key(k));
                }
            }
            lemma_map_of_dom_finite(mid.durable@);
            assert(m.dom() =~= mid.durable_bytes().dom());
            lemma_commitment_update(m, *id, av);
        }
    }

    /// The state root: the commitment over the ledger as of the last
    /// successful update, as 32 bytes.
    pub fn get_state_root(&self) -> (r: Vec<u8>)
        requires
            self.wf(),
        ensures
            r@ == state_root_bytes(commitment_of(self.ledger_map())),
    {
        let mut r: Vec<u8> = Vec::new();
        push_u64_le(&mut r, self.state_root);
        let mut i: usize = 0;
        while i < 24
            invariant
                i <= 24,
                r@ == u64_le_bytes(self.state_root) + Seq::new(i as nat, |j: int| 0u8),
            decreases 24 - i,
        {
            r.push(0);
            proof {
                assert(r@ =~= u64_le_bytes(self.state_root) + Seq::new(
                    i as nat + 1,
                    |j: int| 0u8,
                ));
            }
            i = i + 1;
        }
        r
    }

    /// Installs one durable record read back from storage, if its bytes are a
    /// well-formed encoding; rejects malformed bytes and changes nothing.
    pub fn restore_account(&mut self, id: &AccountId, bytes: &Vec<u8>) -> (r: bool)
        requires
            old(self).wf(),
        ensures
            final(self).wf(),
            r <==> decode_account(bytes@) is Some,
            r ==> final(self).ledger_map() == old(self).ledger_map().insert(
                *id,
                decode_account(bytes@)->Some_0,
            ),
            !r ==> final(self).ledger_map() == old(self).ledger_map(),
    {
        match decode_record(bytes) {
            Some(a) => {
                self.update_account(id, a);
                true
            },
            None => false,
        }
    }
}

} // verus!
