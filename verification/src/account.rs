//! Account identifiers and account records of the ledger.

use vstd::prelude::*;

verus! {

/// A 32-byte account identifier, held as four 64-bit words (most significant
/// word first when the identifier is read as big-endian bytes).
#[derive(Clone, Copy, PartialEq, Eq, Structural, Debug)]
pub struct AccountId {
    pub w0: u64,
    pub w1: u64,
    pub w2: u64,
    pub w3: u64,
}

/// The all-zero identifier: the system owner of accounts that nobody has
/// written yet.
pub open spec fn system_id_spec() -> AccountId {
    AccountId { w0: 0, w1: 0, w2: 0, w3: 0 }
}

impl AccountId {
    pub fn system_id() -> (r: AccountId)
        ensures
            r == system_id_spec(),
    {
        AccountId { w0: 0, w1: 0, w2: 0, w3: 0 }
    }
}

/// One ledger account: a balance in indivisible units, an opaque data blob,
/// the owning program's identifier, an executable flag and a rent-epoch
/// counter.
#[derive(Clone, Debug)]
pub struct L2Account {
    pub lamports: u64,
    pub data: Vec<u8>,
    pub owner: AccountId,
    pub executable: bool,
    pub rent_epoch: u64,
}

/// The mathematical content of an account record.
pub ghost struct AccountView {
    pub lamports: u64,
    pub data: Seq<u8>,
    pub owner: AccountId,
    pub executable: bool,
    pub rent_epoch: u64,
}

impl View for L2Account {
    type V = AccountView;

    open spec fn view(&self) -> AccountView {
        AccountView {
            lamports: self.lamports,
            data: self.data@,
            owner: self.owner,
            executable: self.executable,
            rent_epoch: self.rent_epoch,
        }
    }
}

/// The implicit state of an identifier absent from the ledger: zero balance,
/// no data, system-owned, not executable.
pub open spec fn default_account_view() -> AccountView {
    AccountView {
        lamports: 0,
        data: Seq::empty(),
        owner: system_id_spec(),
        executable: false,
        rent_epoch: 0,
    }
}

/// Copies a byte vector, element for element.
pub fn copy_bytes(v: &Vec<u8>) -> (r: Vec<u8>)
    ensures
        r@ == v@,
{
    let mut r: Vec<u8> = Vec::new();
    let mut i: usize = 0;
    while i < v.len()
        invariant
            i <= v@.len(),
            r@ == v@.take(i as int),
        decreases v@.len() - i,
    {
        r.push(v[i]);
        proof {
            assert(r@ =~= v@.take(i + 1));
        }
        i = i + 1;
    }
    proof {
        assert(r@ =~= v@);
    }
    r
}

impl L2Account {
    /// The record a reader sees for an identifier absent from the ledger.
    pub fn zeroed() -> (r: L2Account)
        ensures
            r@ == default_account_view(),
    {
        let r = L2Account {
            lamports: 0,
            data: Vec::new(),
            owner: AccountId::system_id(),
            executable: false,
            rent_epoch: 0,
        };
        proof {
            assert(r@ =~= default_account_view());
        }
        r
    }

    /// A copy provably equal in content to `self`.
    pub fn duplicate(&self) -> (r: L2Account)
        ensures
            r@ == self@,
    {
        let r = L2Account {
            lamports: self.lamports,
            data: copy_bytes(&self.data),
            owner: self.owner,
            executable: self.executable,
            rent_epoch: self.rent_epoch,
        };
        proof {
            assert(r@ =~= self@);
        }
        r
    }
}

} // verus!
