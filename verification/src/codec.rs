//! Versioned byte encoding of account records for the durable layer, with a
//! proven round trip.

use vstd::prelude::*;

use crate::account::{AccountId, AccountView, L2Account, copy_bytes};

verus! {

/// First byte of every durable record, so the schema can evolve.
pub const RECORD_VERSION: u8 = 1;

/// The eight little-endian bytes of a 64-bit value.
pub open spec fn u64_le_bytes(x: u64) -> Seq<u8> {
    seq![
        (x & 0xff) as u8,
        ((x >> 8) & 0xff) as u8,
        ((x >> 16) & 0xff) as u8,
        ((x >> 24) & 0xff) as u8,
        ((x >> 32) & 0xff) as u8,
        ((x >> 40) & 0xff) as u8,
        ((x >> 48) & 0xff) as u8,
        ((x >> 56) & 0xff) as u8,
    ]
}

/// The 64-bit value eight little-endian bytes hold.
pub open spec fn u64_from_le(s: Seq<u8>) -> u64
    recommends
        s.len() == 8,
{
    (s[0] as u64) | ((s[1] as u64) << 8) | ((s[2] as u64) << 16) | ((s[3] as u64) << 24) | ((
    s[4] as u64) << 32) | ((s[5] as u64) << 40) | ((s[6] as u64) << 48) | ((s[7] as u64) << 56)
}

/// The 32-bit value four little-endian bytes hold.
pub open spec fn u32_from_le(s: Seq<u8>) -> u32
    recommends
        s.len() == 4,
{
    (s[0] as u32) | ((s[1] as u32) << 8) | ((s[2] as u32) << 16) | ((s[3] as u32) << 24)
}

pub proof fn lemma_u64_le_round_trip(x: u64)
    ensures
        u64_from_le(u64_le_bytes(x)) == x,
{
    assert(((x & 0xff) as u8 as u64) | ((((x >> 8) & 0xff) as u8 as u64) << 8) | ((((x >> 16)
        & 0xff) as u8 as u64) << 16) | ((((x >> 24) & 0xff) as u8 as u64) << 24) | ((((x >> 32)
        & 0xff) as u8 as u64) << 32) | ((((x >> 40) & 0xff) as u8 as u64) << 40) | ((((x >> 48)
        & 0xff) as u8 as u64) << 48) | ((((x >> 56) & 0xff) as u8 as u64) << 56) == x)
        by (bit_vector);
}

/// Appends the little-endian bytes of `x`.
pub fn push_u64_le(out: &mut Vec<u8>, x: u64)
    ensures
        final(out)@ == old(out)@ + u64_le_bytes(x),
{
    out.push((x & 0xff) as u8);
    out.push(((x >> 8) & 0xff) as u8);
    out.push(((x >> 16) & 0xff) as u8);
    out.push(((x >> 24) & 0xff) as u8);
    out.push(((x >> 32) & 0xff) as u8);
    out.push(((x >> 40) & 0xff) as u8);
    out.push(((x >> 48) & 0xff) as u8);
    out.push(((x >> 56) & 0xff) as u8);
    proof {
        assert(final(out)@ =~= old(out)@ + u64_le_bytes(x));
    }
}

/// Reads the 64-bit value at `off`.
pub fn read_u64_le(bytes: &Vec<u8>, off: usize) -> (r: u64)
    requires
        off + 8 <= bytes@.len(),
    ensures
        r == u64_from_le(bytes@.subrange(off as int, off as int + 8)),
{
    proof {
        assert(off + 8 <= bytes.len());
    }
    let r = (bytes[off] as u64) | ((bytes[off + 1] as u64) << 8) | ((bytes[off + 2] as u64) << 16)
        | ((bytes[off + 3] as u64) << 24) | ((bytes[off + 4] as u64) << 32) | ((bytes[off
        + 5] as u64) << 40) | ((bytes[off + 6] as u64) << 48) | ((bytes[off + 7] as u64) << 56);
    proof {
        let s = bytes@.subrange(off as int, off as int + 8);
        assert(s[0] == bytes@[off as int]);
        assert(s[1] == bytes@[off as int + 1]);
        assert(s[2] == bytes@[off as int + 2]);
        assert(s[3] == bytes@[off as int + 3]);
        assert(s[4] == bytes@[off as int + 4]);
        assert(s[5] == bytes@[off as int + 5]);
        assert(s[6] == bytes@[off as int + 6]);
        assert(s[7] == bytes@[off as int + 7]);
    }
    r
}

/// Reads the 32-bit value at `off`.
pub fn read_u32_le(bytes: &Vec<u8>, off: usize) -> (r: u32)
    requires
        off + 4 <= bytes@.len(),
    ensures
        r == u32_from_le(bytes@.subrange(off as int, off as int + 4)),
{
    proof {
        assert(off + 4 <= bytes.len());
    }
    let r = (bytes[off] as u32) | ((bytes[off + 1] as u32) << 8) | ((bytes[off + 2] as u32) << 16)
        | ((bytes[off + 3] as u32) << 24);
    proof {
        let s = bytes@.subrange(off as int, off as int + 4);
        assert(s[0] == bytes@[off as int]);
        assert(s[1] == bytes@[off as int + 1]);
        assert(s[2] == bytes@[off as int + 2]);
        assert(s[3] == bytes@[off as int + 3]);
    }
    r
}

/// The durable encoding of an account record: a version byte, the balance,
/// the owner's four words, the executable flag, the rent epoch, the data
/// length and the data itself, integers little-endian.
pub open spec fn encode_account(a: AccountView) -> Seq<u8> {
    seq![RECORD_VERSION] + u64_le_bytes(a.lamports) + u64_le_bytes(a.owner.w0) + u64_le_bytes(
        a.owner.w1,
    ) + u64_le_bytes(a.owner.w2) + u64_le_bytes(a.owner.w3) + seq![
        if a.executable {
            1u8
        } else {
            0u8
        },
    ] + u64_le_bytes(a.rent_epoch) + u64_le_bytes(a.data.len() as u64) + a.data
}

/// What a byte string decodes to, if it is a well-formed record.
pub open spec fn decode_account(b: Seq<u8>) -> Option<AccountView> {
    if b.len() < 58 {
        None
    } else if b[0] != RECORD_VERSION {
        None
    } else if b[41] != 0 && b[41] != 1 {
        None
    } else if b.len() - 58 != u64_from_le(b.subrange(50, 58)) {
        None
    } else {
        Some(
            AccountView {
                lamports: u64_from_le(b.subrange(1, 9)),
                data: b.subrange(58, b.len() as int),
                owner: AccountId {
                    w0: u64_from_le(b.subrange(9, 17)),
                    w1: u64_from_le(b.subrange(17, 25)),
                    w2: u64_from_le(b.subrange(25, 33)),
                    w3: u64_from_le(b.subrange(33, 41)),
                },
                executable: b[41] == 1,
                rent_epoch: u64_from_le(b.subrange(42, 50)),
            },
        )
    }
}

/// Encodes a record for the durable layer.
pub fn encode_record(a: &L2Account) -> (r: Vec<u8>)
    ensures
        r@ == encode_account(a@),
{
    let mut out: Vec<u8> = Vec::new();
    out.push(RECORD_VERSION);
    push_u64_le(&mut out, a.lamports);
    push_u64_le(&mut out, a.owner.w0);
    push_u64_le(&mut out, a.owner.w1);
    push_u64_le(&mut out, a.owner.w2);
    push_u64_le(&mut out, a.owner.w3);
    out.push(if a.executable { 1u8 } else { 0u8 });
    push_u64_le(&mut out, a.rent_epoch);
    push_u64_le(&mut out, a.data.len() as u64);
    proof {
        assert(out@ =~= encode_account(a@).take(58));
    }
    let mut i: usize = 0;
    while i < a.data.len()
        invariant
            i <= a.data@.len(),
            out@ == encode_account(a@).take(58 + i as int),
            a.data@.len() < 0x10000000000000000,
        decreases a.data@.len() - i,
    {
        out.push(a.data[i]);
        proof {
            assert(out@ =~= encode_account(a@).take(58 + i as int + 1));
        }
        i = i + 1;
    }
    proof {
        assert(out@ =~= encode_account(a@));
    }
    out
}

/// Decodes a durable record, rejecting malformed bytes.
pub fn decode_record(b: &Vec<u8>) -> (r: Option<L2Account>)
    ensures
        match r {
            Some(a) => decode_account(b@) == Some(a@),
            None => decode_account(b@) is None,
        },
{
    if b.len() < 58 {
        return None;
    }
    if b[0] != RECORD_VERSION {
        return None;
    }
    let exec_byte = b[41];
    if exec_byte != 0 && exec_byte != 1 {
        return None;
    }
    let dlen = read_u64_le(b, 50);
    if dlen > (usize::MAX as u64) {
        return None;
    }
    if b.len() - 58 != dlen as usize {
        return None;
    }
    let mut data: Vec<u8> = Vec::new();
    let mut i: usize = 58;
    while i < b.len()
        invariant
            58 <= i <= b@.len(),
            data@ == b@.subrange(58, i as int),
        decreases b@.len() - i,
    {
        data.push(b[i]);
        proof {
            assert(data@ =~= b@.subrange(58, i as int + 1));
        }
        i = i + 1;
    }
    let a = L2Account {
        lamports: read_u64_le(b, 1),
        data,
        owner: AccountId {
            w0: read_u64_le(b, 9),
            w1: read_u64_le(b, 17),
            w2: read_u64_le(b, 25),
            w3: read_u64_le(b, 33),
        },
        executable: exec_byte == 1,
        rent_epoch: read_u64_le(b, 42),
    };
    proof {
        assert(decode_account(b@) == Some(a@));
    }
    Some(a)
}

/// Round trip: decoding what `encode_account` produced gives the record back.
pub proof fn lemma_codec_round_trip(a: AccountView)
    requires
        a.data.len() < 0x10000000000000000,
    ensures
        decode_account(encode_account(a)) == Some(a),
{
    let e = encode_account(a);
    assert(e.len() == 58 + a.data.len());
    assert(e[0] == RECORD_VERSION);
    assert(e.subrange(1, 9) =~= u64_le_bytes(a.lamports));
    assert(e.subrange(9, 17) =~= u64_le_bytes(a.owner.w0));
    assert(e.subrange(17, 25) =~= u64_le_bytes(a.owner.w1));
    assert(e.subrange(25, 33) =~= u64_le_bytes(a.owner.w2));
    assert(e.subrange(33, 41) =~= u64_le_bytes(a.owner.w3));
    assert(e[41] == if a.executable { 1u8 } else { 0u8 });
    assert(e.subrange(42, 50) =~= u64_le_bytes(a.rent_epoch));
    assert(e.subrange(50, 58) =~= u64_le_bytes(a.data.len() as u64));
    assert(e.subrange(58, e.len() as int) =~= a.data);
    lemma_u64_le_round_trip(a.lamports);
    lemma_u64_le_round_trip(a.owner.w0);
    lemma_u64_le_round_trip(a.owner.w1);
    lemma_u64_le_round_trip(a.owner.w2);
    lemma_u64_le_round_trip(a.owner.w3);
    lemma_u64_le_round_trip(a.rent_epoch);
    lemma_u64_le_round_trip(a.data.len() as u64);
    assert(u64_from_le(e.subrange(50, 58)) == a.data.len());
    assert(decode_account(e) == Some(a));
}

} // verus!
