//! The record's binary layout.
//!
//! A record is persisted as a fixed-order sequence of fields: the three
//! length-prefixed text fields, the creator identity, the length-prefixed
//! authority set, the flags byte, the declared capacity, the
//! length-prefixed membership and the length-prefixed member-of
//! references. Sequence lengths are 32-bit little-endian prefixes;
//! identities and signatures are raw 32-byte slots. Decoding ignores the
//! padding that follows the payload in the pre-allocated buffer.

use vstd::prelude::*;

use crate::errors::CollectionError;
use crate::state::{keys_of, sigs_of, CollectionData, CollectionView, BASE_COLLECTION_DATA_SIZE};
use crate::types::{Pubkey, SignatureView, PUBKEY_LEN, SIGNATURE_LEN};

verus! {

/// The four little-endian bytes of a 32-bit length prefix.
pub open spec fn u32_le_bytes(n: u32) -> Seq<u8> {
    seq![
        (n & 0xff) as u8,
        ((n >> 8) & 0xff) as u8,
        ((n >> 16) & 0xff) as u8,
        ((n >> 24) & 0xff) as u8,
    ]
}

/// A length-prefixed byte field.
pub open spec fn enc_bytes(s: Seq<u8>) -> Seq<u8> {
    u32_le_bytes(s.len() as u32) + s
}

/// Identity slots, in order, without a prefix.
pub open spec fn enc_keys(ks: Seq<Seq<u8>>) -> Seq<u8>
    decreases ks.len(),
{
    if ks.len() == 0 {
        Seq::empty()
    } else {
        ks[0] + enc_keys(ks.drop_first())
    }
}

/// Member-of reference slots, in order, without a prefix: each is an
/// identity followed by its signature.
pub open spec fn enc_sigs(ms: Seq<SignatureView>) -> Seq<u8>
    decreases ms.len(),
{
    if ms.len() == 0 {
        Seq::empty()
    } else {
        ms[0].collection + ms[0].signature + enc_sigs(ms.drop_first())
    }
}

/// The payload bytes of a record.
pub open spec fn encoded(v: CollectionView) -> Seq<u8> {
    enc_bytes(v.name) + enc_bytes(v.description) + enc_bytes(v.image) + v.creator + u32_le_bytes(
        v.authorities.len() as u32,
    ) + enc_keys(v.authorities) + seq![v.advanced] + u32_le_bytes(v.max_size) + u32_le_bytes(
        v.members.len() as u32,
    ) + enc_keys(v.members) + u32_le_bytes(v.member_of.len() as u32) + enc_sigs(v.member_of)
}

/// Identity slots occupy 32 bytes each.
pub proof fn lemma_enc_keys_len(ks: Seq<Seq<u8>>)
    requires
        forall|i: int| 0 <= i < ks.len() ==> (#[trigger] ks[i]).len() == PUBKEY_LEN,
    ensures
        enc_keys(ks).len() == PUBKEY_LEN * ks.len(),
    decreases ks.len(),
{
    if ks.len() > 0 {
        lemma_enc_keys_len(ks.drop_first());
    }
}

/// Member-of reference slots occupy 64 bytes each.
pub proof fn lemma_enc_sigs_len(ms: Seq<SignatureView>)
    requires
        forall|i: int|
            0 <= i < ms.len() ==> (#[trigger] ms[i]).collection.len() == PUBKEY_LEN
                && ms[i].signature.len() == SIGNATURE_LEN,
    ensures
        enc_sigs(ms).len() == (PUBKEY_LEN + SIGNATURE_LEN) * ms.len(),
    decreases ms.len(),
{
    if ms.len() > 0 {
        lemma_enc_sigs_len(ms.drop_first());
    }
}

/// Appending an identity extends the slots by that identity.
pub proof fn lemma_enc_keys_push(ks: Seq<Seq<u8>>, k: Seq<u8>)
    ensures
        enc_keys(ks.push(k)) == enc_keys(ks) + k,
    decreases ks.len(),
{
    if ks.len() == 0 {
        assert(ks.push(k).drop_first() =~= Seq::<Seq<u8>>::empty());
        assert(enc_keys(Seq::<Seq<u8>>::empty()) =~= Seq::<u8>::empty());
        assert(enc_keys(ks.push(k)) =~= enc_keys(ks) + k);
    } else {
        assert(ks.push(k).drop_first() =~= ks.drop_first().push(k));
        lemma_enc_keys_push(ks.drop_first(), k);
        assert(enc_keys(ks.push(k)) =~= enc_keys(ks) + k);
    }
}

/// Appending a member-of reference extends the slots by that reference.
pub proof fn lemma_enc_sigs_push(ms: Seq<SignatureView>, m: SignatureView)
    ensures
        enc_sigs(ms.push(m)) == enc_sigs(ms) + m.collection + m.signature,
    decreases ms.len(),
{
    if ms.len() == 0 {
        assert(ms.push(m).drop_first() =~= Seq::<SignatureView>::empty());
        assert(enc_sigs(Seq::<SignatureView>::empty()) =~= Seq::<u8>::empty());
        assert(enc_sigs(ms.push(m)) =~= enc_sigs(ms) + m.collection + m.signature);
    } else {
        assert(ms.push(m).drop_first() =~= ms.drop_first().push(m));
        lemma_enc_sigs_push(ms.drop_first(), m);
        assert(enc_sigs(ms.push(m)) =~= enc_sigs(ms) + m.collection + m.signature);
    }
}

/// Appends the four little-endian bytes of a length prefix.
fn write_u32(out: &mut Vec<u8>, n: u32)
    ensures
        final(out)@ == old(out)@ + u32_le_bytes(n),
{
    proof {
        assert(n & 0xff < 256 && (n >> 8) & 0xff < 256 && (n >> 16) & 0xff < 256 && (n >> 24)
            & 0xff < 256) by (bit_vector);
    }
    out.push((n & 0xff) as u8);
    out.push(((n >> 8) & 0xff) as u8);
    out.push(((n >> 16) & 0xff) as u8);
    out.push(((n >> 24) & 0xff) as u8);
    proof {
        assert(out@ =~= old(out)@ + u32_le_bytes(n));
    }
}

/// Appends raw bytes.
fn append_bytes(out: &mut Vec<u8>, v: &Vec<u8>)
    ensures
        final(out)@ == old(out)@ + v@,
{
    let n = v.len();
    let mut i: usize = 0;
    while i < n
        invariant
            n == v@.len(),
            0 <= i <= n,
            out@ == old(out)@ + v@.subrange(0, i as int),
        decreases n - i,
    {
        out.push(v[i]);
        proof {
            assert(out@ =~= old(out)@ + v@.subrange(0, i + 1));
        }
        i += 1;
    }
    proof {
        assert(v@.subrange(0, n as int) =~= v@);
    }
}

/// Appends a length-prefixed byte field.
fn write_bytes(out: &mut Vec<u8>, v: &Vec<u8>)
    requires
        v@.len() <= u32::MAX,
    ensures
        final(out)@ == old(out)@ + enc_bytes(v@),
{
    write_u32(out, v.len() as u32);
    append_bytes(out, v);
    proof {
        assert(out@ =~= old(out)@ + enc_bytes(v@));
    }
}

/// Appends identity slots.
fn write_keys(out: &mut Vec<u8>, ks: &Vec<Pubkey>)
    ensures
        final(out)@ == old(out)@ + enc_keys(keys_of(ks@)),
{
    let n = ks.len();
    let mut i: usize = 0;
    while i < n
        invariant
            n == ks@.len(),
            0 <= i <= n,
            out@ == old(out)@ + enc_keys(keys_of(ks@).subrange(0, i as int)),
        decreases n - i,
    {
        append_bytes(out, &ks[i].bytes);
        proof {
            lemma_enc_keys_push(keys_of(ks@).subrange(0, i as int), keys_of(ks@)[i as int]);
            assert(keys_of(ks@).subrange(0, i as int).push(keys_of(ks@)[i as int])
                =~= keys_of(ks@).subrange(0, i + 1));
            assert(out@ =~= old(out)@ + enc_keys(keys_of(ks@).subrange(0, i + 1)));
        }
        i += 1;
    }
    proof {
        assert(keys_of(ks@).subrange(0, n as int) =~= keys_of(ks@));
    }
}

/// Appends member-of reference slots.
fn write_sigs(out: &mut Vec<u8>, ms: &Vec<crate::types::CollectionSignature>)
    ensures
        final(out)@ == old(out)@ + enc_sigs(sigs_of(ms@)),
{
    let n = ms.len();
    let mut i: usize = 0;
    while i < n
        invariant
            n == ms@.len(),
            0 <= i <= n,
            out@ == old(out)@ + enc_sigs(sigs_of(ms@).subrange(0, i as int)),
        decreases n - i,
    {
        append_bytes(out, &ms[i].collection.bytes);
        append_bytes(out, &ms[i].signature);
        proof {
            lemma_enc_sigs_push(sigs_of(ms@).subrange(0, i as int), sigs_of(ms@)[i as int]);
            assert(sigs_of(ms@).subrange(0, i as int).push(sigs_of(ms@)[i as int])
                =~= sigs_of(ms@).subrange(0, i + 1));
            assert(out@ =~= old(out)@ + enc_sigs(sigs_of(ms@).subrange(0, i + 1)));
        }
        i += 1;
    }
    proof {
        assert(sigs_of(ms@).subrange(0, n as int) =~= sigs_of(ms@));
    }
}

/// Reads a 32-bit little-endian length prefix at `pos`.
pub open spec fn dec_u32(b: Seq<u8>, pos: int) -> Option<(u32, int)> {
    if 0 <= pos && pos + 4 <= b.len() {
        Some(
            (
                (b[pos] + b[pos + 1] * 0x100 + b[pos + 2] * 0x10000 + b[pos + 3]
                    * 0x1000000) as u32,
                pos + 4,
            ),
        )
    } else {
        None
    }
}

/// Reads a length-prefixed byte field at `pos`.
pub open spec fn dec_bytes(b: Seq<u8>, pos: int) -> Option<(Seq<u8>, int)> {
    match dec_u32(b, pos) {
        None => None,
        Some((n, p)) => if p + n <= b.len() {
            Some((b.subrange(p, p + n), p + n))
        } else {
            None
        },
    }
}

/// Reads one 32-byte identity slot at `pos`.
pub open spec fn dec_key(b: Seq<u8>, pos: int) -> Option<(Seq<u8>, int)> {
    if 0 <= pos && pos + PUBKEY_LEN <= b.len() {
        Some((b.subrange(pos, pos + PUBKEY_LEN), pos + PUBKEY_LEN))
    } else {
        None
    }
}

/// Reads `n` identity slots at `pos`.
pub open spec fn dec_keys(b: Seq<u8>, pos: int, n: nat) -> Option<(Seq<Seq<u8>>, int)>
    decreases n,
{
    if n == 0 {
        Some((Seq::empty(), pos))
    } else {
        match dec_key(b, pos) {
            None => None,
            Some((k, p)) => match dec_keys(b, p, (n - 1) as nat) {
                None => None,
                Some((rest, p2)) => Some((seq![k] + rest, p2)),
            },
        }
    }
}

/// Reads one member-of reference slot at `pos`.
pub open spec fn dec_sig(b: Seq<u8>, pos: int) -> Option<(SignatureView, int)> {
    if 0 <= pos && pos + PUBKEY_LEN + SIGNATURE_LEN <= b.len() {
        Some(
            (
                SignatureView {
                    collection: b.subrange(pos, pos + PUBKEY_LEN),
                    signature: b.subrange(pos + PUBKEY_LEN, pos + PUBKEY_LEN + SIGNATURE_LEN),
                },
                pos + PUBKEY_LEN + SIGNATURE_LEN,
            ),
        )
    } else {
        None
    }
}

/// Reads `n` member-of reference slots at `pos`.
pub open spec fn dec_sigs(b: Seq<u8>, pos: int, n: nat) -> Option<(Seq<SignatureView>, int)>
    decreases n,
{
    if n == 0 {
        Some((Seq::empty(), pos))
    } else {
        match dec_sig(b, pos) {
            None => None,
            Some((m, p)) => match dec_sigs(b, p, (n - 1) as nat) {
                None => None,
                Some((rest, p2)) => Some((seq![m] + rest, p2)),
            },
        }
    }
}

/// The record value a payload holds, or `None` if the payload is
/// malformed. Bytes beyond the payload — the buffer's padding — are
/// ignored.
pub open spec fn decoded(b: Seq<u8>) -> Option<CollectionView> {
    match dec_bytes(b, 0) {
        None => None,
        Some((name, p1)) => match dec_bytes(b, p1) {
            None => None,
            Some((description, p2)) => match dec_bytes(b, p2) {
                None => None,
                Some((image, p3)) => match dec_key(b, p3) {
                    None => None,
                    Some((creator, p4)) => match dec_u32(b, p4) {
                        None => None,
                        Some((n_auth, p5)) => match dec_keys(b, p5, n_auth as nat) {
                            None => None,
                            Some((authorities, p6)) => if p6 + 1 <= b.len() {
                                match dec_u32(b, p6 + 1) {
                                    None => None,
                                    Some((max_size, p8)) => match dec_u32(b, p8) {
                                        None => None,
                                        Some((n_members, p9)) => match dec_keys(
                                            b,
                                            p9,
                                            n_members as nat,
                                        ) {
                                            None => None,
                                            Some((members, p10)) => match dec_u32(b, p10) {
                                                None => None,
                                                Some((n_member_of, p11)) => match dec_sigs(
                                                    b,
                                                    p11,
                                                    n_member_of as nat,
                                                ) {
                                                    None => None,
                                                    Some((member_of, p12)) => Some(
                                                        CollectionView {
                                                            name,
                                                            description,
                                                            image,
                                                            creator,
                                                            authorities,
                                                            advanced: b[p6],
                                                            max_size,
                                                            members,
                                                            member_of,
                                                        },
                                                    ),
                                                },
                                            },
                                        },
                                    },
                                }
                            } else {
                                None
                            },
                        },
                    },
                },
            },
        },
    }
}

/// A length prefix reads back the value it was written from.
proof fn lemma_dec_u32_of(b: Seq<u8>, pos: int, n: u32)
    requires
        0 <= pos,
        pos + 4 <= b.len(),
        b.subrange(pos, pos + 4) == u32_le_bytes(n),
    ensures
        dec_u32(b, pos) == Some((n, pos + 4)),
{
    assert(b[pos] == (n & 0xff) as u8);
    assert(b[pos + 1] == ((n >> 8) & 0xff) as u8);
    assert(b[pos + 2] == ((n >> 16) & 0xff) as u8);
    assert(b[pos + 3] == ((n >> 24) & 0xff) as u8);
    assert(((n & 0xff) as u8) as u32 == n & 0xff) by (bit_vector);
    assert((((n >> 8) & 0xff) as u8) as u32 == (n >> 8) & 0xff) by (bit_vector);
    assert((((n >> 16) & 0xff) as u8) as u32 == (n >> 16) & 0xff) by (bit_vector);
    assert((((n >> 24) & 0xff) as u8) as u32 == (n >> 24) & 0xff) by (bit_vector);
    assert((n & 0xff) + ((n >> 8) & 0xff) * 0x100 + ((n >> 16) & 0xff) * 0x10000 + ((n >> 24)
        & 0xff) * 0x1000000 == n) by (bit_vector);
}

/// Splitting a region known to hold a concatenation yields its parts.
proof fn lemma_split_region(b: Seq<u8>, x: int, z: int, u: Seq<u8>, w: Seq<u8>)
    requires
        0 <= x <= z <= b.len(),
        z - x == u.len() + w.len(),
        b.subrange(x, z) == u + w,
    ensures
        b.subrange(x, x + u.len()) == u,
        b.subrange(x + u.len(), z) == w,
{
    assert forall|i: int| 0 <= i < u.len() implies b.subrange(x, x + u.len())[i] == u[i] by {
        assert(b.subrange(x, z)[i] == (u + w)[i]);
        assert(b.subrange(x, x + u.len())[i] == b[x + i]);
        assert(b.subrange(x, z)[i] == b[x + i]);
    }
    assert(b.subrange(x, x + u.len()) =~= u);
    assert forall|i: int| 0 <= i < w.len() implies b.subrange(x + u.len(), z)[i] == w[i] by {
        assert(b.subrange(x, z)[u.len() + i] == (u + w)[u.len() + i]);
        assert(b.subrange(x + u.len(), z)[i] == b[x + u.len() + i]);
        assert(b.subrange(x, z)[u.len() + i] == b[x + (u.len() + i)]);
    }
    assert(b.subrange(x + u.len(), z) =~= w);
}

/// A length-prefixed field reads back the bytes it was written from.
proof fn lemma_dec_bytes_enc(b: Seq<u8>, pos: int, s: Seq<u8>)
    requires
        s.len() <= u32::MAX,
        0 <= pos,
        pos + 4 + s.len() <= b.len(),
        b.subrange(pos, pos + 4 + s.len()) == enc_bytes(s),
    ensures
        dec_bytes(b, pos) == Some((s, pos + 4 + s.len())),
{
    lemma_split_region(b, pos, pos + 4 + s.len(), u32_le_bytes(s.len() as u32), s);
    lemma_dec_u32_of(b, pos, s.len() as u32);
}

/// Identity slots read back the identities they were written from.
proof fn lemma_dec_keys_enc(b: Seq<u8>, pos: int, ks: Seq<Seq<u8>>)
    requires
        forall|i: int| 0 <= i < ks.len() ==> (#[trigger] ks[i]).len() == PUBKEY_LEN,
        0 <= pos,
        pos + PUBKEY_LEN * ks.len() <= b.len(),
        b.subrange(pos, pos + PUBKEY_LEN * ks.len()) == enc_keys(ks),
    ensures
        dec_keys(b, pos, ks.len()) == Some((ks, pos + PUBKEY_LEN * ks.len())),
    decreases ks.len(),
{
    if ks.len() == 0 {
        assert(ks =~= Seq::<Seq<u8>>::empty());
    } else {
        lemma_enc_keys_len(ks.drop_first());
        lemma_split_region(
            b,
            pos,
            pos + PUBKEY_LEN * ks.len(),
            ks[0],
            enc_keys(ks.drop_first()),
        );
        lemma_dec_keys_enc(b, pos + PUBKEY_LEN, ks.drop_first());
        assert(seq![ks[0]] + ks.drop_first() =~= ks);
    }
}

/// Member-of reference slots read back the references they were written
/// from.
proof fn lemma_dec_sigs_enc(b: Seq<u8>, pos: int, ms: Seq<SignatureView>)
    requires
        forall|i: int|
            0 <= i < ms.len() ==> (#[trigger] ms[i]).collection.len() == PUBKEY_LEN
                && ms[i].signature.len() == SIGNATURE_LEN,
        0 <= pos,
        pos + (PUBKEY_LEN + SIGNATURE_LEN) * ms.len() <= b.len(),
        b.subrange(pos, pos + (PUBKEY_LEN + SIGNATURE_LEN) * ms.len()) == enc_sigs(ms),
    ensures
        dec_sigs(b, pos, ms.len()) == Some((ms, pos + (PUBKEY_LEN + SIGNATURE_LEN) * ms.len())),
    decreases ms.len(),
{
    if ms.len() == 0 {
        assert(ms =~= Seq::<SignatureView>::empty());
    } else {
        lemma_enc_sigs_len(ms.drop_first());
        assert(ms[0].collection.len() == PUBKEY_LEN && ms[0].signature.len() == SIGNATURE_LEN);
        assert(enc_sigs(ms) == ms[0].collection + ms[0].signature + enc_sigs(ms.drop_first()));
        lemma_split_region(
            b,
            pos,
            pos + (PUBKEY_LEN + SIGNATURE_LEN) * ms.len(),
            ms[0].collection + ms[0].signature,
            enc_sigs(ms.drop_first()),
        );
        lemma_split_region(
            b,
            pos,
            pos + PUBKEY_LEN + SIGNATURE_LEN,
            ms[0].collection,
            ms[0].signature,
        );
        assert(dec_sig(b, pos).unwrap().0 =~= ms[0]);
        lemma_dec_sigs_enc(b, pos + PUBKEY_LEN + SIGNATURE_LEN, ms.drop_first());
        assert(seq![ms[0]] + ms.drop_first() =~= ms);
    }
}

/// The codec round-trips: decoding an encoded record yields the record,
/// for every record value that fits the layout.
#[verifier::rlimit(100)]
pub proof fn lemma_decoded_encoded(v: CollectionView)
    requires
        v.bytes_wf(),
    ensures
        decoded(encoded(v)) == Some(v),
{
    let b = encoded(v);
    lemma_enc_keys_len(v.authorities);
    lemma_enc_keys_len(v.members);
    lemma_enc_sigs_len(v.member_of);
    let t1 = enc_bytes(v.name);
    let t2 = enc_bytes(v.description);
    let t3 = enc_bytes(v.image);
    let t4 = v.creator;
    let t5 = u32_le_bytes(v.authorities.len() as u32);
    let t6 = enc_keys(v.authorities);
    let t7 = seq![v.advanced];
    let t8 = u32_le_bytes(v.max_size);
    let t9 = u32_le_bytes(v.members.len() as u32);
    let t10 = enc_keys(v.members);
    let t11 = u32_le_bytes(v.member_of.len() as u32);
    let t12 = enc_sigs(v.member_of);
    let a2 = t1 + t2;
    let a3 = a2 + t3;
    let a4 = a3 + t4;
    let a5 = a4 + t5;
    let a6 = a5 + t6;
    let a7 = a6 + t7;
    let a8 = a7 + t8;
    let a9 = a8 + t9;
    let a10 = a9 + t10;
    let a11 = a10 + t11;
    let a12 = a11 + t12;
    assert(b == a12);
    let p1: int = 4 + v.name.len() as int;
    let p2: int = p1 + 4 + v.description.len() as int;
    let p3: int = p2 + 4 + v.image.len() as int;
    let p4: int = p3 + PUBKEY_LEN;
    let p5: int = p4 + 4;
    let p6: int = p5 + PUBKEY_LEN * v.authorities.len() as int;
    let p7: int = p6 + 1;
    let p8: int = p7 + 4;
    let p9: int = p8 + 4;
    let p10: int = p9 + PUBKEY_LEN * v.members.len() as int;
    let p11: int = p10 + 4;
    let p12: int = p11 + (PUBKEY_LEN + SIGNATURE_LEN) * v.member_of.len() as int;
    assert(b.len() == p12);
    assert(b.subrange(0, p12) =~= b);
    lemma_split_region(b, 0, p12, a11, t12);
    lemma_split_region(b, 0, p11, a10, t11);
    lemma_split_region(b, 0, p10, a9, t10);
    lemma_split_region(b, 0, p9, a8, t9);
    lemma_split_region(b, 0, p8, a7, t8);
    lemma_split_region(b, 0, p7, a6, t7);
    lemma_split_region(b, 0, p6, a5, t6);
    lemma_split_region(b, 0, p5, a4, t5);
    lemma_split_region(b, 0, p4, a3, t4);
    lemma_split_region(b, 0, p3, a2, t3);
    lemma_split_region(b, 0, p2, t1, t2);
    lemma_dec_bytes_enc(b, 0, v.name);
    lemma_dec_bytes_enc(b, p1, v.description);
    lemma_dec_bytes_enc(b, p2, v.image);
    lemma_dec_u32_of(b, p4, v.authorities.len() as u32);
    lemma_dec_keys_enc(b, p5, v.authorities);
    assert(b[p6] == v.advanced) by {
        assert(b.subrange(p6, p7)[0] == b[p6]);
    }
    lemma_dec_u32_of(b, p7, v.max_size);
    lemma_dec_u32_of(b, p8, v.members.len() as u32);
    lemma_dec_keys_enc(b, p9, v.members);
    lemma_dec_u32_of(b, p10, v.member_of.len() as u32);
    lemma_dec_sigs_enc(b, p11, v.member_of);
    assert(decoded(b).unwrap() =~= v);
}

/// Reads a 32-bit little-endian length prefix.
fn read_u32(data: &Vec<u8>, pos: usize) -> (r: Option<(u32, usize)>)
    ensures
        match r {
            Some(p) => dec_u32(data@, pos as int) == Some((p.0, p.1 as int)) && p.1 <= data@.len(),
            None => dec_u32(data@, pos as int) is None,
        },
{
    if data.len() < 4 || pos > data.len() - 4 {
        return None;
    }
    let b0 = data[pos] as u32;
    let b1 = data[pos + 1] as u32;
    let b2 = data[pos + 2] as u32;
    let b3 = data[pos + 3] as u32;
    Some((b0 + b1 * 0x100 + b2 * 0x10000 + b3 * 0x1000000, pos + 4))
}

/// Reads `count` raw bytes.
fn read_exact(data: &Vec<u8>, pos: usize, count: usize) -> (r: Option<(Vec<u8>, usize)>)
    ensures
        match r {
            Some(p) => pos + count <= data@.len() && p.0@ == data@.subrange(
                pos as int,
                pos + count,
            ) && p.1 == pos + count,
            None => pos + count > data@.len(),
        },
{
    if count > data.len() || pos > data.len() - count {
        return None;
    }
    let mut out: Vec<u8> = Vec::new();
    let mut i: usize = 0;
    while i < count
        invariant
            pos + count <= data@.len(),
            data@.len() <= usize::MAX,
            0 <= i <= count,
            out@ == data@.subrange(pos as int, pos + i),
        decreases count - i,
    {
        out.push(data[pos + i]);
        proof {
            assert(out@ =~= data@.subrange(pos as int, pos + i + 1));
        }
        i += 1;
    }
    Some((out, pos + count))
}

/// Reads a length-prefixed byte field.
fn read_bytes(data: &Vec<u8>, pos: usize) -> (r: Option<(Vec<u8>, usize)>)
    ensures
        match r {
            Some(p) => dec_bytes(data@, pos as int) == Some((p.0@, p.1 as int)) && p.1
                <= data@.len() && p.0@.len() <= u32::MAX,
            None => dec_bytes(data@, pos as int) is None,
        },
{
    let (n, p) = match read_u32(data, pos) {
        None => {
            return None;
        },
        Some(x) => x,
    };
    match read_exact(data, p, n as usize) {
        None => None,
        Some(out) => Some(out),
    }
}

/// Reads one 32-byte identity slot.
fn read_key(data: &Vec<u8>, pos: usize) -> (r: Option<(Pubkey, usize)>)
    ensures
        match r {
            Some(p) => dec_key(data@, pos as int) == Some((p.0@, p.1 as int)) && p.1
                <= data@.len() && p.0.wf(),
            None => dec_key(data@, pos as int) is None,
        },
{
    match read_exact(data, pos, PUBKEY_LEN) {
        None => None,
        Some((bytes, p)) => Some((Pubkey::new(bytes), p)),
    }
}

/// Reads `n` identity slots.
fn read_keys(data: &Vec<u8>, pos: usize, n: u32) -> (r: Option<(Vec<Pubkey>, usize)>)
    requires
        pos <= data@.len(),
    ensures
        match r {
            Some(p) => dec_keys(data@, pos as int, n as nat) == Some((keys_of(p.0@), p.1 as int))
                && p.1 <= data@.len() && p.0@.len() == n && forall|i: int|
                0 <= i < p.0@.len() ==> (#[trigger] p.0@[i]).wf(),
            None => dec_keys(data@, pos as int, n as nat) is None,
        },
{
    let mut out: Vec<Pubkey> = Vec::new();
    let mut cur: usize = pos;
    let mut i: u32 = 0;
    while i < n
        invariant
            0 <= i <= n,
            out@.len() == i,
            cur <= data@.len(),
            forall|j: int| 0 <= j < out@.len() ==> (#[trigger] out@[j]).wf(),
            ({
                let whole = dec_keys(data@, pos as int, n as nat);
                let rem = dec_keys(data@, cur as int, (n - i) as nat);
                match rem {
                    Some(rp) => whole == Some::<(Seq<Seq<u8>>, int)>(
                        (keys_of(out@) + rp.0, rp.1),
                    ),
                    None => whole is None,
                }
            }),
        decreases n - i,
    {
        let k = match read_key(data, cur) {
            None => {
                return None;
            },
            Some(x) => x,
        };
        let ghost prev_out = out@;
        let ghost kv = k.0@;
        out.push(k.0);
        cur = k.1;
        proof {
            let rem2 = dec_keys(data@, cur as int, (n - i - 1) as nat);
            if rem2 is Some {
                let rp2 = rem2.unwrap();
                assert(keys_of(prev_out) + (seq![kv] + rp2.0) =~= keys_of(out@) + rp2.0);
            }
        }
        i += 1;
    }
    proof {
        assert(dec_keys(data@, cur as int, 0) == Some::<(Seq<Seq<u8>>, int)>(
            (Seq::empty(), cur as int),
        ));
        assert(keys_of(out@) + Seq::<Seq<u8>>::empty() =~= keys_of(out@));
    }
    Some((out, cur))
}

/// Reads one member-of reference slot.
fn read_sig(data: &Vec<u8>, pos: usize) -> (r: Option<(crate::types::CollectionSignature, usize)>)
    ensures
        match r {
            Some(p) => dec_sig(data@, pos as int) == Some((p.0@, p.1 as int)) && p.1
                <= data@.len() && p.0.wf(),
            None => dec_sig(data@, pos as int) is None,
        },
{
    let (collection_bytes, p1) = match read_exact(data, pos, PUBKEY_LEN) {
        None => {
            return None;
        },
        Some(x) => x,
    };
    match read_exact(data, p1, SIGNATURE_LEN) {
        None => None,
        Some((signature, p2)) => Some(
            (
                crate::types::CollectionSignature {
                    collection: Pubkey::new(collection_bytes),
                    signature,
                },
                p2,
            ),
        ),
    }
}

/// Reads `n` member-of reference slots.
fn read_sigs(data: &Vec<u8>, pos: usize, n: u32) -> (r: Option<
    (Vec<crate::types::CollectionSignature>, usize),
>)
    requires
        pos <= data@.len(),
    ensures
        match r {
            Some(p) => dec_sigs(data@, pos as int, n as nat) == Some((sigs_of(p.0@), p.1 as int))
                && p.1 <= data@.len() && p.0@.len() == n && forall|i: int|
                0 <= i < p.0@.len() ==> (#[trigger] p.0@[i]).wf(),
            None => dec_sigs(data@, pos as int, n as nat) is None,
        },
{
    let mut out: Vec<crate::types::CollectionSignature> = Vec::new();
    let mut cur: usize = pos;
    let mut i: u32 = 0;
    while i < n
        invariant
            0 <= i <= n,
            out@.len() == i,
            cur <= data@.len(),
            forall|j: int| 0 <= j < out@.len() ==> (#[trigger] out@[j]).wf(),
            ({
                let whole = dec_sigs(data@, pos as int, n as nat);
                let rem = dec_sigs(data@, cur as int, (n - i) as nat);
                match rem {
                    Some(rp) => whole == Some::<(Seq<SignatureView>, int)>(
                        (sigs_of(out@) + rp.0, rp.1),
                    ),
                    None => whole is None,
                }
            }),
        decreases n - i,
    {
        let m = match read_sig(data, cur) {
            None => {
                return None;
            },
            Some(x) => x,
        };
        let ghost prev_out = out@;
        let ghost mv = m.0@;
        out.push(m.0);
        cur = m.1;
        proof {
            let rem2 = dec_sigs(data@, cur as int, (n - i - 1) as nat);
            if rem2 is Some {
                let rp2 = rem2.unwrap();
                assert(sigs_of(prev_out) + (seq![mv] + rp2.0) =~= sigs_of(out@) + rp2.0);
            }
        }
        i += 1;
    }
    proof {
        assert(dec_sigs(data@, cur as int, 0) == Some::<(Seq<SignatureView>, int)>(
            (Seq::empty(), cur as int),
        ));
        assert(sigs_of(out@) + Seq::<SignatureView>::empty() =~= sigs_of(out@));
    }
    Some((out, cur))
}

/// Decodes a record from its payload bytes, ignoring trailing padding.
pub fn decode_collection(data: &Vec<u8>) -> (r: Result<CollectionData, CollectionError>)
    ensures
        match decoded(data@) {
            Some(v) => r matches Ok(c) && c@ == v && c.bytes_wf(),
            None => r == Err::<CollectionData, CollectionError>(CollectionError::DataTypeMismatch),
        },
{
    let (name, p1) = match read_bytes(data, 0) {
        None => {
            return Err(CollectionError::DataTypeMismatch);
        },
        Some(x) => x,
    };
    let (description, p2) = match read_bytes(data, p1) {
        None => {
            return Err(CollectionError::DataTypeMismatch);
        },
        Some(x) => x,
    };
    let (image, p3) = match read_bytes(data, p2) {
        None => {
            return Err(CollectionError::DataTypeMismatch);
        },
        Some(x) => x,
    };
    let (creator, p4) = match read_key(data, p3) {
        None => {
            return Err(CollectionError::DataTypeMismatch);
        },
        Some(x) => x,
    };
    let (n_auth, p5) = match read_u32(data, p4) {
        None => {
            return Err(CollectionError::DataTypeMismatch);
        },
        Some(x) => x,
    };
    let (authorities, p6) = match read_keys(data, p5, n_auth) {
        None => {
            return Err(CollectionError::DataTypeMismatch);
        },
        Some(x) => x,
    };
    if p6 >= data.len() {
        return Err(CollectionError::DataTypeMismatch);
    }
    let advanced = data[p6];
    let (max_size, p8) = match read_u32(data, p6 + 1) {
        None => {
            return Err(CollectionError::DataTypeMismatch);
        },
        Some(x) => x,
    };
    let (n_members, p9) = match read_u32(data, p8) {
        None => {
            return Err(CollectionError::DataTypeMismatch);
        },
        Some(x) => x,
    };
    let (members, p10) = match read_keys(data, p9, n_members) {
        None => {
            return Err(CollectionError::DataTypeMismatch);
        },
        Some(x) => x,
    };
    let (n_member_of, p11) = match read_u32(data, p10) {
        None => {
            return Err(CollectionError::DataTypeMismatch);
        },
        Some(x) => x,
    };
    let (member_of, _p12) = match read_sigs(data, p11, n_member_of) {
        None => {
            return Err(CollectionError::DataTypeMismatch);
        },
        Some(x) => x,
    };
    let record = CollectionData {
        name,
        description,
        image,
        creator,
        authorities,
        advanced,
        max_size,
        members,
        member_of,
    };
    proof {
        assert(record@ =~= decoded(data@).unwrap());
    }
    Ok(record)
}

impl CollectionData {
    /// Loads a record from an account's data.
    ///
    /// The data must hold a whole number of identity slots beyond the
    /// fixed header and must decode as a record; anything else is a
    /// `DataTypeMismatch`.
    pub fn from_account_info(data: &Vec<u8>) -> (r: Result<CollectionData, CollectionError>)
        ensures
            ({
                if data@.len() < BASE_COLLECTION_DATA_SIZE || (data@.len()
                    - BASE_COLLECTION_DATA_SIZE) % (PUBKEY_LEN as int) != 0 {
                    r == Err::<CollectionData, CollectionError>(CollectionError::DataTypeMismatch)
                } else {
                    match decoded(data@) {
                        Some(v) => r matches Ok(c) && c@ == v && c.bytes_wf(),
                        None => r == Err::<CollectionData, CollectionError>(
                            CollectionError::DataTypeMismatch,
                        ),
                    }
                }
            }),
    {
        if (data.len() as u64) < BASE_COLLECTION_DATA_SIZE {
            return Err(CollectionError::DataTypeMismatch);
        }
        if (data.len() as u64 - BASE_COLLECTION_DATA_SIZE) % (PUBKEY_LEN as u64) != 0 {
            return Err(CollectionError::DataTypeMismatch);
        }
        decode_collection(data)
    }
}

/// Encodes a record into its payload bytes.
pub fn encode_collection(c: &CollectionData) -> (r: Vec<u8>)
    requires
        c.bytes_wf(),
    ensures
        r@ == encoded(c@),
{
    let mut out: Vec<u8> = Vec::new();
    write_bytes(&mut out, &c.name);
    write_bytes(&mut out, &c.description);
    write_bytes(&mut out, &c.image);
    append_bytes(&mut out, &c.creator.bytes);
    write_u32(&mut out, c.authorities.len() as u32);
    write_keys(&mut out, &c.authorities);
    out.push(c.advanced);
    write_u32(&mut out, c.max_size);
    write_u32(&mut out, c.members.len() as u32);
    write_keys(&mut out, &c.members);
    write_u32(&mut out, c.member_of.len() as u32);
    write_sigs(&mut out, &c.member_of);
    proof {
        assert(out@ =~= encoded(c@));
    }
    out
}

} // verus!
