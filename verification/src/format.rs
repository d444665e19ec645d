//! The v2 payload format as an encoding, and its round trip with decoding.

use vstd::prelude::*;
use vstd::utf8::{
    decode_utf8, decode_utf8_encode_utf8, encode_utf8, encode_utf8_decode_utf8,
    encode_utf8_valid_utf8, valid_utf8,
};
use crate::error::Error;
use crate::key::{
    be_i64, spec_entitlements, spec_payload, PayloadView, KEY_VERSION_V1, KEY_VERSION_V2,
};

verus! {

/// An `i64` as eight bytes, big-endian two's complement (`i64::to_be_bytes`).
pub open spec fn be_bytes_i64(x: i64) -> Seq<u8> {
    let u: int = if x >= 0 {
        x as int
    } else {
        x + 0x1_0000_0000_0000_0000
    };
    seq![
        (u / 0x100_0000_0000_0000 % 256) as u8,
        (u / 0x1_0000_0000_0000 % 256) as u8,
        (u / 0x100_0000_0000 % 256) as u8,
        (u / 0x1_0000_0000 % 256) as u8,
        (u / 0x100_0000 % 256) as u8,
        (u / 0x1_0000 % 256) as u8,
        (u / 0x100 % 256) as u8,
        (u % 256) as u8,
    ]
}

/// Entitlement slugs as the v2 payload lists them: each as a length byte
/// followed by its UTF-8 bytes.
pub open spec fn spec_encode_entitlements(ents: Seq<Seq<char>>) -> Seq<u8>
    decreases ents.len(),
{
    if ents.len() == 0 {
        seq![]
    } else {
        seq![encode_utf8(ents[0]).len() as u8] + encode_utf8(ents[0]) + spec_encode_entitlements(
            ents.drop_first(),
        )
    }
}

/// The bytes of a v1 payload.
pub open spec fn spec_encode_payload_v1(p: PayloadView) -> Seq<u8> {
    seq![KEY_VERSION_V1, p.flags] + p.product_id + p.license_id + be_bytes_i64(p.issued_at)
        + p.fingerprint_hash
}

/// True if a payload can be written down as v1: ids of 16 bytes, a 32-byte
/// hash, and none of the v2-only fields set.
pub open spec fn encodable_v1(p: PayloadView) -> bool {
    &&& p.version == KEY_VERSION_V1
    &&& p.product_id.len() == 16
    &&& p.license_id.len() == 16
    &&& p.fingerprint_hash.len() == 32
    &&& p.expires_at == 0
    &&& p.entitlements.len() == 0
}

/// The bytes of a v2 payload.
pub open spec fn spec_encode_payload_v2(p: PayloadView) -> Seq<u8> {
    seq![KEY_VERSION_V2, p.flags] + p.product_id + p.license_id + be_bytes_i64(p.issued_at)
        + be_bytes_i64(p.expires_at) + p.fingerprint_hash + seq![p.entitlements.len() as u8]
        + spec_encode_entitlements(p.entitlements)
}

/// True if a v2 payload can be written down: ids of 16 bytes, a 32-byte
/// hash, at most 255 entitlements of at most 255 UTF-8 bytes each.
pub open spec fn encodable_v2(p: PayloadView) -> bool {
    &&& p.version == KEY_VERSION_V2
    &&& p.product_id.len() == 16
    &&& p.license_id.len() == 16
    &&& p.fingerprint_hash.len() == 32
    &&& p.entitlements.len() <= 255
    &&& forall|i: int| 0 <= i < p.entitlements.len() ==> encode_utf8(#[trigger] p.entitlements[i]).len() <= 255
}

proof fn lemma_u64_as_i64(v: u64)
    ensures
        (v as i64) as int == if v < 0x8000_0000_0000_0000 {
            v as int
        } else {
            v - 0x1_0000_0000_0000_0000
        },
{
    assert((v as i64) as int == if v < 0x8000_0000_0000_0000 {
        v as int
    } else {
        v - 0x1_0000_0000_0000_0000
    }) by (bit_vector);
}

proof fn lemma_digits(v: u64)
    ensures
        (v / 0x100_0000_0000_0000 % 256) * 0x100_0000_0000_0000 + (v / 0x1_0000_0000_0000 % 256)
            * 0x1_0000_0000_0000 + (v / 0x100_0000_0000 % 256) * 0x100_0000_0000 + (v
            / 0x1_0000_0000 % 256) * 0x1_0000_0000 + (v / 0x100_0000 % 256) * 0x100_0000 + (v
            / 0x1_0000 % 256) * 0x1_0000 + (v / 0x100 % 256) * 0x100 + v % 256 == v,
{
    assert((v / 0x100_0000_0000_0000 % 256) * 0x100_0000_0000_0000 + (v / 0x1_0000_0000_0000
        % 256) * 0x1_0000_0000_0000 + (v / 0x100_0000_0000 % 256) * 0x100_0000_0000 + (v
        / 0x1_0000_0000 % 256) * 0x1_0000_0000 + (v / 0x100_0000 % 256) * 0x100_0000 + (v
        / 0x1_0000 % 256) * 0x1_0000 + (v / 0x100 % 256) * 0x100 + v % 256 == v) by (bit_vector);
}

proof fn lemma_digits_of(b0: u8, b1: u8, b2: u8, b3: u8, b4: u8, b5: u8, b6: u8, b7: u8)
    ensures
        ({
            let u = b0 * 0x100_0000_0000_0000 + b1 * 0x1_0000_0000_0000 + b2 * 0x100_0000_0000
                + b3 * 0x1_0000_0000 + b4 * 0x100_0000 + b5 * 0x1_0000 + b6 * 0x100 + b7;
            &&& 0 <= u < 0x1_0000_0000_0000_0000
            &&& u / 0x100_0000_0000_0000 % 256 == b0
            &&& u / 0x1_0000_0000_0000 % 256 == b1
            &&& u / 0x100_0000_0000 % 256 == b2
            &&& u / 0x1_0000_0000 % 256 == b3
            &&& u / 0x100_0000 % 256 == b4
            &&& u / 0x1_0000 % 256 == b5
            &&& u / 0x100 % 256 == b6
            &&& u % 256 == b7
        }),
{
    assert({
        let u = b0 * 0x100_0000_0000_0000 + b1 * 0x1_0000_0000_0000 + b2 * 0x100_0000_0000
            + b3 * 0x1_0000_0000 + b4 * 0x100_0000 + b5 * 0x1_0000 + b6 * 0x100 + b7;
        &&& 0 <= u < 0x1_0000_0000_0000_0000
        &&& u / 0x100_0000_0000_0000 % 256 == b0
        &&& u / 0x1_0000_0000_0000 % 256 == b1
        &&& u / 0x100_0000_0000 % 256 == b2
        &&& u / 0x1_0000_0000 % 256 == b3
        &&& u / 0x100_0000 % 256 == b4
        &&& u / 0x1_0000 % 256 == b5
        &&& u / 0x100 % 256 == b6
        &&& u % 256 == b7
    }) by (bit_vector);
}

proof fn lemma_be_i64_of_bytes(x: i64)
    ensures
        be_i64(be_bytes_i64(x)) == x,
{
    let u: int = if x >= 0 {
        x as int
    } else {
        x + 0x1_0000_0000_0000_0000
    };
    let v = u as u64;
    assert(v as int == u);
    lemma_digits(v);
    lemma_u64_as_i64(v);
    let b = be_bytes_i64(x);
    assert(b[0] * 0x100_0000_0000_0000 + b[1] * 0x1_0000_0000_0000 + b[2] * 0x100_0000_0000
        + b[3] * 0x1_0000_0000 + b[4] * 0x100_0000 + b[5] * 0x1_0000 + b[6] * 0x100 + b[7] == u);
}

proof fn lemma_bytes_of_be_i64(b: Seq<u8>)
    requires
        b.len() == 8,
    ensures
        be_bytes_i64(be_i64(b)) == b,
{
    lemma_digits_of(b[0], b[1], b[2], b[3], b[4], b[5], b[6], b[7]);
    let u = b[0] * 0x100_0000_0000_0000 + b[1] * 0x1_0000_0000_0000 + b[2] * 0x100_0000_0000
        + b[3] * 0x1_0000_0000 + b[4] * 0x100_0000 + b[5] * 0x1_0000 + b[6] * 0x100 + b[7];
    let v = u as u64;
    assert(v as int == u);
    lemma_u64_as_i64(v);
    assert(be_i64(b) as int == (v as i64) as int);
    assert(be_bytes_i64(be_i64(b)) =~= b);
}

proof fn lemma_entitlements_decode(b: Seq<u8>, c: int, ents: Seq<Seq<char>>)
    requires
        0 <= c,
        c + spec_encode_entitlements(ents).len() <= b.len(),
        b.subrange(c, c + spec_encode_entitlements(ents).len()) == spec_encode_entitlements(ents),
        forall|i: int| 0 <= i < ents.len() ==> encode_utf8(#[trigger] ents[i]).len() <= 255,
    ensures
        spec_entitlements(b, c, ents.len() as nat) == Ok::<(Seq<Seq<char>>, int), Error>(
            (ents, c + spec_encode_entitlements(ents).len()),
        ),
    decreases ents.len(),
{
    let whole = spec_encode_entitlements(ents);
    if ents.len() == 0 {
        assert(ents =~= seq![]);
    } else {
        let e = ents[0];
        let enc = encode_utf8(e);
        let rest = spec_encode_entitlements(ents.drop_first());
        let len = enc.len();
        assert(encode_utf8(ents[0]).len() <= 255);
        assert(whole[0] == len as u8);
        assert(b[c] == whole[0]) by {
            assert(b.subrange(c, c + whole.len())[0] == b[c]);
        }
        let start = c + 1;
        assert(b.subrange(start, start + len) =~= enc) by {
            assert forall|k: int| 0 <= k < len implies b.subrange(start, start + len)[k] == enc[k] by {
                assert(b.subrange(c, c + whole.len())[1 + k] == b[start + k]);
                assert(whole[1 + k] == enc[k]);
            }
        }
        encode_utf8_valid_utf8(e);
        encode_utf8_decode_utf8(e);
        assert(b.subrange(start + len, start + len + rest.len()) =~= rest) by {
            assert forall|k: int| 0 <= k < rest.len() implies b.subrange(
                start + len,
                start + len + rest.len(),
            )[k] == rest[k] by {
                assert(b.subrange(c, c + whole.len())[1 + len + k] == b[start + len + k]);
                assert(whole[1 + len + k] == rest[k]);
            }
        }
        assert forall|i: int| 0 <= i < ents.drop_first().len() implies encode_utf8(
            #[trigger] ents.drop_first()[i],
        ).len() <= 255 by {
            assert(ents.drop_first()[i] == ents[i + 1]);
        }
        lemma_entitlements_decode(b, start + len, ents.drop_first());
        assert(seq![decode_utf8(enc)] + ents.drop_first() =~= ents);
    }
}

proof fn lemma_entitlements_encode(b: Seq<u8>, c: int, n: nat)
    requires
        0 <= c <= b.len(),
    ensures
        spec_entitlements(b, c, n) matches Ok((ents, end)) ==> {
            &&& ents.len() == n
            &&& c <= end <= b.len()
            &&& b.subrange(c, end) == spec_encode_entitlements(ents)
            &&& forall|i: int| 0 <= i < ents.len() ==> encode_utf8(#[trigger] ents[i]).len() <= 255
        },
    decreases n,
{
    if n > 0 && c < b.len() {
        let len = b[c] as int;
        let start = c + 1;
        if start + len <= b.len() && valid_utf8(b.subrange(start, start + len)) {
            lemma_entitlements_encode(b, start + len, (n - 1) as nat);
            match spec_entitlements(b, start + len, (n - 1) as nat) {
                Ok((rest, end)) => {
                    let raw = b.subrange(start, start + len);
                    let e = decode_utf8(raw);
                    decode_utf8_encode_utf8(raw);
                    let ents = seq![e] + rest;
                    assert(ents[0] == e);
                    assert(ents.drop_first() =~= rest);
                    assert(b.subrange(c, end) =~= seq![b[c]] + raw + b.subrange(start + len, end));
                    assert(encode_utf8(e).len() == len);
                    assert((len as u8) == b[c]);
                    assert forall|i: int| 0 <= i < ents.len() implies encode_utf8(#[trigger] ents[i]).len() <= 255 by {
                        if i > 0 {
                            assert(ents[i] == rest[i - 1]);
                        }
                    }
                },
                Err(_) => {},
            }
        }
    }
}

/// Decoding the bytes of a writable v2 payload gives that payload back.
pub proof fn law_payload_v2_round_trip(p: PayloadView)
    requires
        encodable_v2(p),
    ensures
        spec_payload(spec_encode_payload_v2(p)) == Ok::<PayloadView, Error>(p),
{
    let b = spec_encode_payload_v2(p);
    let ents = spec_encode_entitlements(p.entitlements);
    let head = seq![KEY_VERSION_V2, p.flags] + p.product_id + p.license_id + be_bytes_i64(
        p.issued_at,
    ) + be_bytes_i64(p.expires_at) + p.fingerprint_hash + seq![p.entitlements.len() as u8];
    assert(b == head + ents);
    assert(head.len() == 83);
    assert(b[0] == KEY_VERSION_V2);
    assert(b[1] == p.flags);
    assert(b.subrange(2, 18) =~= p.product_id);
    assert(b.subrange(18, 34) =~= p.license_id);
    assert(b.subrange(34, 42) =~= be_bytes_i64(p.issued_at));
    assert(b.subrange(42, 50) =~= be_bytes_i64(p.expires_at));
    assert(b.subrange(50, 82) =~= p.fingerprint_hash);
    assert(b[82] == p.entitlements.len() as u8);
    assert(b.subrange(83, 83 + ents.len() as int) =~= ents);
    lemma_be_i64_of_bytes(p.issued_at);
    lemma_be_i64_of_bytes(p.expires_at);
    lemma_entitlements_decode(b, 83, p.entitlements);
}

/// A v2 payload that decodes is exactly the bytes of what it decodes to,
/// and what it decodes to can be written down again.
pub proof fn law_payload_v2_encodes_back(b: Seq<u8>)
    ensures
        spec_payload(b) matches Ok(q) ==> (q.version == KEY_VERSION_V2 ==> {
            &&& encodable_v2(q)
            &&& spec_encode_payload_v2(q) == b
        }),
{
    if b.len() >= 83 && b[0] == KEY_VERSION_V2 {
        lemma_entitlements_encode(b, 83, b[82] as nat);
        match spec_payload(b) {
            Ok(q) => {
                lemma_bytes_of_be_i64(b.subrange(34, 42));
                lemma_bytes_of_be_i64(b.subrange(42, 50));
                assert((q.entitlements.len() as u8) == b[82]);
                assert(spec_encode_payload_v2(q) =~= b.subrange(0, 83) + b.subrange(83, b.len() as int));
                assert(b.subrange(0, 83) + b.subrange(83, b.len() as int) =~= b);
            },
            Err(_) => {},
        }
    }
}

/// Decoding the bytes of a writable v1 payload gives that payload back.
pub proof fn law_payload_v1_round_trip(p: PayloadView)
    requires
        encodable_v1(p),
    ensures
        spec_payload(spec_encode_payload_v1(p)) == Ok::<PayloadView, Error>(p),
{
    let b = spec_encode_payload_v1(p);
    assert(b.len() == 74);
    assert(b[0] == KEY_VERSION_V1);
    assert(b[1] == p.flags);
    assert(b.subrange(2, 18) =~= p.product_id);
    assert(b.subrange(18, 34) =~= p.license_id);
    assert(b.subrange(34, 42) =~= be_bytes_i64(p.issued_at));
    assert(b.subrange(42, 74) =~= p.fingerprint_hash);
    lemma_be_i64_of_bytes(p.issued_at);
    assert(p.entitlements =~= seq![]);
}

/// A v1 payload that decodes is exactly the bytes of what it decodes to,
/// and what it decodes to can be written down again as v1.
pub proof fn law_payload_v1_encodes_back(b: Seq<u8>)
    ensures
        spec_payload(b) matches Ok(q) ==> (q.version == KEY_VERSION_V1 ==> {
            &&& encodable_v1(q)
            &&& spec_encode_payload_v1(q) == b
        }),
{
    if b.len() == 74 && b[0] == KEY_VERSION_V1 {
        lemma_bytes_of_be_i64(b.subrange(34, 42));
        assert(spec_encode_payload_v1(spec_payload(b)->Ok_0) =~= b);
    }
}

/// Every field of a decoded payload is read from its documented offset:
/// version at 0, flags at 1, product id at 2..18, license id at 18..34,
/// issue time (big-endian) at 34..42; then for v1 the fingerprint hash at
/// 42..74, for v2 the expiry at 42..50, the fingerprint hash at 50..82 and
/// the entitlement count at 82.
pub proof fn law_payload_field_offsets(b: Seq<u8>)
    ensures
        spec_payload(b) matches Ok(p) ==> {
            &&& b.len() >= 74
            &&& p.version == b[0]
            &&& p.flags == b[1]
            &&& p.product_id == b.subrange(2, 18)
            &&& p.license_id == b.subrange(18, 34)
            &&& be_bytes_i64(p.issued_at) == b.subrange(34, 42)
            &&& (p.version == KEY_VERSION_V1 ==> {
                &&& b.len() == 74
                &&& p.fingerprint_hash == b.subrange(42, 74)
                &&& p.expires_at == 0
                &&& p.entitlements.len() == 0
            })
            &&& (p.version == KEY_VERSION_V2 ==> {
                &&& b.len() >= 83
                &&& be_bytes_i64(p.expires_at) == b.subrange(42, 50)
                &&& p.fingerprint_hash == b.subrange(50, 82)
                &&& p.entitlements.len() == b[82]
            })
            &&& (p.version == KEY_VERSION_V1 || p.version == KEY_VERSION_V2)
        },
{
    law_payload_v1_encodes_back(b);
    law_payload_v2_encodes_back(b);
    lemma_payload_version(b);
    match spec_payload(b) {
        Ok(p) => {
            if p.version == KEY_VERSION_V1 {
                lemma_v1_offsets(p, b);
            } else {
                lemma_v2_offsets(p, b);
            }
        },
        Err(_) => {},
    }
}

proof fn lemma_payload_version(b: Seq<u8>)
    ensures
        spec_payload(b) matches Ok(p) ==> p.version == b[0] && (p.version == KEY_VERSION_V1
            || p.version == KEY_VERSION_V2),
{
}

proof fn lemma_v1_offsets(p: PayloadView, b: Seq<u8>)
    requires
        encodable_v1(p),
        spec_encode_payload_v1(p) == b,
    ensures
        b.len() == 74,
        p.version == b[0],
        p.flags == b[1],
        p.product_id == b.subrange(2, 18),
        p.license_id == b.subrange(18, 34),
        be_bytes_i64(p.issued_at) == b.subrange(34, 42),
        p.fingerprint_hash == b.subrange(42, 74),
{
    assert(b.subrange(2, 18) =~= p.product_id);
    assert(b.subrange(18, 34) =~= p.license_id);
    assert(b.subrange(34, 42) =~= be_bytes_i64(p.issued_at));
    assert(b.subrange(42, 74) =~= p.fingerprint_hash);
}

proof fn lemma_v2_offsets(p: PayloadView, b: Seq<u8>)
    requires
        encodable_v2(p),
        spec_encode_payload_v2(p) == b,
    ensures
        b.len() >= 83,
        p.version == b[0],
        p.flags == b[1],
        p.product_id == b.subrange(2, 18),
        p.license_id == b.subrange(18, 34),
        be_bytes_i64(p.issued_at) == b.subrange(34, 42),
        be_bytes_i64(p.expires_at) == b.subrange(42, 50),
        p.fingerprint_hash == b.subrange(50, 82),
        p.entitlements.len() == b[82],
{
    assert(b.subrange(2, 18) =~= p.product_id);
    assert(b.subrange(18, 34) =~= p.license_id);
    assert(b.subrange(34, 42) =~= be_bytes_i64(p.issued_at));
    assert(b.subrange(42, 50) =~= be_bytes_i64(p.expires_at));
    assert(b.subrange(50, 82) =~= p.fingerprint_hash);
    assert(b[82] == p.entitlements.len() as u8);
}

} // verus!
