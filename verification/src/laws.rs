//! Properties of the library that relate several of its functions.

use vstd::prelude::*;
use vstd::utf8::encode_utf8;
use vstd::utf8::encode_utf8_decode_utf8;
use crate::error::{decimal_digits, spec_message, Error};
use crate::key::{
    crockford_decode, spec_trial, KEY_PREFIX, spec_entitlements, spec_expired_at, spec_parse_key, spec_payload, spec_split_key, KeyView, PayloadView,
    FLAG_FINGERPRINT_BOUND, FLAG_TRIAL, KEY_VERSION_V1, KEY_VERSION_V2, PAYLOAD_V1_LEN, PAYLOAD_V2_HEAD_LEN, SIGNATURE_LEN,
};
use crate::text::{
    find_char, hex_digit, hex_string, is_unicode_whitespace, trim, trim_end, trim_start, uuid_string,
};
use crate::online::{spec_status_accepted, StatusRule};
use crate::verify::{
    ed25519_verify, sha256, spec_fingerprint_bound, spec_hash_fingerprint, spec_verify,
    spec_verify_parsed, spec_verify_with_fingerprint, spec_verify_with_time,
};

verus! {

proof fn lemma_entitlement_errors(b: Seq<u8>, cursor: int, count: nat)
    ensures
        spec_entitlements(b, cursor, count) matches Err(e) ==> e is BadFormat,
    decreases count,
{
    if count > 0 && cursor < b.len() {
        let start = cursor + 1;
        let len = b[cursor] as int;
        lemma_entitlement_errors(b, start + len, (count - 1) as nat);
    }
}

proof fn lemma_payload_errors(b: Seq<u8>)
    ensures
        spec_payload(b) matches Err(e) ==> e is BadFormat || e is BadPayloadLength
            || e is UnsupportedVersion,
{
    if b.len() >= PAYLOAD_V2_HEAD_LEN {
        lemma_entitlement_errors(b, PAYLOAD_V2_HEAD_LEN as int, b[82] as nat);
    }
}

proof fn lemma_key_errors(key: Seq<char>)
    ensures
        spec_parse_key(key) matches Err(e) ==> e is BadFormat || e is BadEncoding
            || e is BadPayloadLength || e is UnsupportedVersion,
{
    match spec_split_key(key) {
        Ok((p, s)) => {
            match crockford_decode(encode_utf8(p)) {
                Some(pb) => lemma_payload_errors(pb),
                None => {},
            }
        },
        Err(e) => {},
    }
}

proof fn lemma_verify_errors(pk: Seq<u8>, key: Seq<char>)
    ensures
        spec_verify(pk, key) matches Err(e) ==> e is BadFormat || e is BadEncoding
            || e is BadPayloadLength || e is UnsupportedVersion || e is BadSignature,
        spec_verify(pk, key) matches Err(Error::BadSignature) ==> spec_parse_key(key) is Ok,
{
    lemma_key_errors(key);
    match spec_parse_key(key) {
        Ok(k) => lemma_payload_errors(k.signed_bytes),
        Err(e) => {},
    }
}

/// A key that parses holds a payload decoded from its signed bytes: 74 of
/// them for a v1 key, at least 83 for a v2 key, and a 64-byte signature.
pub proof fn law_parsed_key_shape(key: Seq<char>)
    ensures
        spec_parse_key(key) matches Ok(k) ==> {
            &&& spec_payload(k.signed_bytes) == Ok::<PayloadView, Error>(k.payload)
            &&& k.signature.len() == SIGNATURE_LEN
            &&& (k.payload.version == KEY_VERSION_V1 && k.signed_bytes.len() == PAYLOAD_V1_LEN)
                || (k.payload.version == KEY_VERSION_V2 && k.signed_bytes.len()
                >= PAYLOAD_V2_HEAD_LEN)
        },
{
}

/// A v1 payload reads as a v2 payload with the v2-only fields zero-filled:
/// it never expires and grants no entitlements.
pub proof fn law_v1_zero_fills_v2_fields(b: Seq<u8>)
    ensures
        spec_payload(b) matches Ok(p) ==> (p.version == KEY_VERSION_V1 ==> {
            &&& p.expires_at == 0
            &&& p.entitlements.len() == 0
            &&& b.len() == PAYLOAD_V1_LEN
        }),
{
}

/// A key that the verifier accepts was signed with the issuer's key: its
/// signed bytes carry a valid Ed25519 signature under `pk`, and the payload
/// handed out is the one those bytes encode.
pub proof fn law_accepted_key_is_signed_by_issuer(pk: Seq<u8>, key: Seq<char>)
    ensures
        spec_verify(pk, key) matches Ok(ok) ==> (spec_parse_key(key) matches Ok(k) && {
            &&& ed25519_verify(pk, k.signed_bytes, k.signature)
            &&& ok.payload == k.payload
            &&& spec_payload(k.signed_bytes) == Ok::<PayloadView, Error>(ok.payload)
        }),
{
}

/// Whatever a parsed key's fields hold, a successful verification reports
/// only what the issuer signed: the signature verifies over the signed bytes
/// under `pk`, and the payload handed out is the one those bytes decode to.
pub proof fn law_verified_payload_is_signed(pk: Seq<u8>, k: KeyView)
    ensures
        spec_verify_parsed(pk, k) matches Ok(ok) ==> {
            &&& ed25519_verify(pk, k.signed_bytes, k.signature)
            &&& spec_payload(k.signed_bytes) == Ok::<PayloadView, Error>(ok.payload)
        },
{
}

/// Verifying a key string is parsing it, then verifying the parsed key.
pub proof fn law_verify_is_parse_then_verify_parsed(pk: Seq<u8>, key: Seq<char>)
    ensures
        spec_verify(pk, key) == match spec_parse_key(key) {
            Ok(k) => spec_verify_parsed(pk, k),
            Err(e) => Err(e),
        },
{
}

/// Plain verification never reports expiry, whatever the key holds; only
/// the time-checking verification does, and only for keys that verify.
pub proof fn law_only_time_check_reports_expiry(pk: Seq<u8>, key: Seq<char>, fingerprint: Seq<char>, now: i64)
    ensures
        !(spec_verify(pk, key) matches Err(Error::Expired)),
        !(spec_verify_with_fingerprint(pk, key, fingerprint) matches Err(Error::Expired)),
        spec_verify_with_time(pk, key, now) matches Err(Error::Expired) <==> (spec_verify(
            pk,
            key,
        ) matches Ok(ok) && spec_expired_at(ok.payload, now)),
{
    lemma_verify_errors(pk, key);
}

/// Verification reports a bad signature exactly when the key parses and its
/// signature does not verify under `pk`; every format problem is reported
/// as such.
pub proof fn law_bad_signature_means_signature_check_failed(pk: Seq<u8>, key: Seq<char>)
    ensures
        spec_verify(pk, key) matches Err(Error::BadSignature) <==> (spec_parse_key(key) matches Ok(
            k,
        ) && !ed25519_verify(pk, k.signed_bytes, k.signature)),
{
    lemma_verify_errors(pk, key);
}

/// A key that verifies and is not expired at `now` is accepted by the
/// time-checking verification with the same result; a perpetual key is
/// accepted at every `now`.
pub proof fn law_time_check_keeps_unexpired_keys(pk: Seq<u8>, key: Seq<char>, now: i64)
    ensures
        spec_verify(pk, key) matches Ok(ok) ==> (!spec_expired_at(ok.payload, now)
            ==> spec_verify_with_time(pk, key, now) == spec_verify(pk, key)),
        spec_verify(pk, key) matches Ok(ok) ==> (ok.payload.expires_at == 0
            ==> spec_verify_with_time(pk, key, now) == spec_verify(pk, key)),
{
}

/// Once a key has expired it stays expired.
pub proof fn law_expiry_is_monotone(p: PayloadView, t1: i64, t2: i64)
    requires
        t1 <= t2,
    ensures
        spec_expired_at(p, t1) ==> spec_expired_at(p, t2),
{
}

/// The fingerprint is ignored for keys that are not fingerprint-bound; a
/// bound key is accepted exactly when the fingerprint hashes to the hash it
/// carries.
pub proof fn law_fingerprint_check(pk: Seq<u8>, key: Seq<char>, fingerprint: Seq<char>)
    ensures
        spec_verify(pk, key) matches Ok(ok) ==> (!spec_fingerprint_bound(ok.payload)
            ==> spec_verify_with_fingerprint(pk, key, fingerprint) == spec_verify(pk, key)),
        spec_verify(pk, key) matches Ok(ok) ==> (spec_fingerprint_bound(ok.payload) ==> (
        spec_verify_with_fingerprint(pk, key, fingerprint) is Ok <==> spec_hash_fingerprint(
            fingerprint,
        ) == ok.payload.fingerprint_hash)),
        spec_verify(pk, key) is Err ==> spec_verify_with_fingerprint(pk, key, fingerprint)
            == spec_verify(pk, key),
{
}

proof fn lemma_trim_start_shape(s: Seq<char>)
    ensures
        trim_start(s).len() > 0 ==> !is_unicode_whitespace(trim_start(s)[0]),
    decreases s.len(),
{
    if s.len() > 0 && is_unicode_whitespace(s[0]) {
        lemma_trim_start_shape(s.drop_first());
    }
}

proof fn lemma_trim_end_shape(s: Seq<char>)
    ensures
        trim_end(s).len() <= s.len(),
        trim_end(s) == s.subrange(0, trim_end(s).len() as int),
        trim_end(s).len() > 0 ==> !is_unicode_whitespace(trim_end(s).last()),
    decreases s.len(),
{
    if s.len() > 0 && is_unicode_whitespace(s.last()) {
        lemma_trim_end_shape(s.drop_last());
        assert(s.drop_last().subrange(0, trim_end(s).len() as int) =~= s.subrange(
            0,
            trim_end(s).len() as int,
        ));
    } else {
        assert(s.subrange(0, s.len() as int) =~= s);
    }
}

/// Trimming twice trims no more than trimming once.
pub proof fn law_trim_idempotent(s: Seq<char>)
    ensures
        trim(trim(s)) == trim(s),
{
    let t = trim_start(s);
    let u = trim_end(t);
    lemma_trim_start_shape(s);
    lemma_trim_end_shape(t);
    lemma_trim_end_shape(u);
    if u.len() > 0 {
        assert(u[0] == t[0]);
        assert(trim_start(u) == u);
        assert(trim_end(u) == u);
    } else {
        assert(trim_start(u) == u);
        assert(trim_end(u) == u);
    }
}

/// True if every character of `s` is whitespace.
pub open spec fn all_whitespace(s: Seq<char>) -> bool {
    forall|i: int| 0 <= i < s.len() ==> is_unicode_whitespace(#[trigger] s[i])
}

proof fn lemma_trim_start_concat(a: Seq<char>, b: Seq<char>)
    ensures
        trim_start(a + b) == if all_whitespace(a) {
            trim_start(b)
        } else {
            trim_start(a) + b
        },
    decreases a.len(),
{
    if a.len() == 0 {
        assert(a + b =~= b);
    } else {
        assert((a + b)[0] == a[0]);
        assert((a + b).drop_first() =~= a.drop_first() + b);
        lemma_trim_start_concat(a.drop_first(), b);
        if is_unicode_whitespace(a[0]) {
            if all_whitespace(a.drop_first()) {
                assert forall|i: int| 0 <= i < a.len() implies is_unicode_whitespace(#[trigger] a[i]) by {
                    if i > 0 {
                        assert(a[i] == a.drop_first()[i - 1]);
                    }
                }
            } else {
                let j = choose|j: int| 0 <= j < a.drop_first().len() && !is_unicode_whitespace(#[trigger] a.drop_first()[j]);
                assert(a[j + 1] == a.drop_first()[j]);
            }
        }
    }
}

proof fn lemma_trim_end_concat(a: Seq<char>, b: Seq<char>)
    ensures
        trim_end(a + b) == if all_whitespace(b) {
            trim_end(a)
        } else {
            a + trim_end(b)
        },
    decreases b.len(),
{
    if b.len() == 0 {
        assert(a + b =~= a);
    } else {
        assert((a + b).last() == b.last());
        assert((a + b).drop_last() =~= a + b.drop_last());
        lemma_trim_end_concat(a, b.drop_last());
        if is_unicode_whitespace(b.last()) {
            if all_whitespace(b.drop_last()) {
                assert forall|i: int| 0 <= i < b.len() implies is_unicode_whitespace(#[trigger] b[i]) by {
                    if i < b.len() - 1 {
                        assert(b[i] == b.drop_last()[i]);
                    }
                }
            } else {
                let j = choose|j: int| 0 <= j < b.drop_last().len() && !is_unicode_whitespace(#[trigger] b.drop_last()[j]);
                assert(b[j] == b.drop_last()[j]);
            }
        } else {
            assert(!is_unicode_whitespace(b[b.len() - 1]));
        }
    }
}

proof fn lemma_trim_start_all_whitespace(s: Seq<char>)
    ensures
        all_whitespace(s) ==> trim_start(s).len() == 0,
    decreases s.len(),
{
    if s.len() > 0 {
        if all_whitespace(s) {
            assert(is_unicode_whitespace(s[0]));
            assert(all_whitespace(s.drop_first())) by {
                assert forall|i: int| 0 <= i < s.drop_first().len() implies is_unicode_whitespace(#[trigger] s.drop_first()[i]) by {
                    assert(s.drop_first()[i] == s[i + 1]);
                }
            }
        }
        lemma_trim_start_all_whitespace(s.drop_first());
    }
}

/// Whitespace padding on either side of a string is removed by trimming.
pub proof fn law_trim_removes_padding(lead: Seq<char>, s: Seq<char>, trail: Seq<char>)
    requires
        all_whitespace(lead),
        all_whitespace(trail),
    ensures
        trim(lead + s + trail) == trim(s),
{
    assert(lead + s + trail =~= lead + (s + trail));
    lemma_trim_start_concat(lead, s + trail);
    lemma_trim_start_concat(s, trail);
    if all_whitespace(s) {
        lemma_trim_start_all_whitespace(s);
        lemma_trim_start_all_whitespace(trail);
        lemma_trim_start_all_whitespace(s + trail);
        assert(all_whitespace(s + trail)) by {
            assert forall|i: int| 0 <= i < (s + trail).len() implies is_unicode_whitespace(#[trigger] (s + trail)[i]) by {
                if i < s.len() {
                    assert((s + trail)[i] == s[i]);
                } else {
                    assert((s + trail)[i] == trail[i - s.len()]);
                }
            }
        }
        lemma_trim_start_all_whitespace(s + trail);
    } else {
        lemma_trim_end_concat(trim_start(s), trail);
    }
}

/// Whitespace around a key string does not change what it parses to.
pub proof fn law_parse_ignores_surrounding_whitespace(lead: Seq<char>, key: Seq<char>, trail: Seq<char>)
    requires
        all_whitespace(lead),
        all_whitespace(trail),
    ensures
        spec_parse_key(lead + key + trail) == spec_parse_key(key),
        spec_parse_key(trim(key)) == spec_parse_key(key),
{
    law_trim_removes_padding(lead, key, trail);
    law_trim_idempotent(key);
}

proof fn lemma_hex_string(s: Seq<u8>)
    ensures
        hex_string(s).len() == 2 * s.len(),
        forall|i: int|
            0 <= i < s.len() ==> #[trigger] hex_string(s)[2 * i] == hex_digit(s[i] as int / 16)
                && hex_string(s)[2 * i + 1] == hex_digit(s[i] as int % 16),
    decreases s.len(),
{
    if s.len() > 0 {
        lemma_hex_string(s.drop_last());
        assert forall|i: int| 0 <= i < s.len() implies #[trigger] hex_string(s)[2 * i] == hex_digit(
            s[i] as int / 16,
        ) && hex_string(s)[2 * i + 1] == hex_digit(s[i] as int % 16) by {
            if i < s.len() - 1 {
                assert(s[i] == s.drop_last()[i]);
                assert(hex_string(s.drop_last())[2 * i] == hex_digit(s.drop_last()[i] as int / 16));
            }
        }
    }
}

proof fn lemma_hex_digit_injective(a: int, b: int)
    requires
        0 <= a < 16,
        0 <= b < 16,
        hex_digit(a) == hex_digit(b),
    ensures
        a == b,
{
}

proof fn lemma_hex_string_injective(x: Seq<u8>, y: Seq<u8>)
    requires
        x.len() == y.len(),
        hex_string(x) == hex_string(y),
    ensures
        x == y,
{
    lemma_hex_string(x);
    lemma_hex_string(y);
    assert forall|i: int| 0 <= i < x.len() implies x[i] == y[i] by {
        assert(hex_string(x)[2 * i] == hex_digit(x[i] as int / 16));
        assert(hex_string(y)[2 * i] == hex_digit(y[i] as int / 16));
        assert(hex_string(x)[2 * i + 1] == hex_string(y)[2 * i + 1]);
        lemma_hex_digit_injective(x[i] as int / 16, y[i] as int / 16);
        lemma_hex_digit_injective(x[i] as int % 16, y[i] as int % 16);
    }
    assert(x =~= y);
}

/// The UUID text of 16 bytes is 36 characters long, with dashes at
/// positions 8, 13, 18 and 23 and lowercase hex digits elsewhere.
pub proof fn law_uuid_text_shape(b: Seq<u8>)
    requires
        b.len() == 16,
    ensures
        uuid_string(b).len() == 36,
        forall|i: int|
            0 <= i < 36 ==> (#[trigger] uuid_string(b)[i] == '-' <==> (i == 8 || i == 13 || i
                == 18 || i == 23)),
        forall|i: int|
            0 <= i < 36 && i != 8 && i != 13 && i != 18 && i != 23 ==> ('0' <= #[trigger] uuid_string(b)[i] <= '9'
                || 'a' <= uuid_string(b)[i] <= 'f'),
{
    lemma_hex_string(b.subrange(0, 4));
    lemma_hex_string(b.subrange(4, 6));
    lemma_hex_string(b.subrange(6, 8));
    lemma_hex_string(b.subrange(8, 10));
    lemma_hex_string(b.subrange(10, 16));
    let u = uuid_string(b);
    assert forall|i: int| 0 <= i < 36 implies (#[trigger] u[i] == '-' <==> (i == 8 || i == 13
        || i == 18 || i == 23)) && (i != 8 && i != 13 && i != 18 && i != 23 ==> ('0' <= u[i] <= '9'
        || 'a' <= u[i] <= 'f')) by {
        let (part, k): (Seq<u8>, int) = if i < 8 {
            (b.subrange(0, 4), i)
        } else if i < 13 {
            (b.subrange(4, 6), i - 9)
        } else if i < 18 {
            (b.subrange(6, 8), i - 14)
        } else if i < 23 {
            (b.subrange(8, 10), i - 19)
        } else {
            (b.subrange(10, 16), i - 24)
        };
        if i != 8 && i != 13 && i != 18 && i != 23 {
            assert(u[i] == hex_string(part)[k]);
            let j = k / 2;
            assert(hex_string(part)[2 * j] == hex_digit(part[j] as int / 16));
            assert(k == 2 * j || k == 2 * j + 1);
        }
    }
}

/// Distinct ids render as distinct UUID texts.
pub proof fn law_uuid_text_injective(a: Seq<u8>, b: Seq<u8>)
    requires
        a.len() == 16,
        b.len() == 16,
        uuid_string(a) == uuid_string(b),
    ensures
        a == b,
{
    lemma_hex_string(a.subrange(0, 4));
    lemma_hex_string(a.subrange(4, 6));
    lemma_hex_string(a.subrange(6, 8));
    lemma_hex_string(a.subrange(8, 10));
    lemma_hex_string(a.subrange(10, 16));
    lemma_hex_string(b.subrange(0, 4));
    lemma_hex_string(b.subrange(4, 6));
    lemma_hex_string(b.subrange(6, 8));
    lemma_hex_string(b.subrange(8, 10));
    lemma_hex_string(b.subrange(10, 16));
    let ua = uuid_string(a);
    let ub = uuid_string(b);
    assert(ua.subrange(0, 8) =~= hex_string(a.subrange(0, 4)));
    assert(ub.subrange(0, 8) =~= hex_string(b.subrange(0, 4)));
    assert(ua.subrange(9, 13) =~= hex_string(a.subrange(4, 6)));
    assert(ub.subrange(9, 13) =~= hex_string(b.subrange(4, 6)));
    assert(ua.subrange(14, 18) =~= hex_string(a.subrange(6, 8)));
    assert(ub.subrange(14, 18) =~= hex_string(b.subrange(6, 8)));
    assert(ua.subrange(19, 23) =~= hex_string(a.subrange(8, 10)));
    assert(ub.subrange(19, 23) =~= hex_string(b.subrange(8, 10)));
    assert(ua.subrange(24, 36) =~= hex_string(a.subrange(10, 16)));
    assert(ub.subrange(24, 36) =~= hex_string(b.subrange(10, 16)));
    lemma_hex_string_injective(a.subrange(0, 4), b.subrange(0, 4));
    lemma_hex_string_injective(a.subrange(4, 6), b.subrange(4, 6));
    lemma_hex_string_injective(a.subrange(6, 8), b.subrange(6, 8));
    lemma_hex_string_injective(a.subrange(8, 10), b.subrange(8, 10));
    lemma_hex_string_injective(a.subrange(10, 16), b.subrange(10, 16));
    assert forall|i: int| 0 <= i < 16 implies a[i] == b[i] by {
        if i < 4 {
            assert(a.subrange(0, 4)[i] == b.subrange(0, 4)[i]);
        } else if i < 6 {
            assert(a.subrange(4, 6)[i - 4] == b.subrange(4, 6)[i - 4]);
        } else if i < 8 {
            assert(a.subrange(6, 8)[i - 6] == b.subrange(6, 8)[i - 6]);
        } else if i < 10 {
            assert(a.subrange(8, 10)[i - 8] == b.subrange(8, 10)[i - 8]);
        } else {
            assert(a.subrange(10, 16)[i - 10] == b.subrange(10, 16)[i - 10]);
        }
    }
    assert(a =~= b);
}

/// Every key that parses and whose signature verifies under `pk` is
/// accepted, whatever its flags or other fields hold; the result carries the
/// parsed payload and its ids as UUID text.
pub proof fn law_signed_keys_are_accepted(pk: Seq<u8>, key: Seq<char>)
    ensures
        spec_parse_key(key) matches Ok(k) ==> (ed25519_verify(pk, k.signed_bytes, k.signature)
            ==> (spec_verify(pk, key) matches Ok(ok) && ok.payload == k.payload && ok.license_id
            == uuid_string(k.payload.license_id) && ok.product_id == uuid_string(
            k.payload.product_id,
        ))),
{
    law_parsed_key_shape(key);
}

/// A key whose signature verifies under `pk` and whose signed bytes decode
/// is accepted by `verify_parsed`, with the decoded payload.
pub proof fn law_verify_parsed_accepts_signed_payloads(pk: Seq<u8>, k: KeyView)
    ensures
        ed25519_verify(pk, k.signed_bytes, k.signature) ==> (spec_payload(k.signed_bytes) matches Ok(
            p,
        ) ==> (spec_verify_parsed(pk, k) matches Ok(ok) && ok.payload == p)),
{
}

proof fn lemma_low_bit(f: u8)
    ensures
        (f & FLAG_FINGERPRINT_BOUND != 0) == (f % 2 == 1),
{
    assert((f & 1u8 != 0) == (f % 2 == 1)) by (bit_vector);
}

/// The fingerprint binding follows bit 0 of the flags alone: for a verified
/// key with that bit set, the fingerprint check succeeds exactly when the
/// SHA-256 of the fingerprint's UTF-8 bytes is the key's fingerprint hash,
/// whatever the other bits hold; with the bit clear the fingerprint is
/// ignored.
pub proof fn law_fingerprint_binding_follows_bit_zero(pk: Seq<u8>, key: Seq<char>, fingerprint: Seq<char>)
    ensures
        spec_verify(pk, key) matches Ok(ok) ==> {
            &&& ok.payload.flags % 2 == 1 ==> (spec_verify_with_fingerprint(pk, key, fingerprint)
                is Ok <==> sha256(encode_utf8(fingerprint)) == ok.payload.fingerprint_hash)
            &&& ok.payload.flags % 2 == 0 ==> spec_verify_with_fingerprint(pk, key, fingerprint)
                == spec_verify(pk, key)
            &&& spec_verify_with_fingerprint(pk, key, fingerprint) is Ok ==> spec_verify_with_fingerprint(
                pk,
                key,
                fingerprint,
            ) == spec_verify(pk, key)
        },
{
    match spec_verify(pk, key) {
        Ok(ok) => lemma_low_bit(ok.payload.flags),
        Err(_) => {},
    }
}

/// The fingerprint hash is the SHA-256 of exactly the UTF-8 bytes of the raw
/// fingerprint, and distinct fingerprints are hashed as distinct inputs.
pub proof fn law_fingerprint_hash_is_sha256_of_utf8(raw: Seq<char>, other: Seq<char>)
    ensures
        spec_hash_fingerprint(raw) == sha256(encode_utf8(raw)),
        raw != other ==> encode_utf8(raw) != encode_utf8(other),
{
    encode_utf8_decode_utf8(raw);
    encode_utf8_decode_utf8(other);
}

/// Under `AnySuccess` every `2xx` status is accepted and nothing else; under
/// `ExactlyOk` only `200` is.
pub proof fn law_status_rules(status: u16)
    ensures
        spec_status_accepted(status, StatusRule::AnySuccess) <==> 200 <= status <= 299,
        spec_status_accepted(status, StatusRule::ExactlyOk) <==> status == 200,
{
}

/// A perpetual key never expires; any other key expires exactly from its
/// `expires_at` on. The time-checking verification of a verified key
/// succeeds exactly when the key is perpetual or `now` is before its expiry.
pub proof fn law_expiry_boundary(p: PayloadView, pk: Seq<u8>, key: Seq<char>, now: i64)
    ensures
        p.expires_at == 0 ==> !spec_expired_at(p, now),
        p.expires_at != 0 ==> (spec_expired_at(p, now) <==> now >= p.expires_at),
        spec_verify(pk, key) matches Ok(ok) ==> (spec_verify_with_time(pk, key, now) is Ok <==> (
        ok.payload.expires_at == 0 || now < ok.payload.expires_at)),
{
}

proof fn lemma_find_char_at(s: Seq<char>, c: char, from: int, i: int)
    requires
        0 <= from <= i < s.len(),
        s[i] == c,
        forall|k: int| from <= k < i ==> s[k] != c,
    ensures
        find_char(s, c, from) == Some(i),
    decreases i - from,
{
    if from < i {
        lemma_find_char_at(s, c, from + 1, i);
    }
}

/// A key written as `LIC1-<payload text>-<signature text>` parses whenever
/// its texts decode as Crockford base32 to a payload that decodes and a
/// 64-byte signature, whatever the payload's fields hold: the payload text
/// must hold no dash and the key must not end in whitespace.
pub proof fn law_well_formed_keys_parse(
    payload_text: Seq<char>,
    signature_text: Seq<char>,
    payload: Seq<u8>,
    signature: Seq<u8>,
)
    requires
        forall|k: int| 0 <= k < payload_text.len() ==> payload_text[k] != '-',
        signature_text.len() > 0 ==> !is_unicode_whitespace(signature_text.last()),
        crockford_decode(encode_utf8(payload_text)) == Some(payload),
        crockford_decode(encode_utf8(signature_text)) == Some(signature),
        spec_payload(payload) is Ok,
        signature.len() == SIGNATURE_LEN,
    ensures
        spec_parse_key(seq!['L', 'I', 'C', '1', '-'] + payload_text + seq!['-'] + signature_text)
            == Ok::<KeyView, Error>(
            KeyView {
                payload: spec_payload(payload)->Ok_0,
                signed_bytes: payload,
                signature: signature,
            },
        ),
{
    let key = seq!['L', 'I', 'C', '1', '-'] + payload_text + seq!['-'] + signature_text;
    let n = payload_text.len() as int;
    assert(key[0] == 'L');
    assert(trim_start(key) == key);
    if signature_text.len() > 0 {
        assert(key.last() == signature_text.last());
    } else {
        assert(key.last() == '-');
    }
    assert(trim_end(key) == key);
    assert(trim(key) == key);
    assert(key[4] == '-');
    lemma_find_char_at(key, '-', 0, 4);
    assert(key[5 + n] == '-');
    assert forall|k: int| 5 <= k < 5 + n implies key[k] != '-' by {
        assert(key[k] == payload_text[k - 5]);
    }
    lemma_find_char_at(key, '-', 5, 5 + n);
    reveal_strlit("LIC1");
    assert(key.subrange(0, 4) =~= KEY_PREFIX@);
    assert(key.subrange(5, 5 + n) =~= payload_text);
    assert(key.subrange(6 + n, key.len() as int) =~= signature_text);
}

proof fn lemma_bits(f: u8)
    ensures
        (f & FLAG_FINGERPRINT_BOUND != 0) == (f % 2 == 1),
        (f & FLAG_TRIAL != 0) == ((f / 2) % 2 == 1),
{
    assert((f & 1u8 != 0) == (f % 2 == 1)) by (bit_vector);
    assert((f & 2u8 != 0) == ((f / 2) % 2 == 1)) by (bit_vector);
}

/// The flags are a bitset: a key is fingerprint-bound exactly when bit 0 of
/// its flags is set and a trial exactly when bit 1 is, whatever the other
/// bits hold.
pub proof fn law_flag_bits(p: PayloadView)
    ensures
        spec_fingerprint_bound(p) <==> p.flags % 2 == 1,
        spec_trial(p) <==> (p.flags / 2) % 2 == 1,
{
    lemma_bits(p.flags);
}

/// A parsed key's text, once trimmed, starts with `LIC1-`.
pub proof fn law_parsed_keys_have_prefix(key: Seq<char>)
    ensures
        spec_parse_key(key) is Ok ==> trim(key).len() >= 5 && trim(key).subrange(0, 5) == seq![
            'L',
            'I',
            'C',
            '1',
            '-',
        ],
{
    let t = trim(key);
    lemma_find_char(t, '-', 0);
    reveal_strlit("LIC1");
    if spec_parse_key(key) is Ok {
        let i = find_char(t, '-', 0)->Some_0;
        assert(t.subrange(0, i) == KEY_PREFIX@);
        assert(t.subrange(0, 5) =~= seq!['L', 'I', 'C', '1', '-']) by {
            assert(t.subrange(0, i)[0] == t[0]);
            assert(t.subrange(0, i)[1] == t[1]);
            assert(t.subrange(0, i)[2] == t[2]);
            assert(t.subrange(0, i)[3] == t[3]);
        }
    }
}

proof fn lemma_find_char(s: Seq<char>, c: char, from: int)
    ensures
        find_char(s, c, from) matches Some(i) ==> 0 <= from <= i < s.len() && s[i] == c,
    decreases s.len() - from,
{
    if 0 <= from < s.len() && s[from] != c {
        lemma_find_char(s, c, from + 1);
    }
}

/// How a key whose text splits is rejected for its encoding: a payload text
/// that does not decode is a bad payload encoding, whatever the signature
/// text; a signature text that does not decode is a bad signature encoding;
/// a payload that decodes but is malformed reports its own error before the
/// signature's size is looked at; and a signature of any size but 64 bytes
/// is refused.
pub proof fn law_key_decoding_errors(key: Seq<char>)
    ensures
        spec_split_key(key) matches Ok((p, s)) ==> {
            &&& crockford_decode(encode_utf8(p)) is None ==> spec_parse_key(key) == Err::<
                KeyView,
                Error,
            >(Error::BadEncoding("payload"))
            &&& crockford_decode(encode_utf8(p)) is Some && crockford_decode(encode_utf8(s)) is None
                ==> spec_parse_key(key) == Err::<KeyView, Error>(Error::BadEncoding("signature"))
            &&& crockford_decode(encode_utf8(p)) matches Some(pb) ==> (crockford_decode(
                encode_utf8(s),
            ) is Some ==> (spec_payload(pb) matches Err(e) ==> spec_parse_key(key) == Err::<
                KeyView,
                Error,
            >(e)))
            &&& crockford_decode(encode_utf8(p)) matches Some(pb) ==> (crockford_decode(
                encode_utf8(s),
            ) matches Some(sb) ==> (spec_payload(pb) is Ok ==> (spec_parse_key(key) is Ok
                <==> sb.len() == 64)))
        },
        spec_split_key(key) matches Err(e) ==> spec_parse_key(key) == Err::<KeyView, Error>(e),
{
}

/// How a payload is rejected: an empty one for its length against the v1
/// size, an unknown version by its number, a v1 payload of any size but 74
/// and a v2 payload shorter than 83 by their lengths.
pub proof fn law_payload_errors(b: Seq<u8>)
    ensures
        b.len() == 0 ==> spec_payload(b) == Err::<PayloadView, Error>(
            Error::BadPayloadLength { expected: 74, got: 0 },
        ),
        b.len() > 0 && b[0] != 1 && b[0] != 2 ==> spec_payload(b) == Err::<PayloadView, Error>(
            Error::UnsupportedVersion(b[0]),
        ),
        b.len() > 0 && b[0] == 1 && b.len() != 74 ==> spec_payload(b) == Err::<PayloadView, Error>(
            Error::BadPayloadLength { expected: 74, got: b.len() as usize },
        ),
        b.len() > 0 && b[0] == 2 && b.len() < 83 ==> spec_payload(b) == Err::<PayloadView, Error>(
            Error::BadPayloadLength { expected: 83, got: b.len() as usize },
        ),
{
}

/// The whitespace that trimming removes is exactly the Unicode `White_Space`
/// set: U+0009 to U+000D, U+0020, U+0085, U+00A0, U+1680, U+2000 to U+200A,
/// U+2028, U+2029, U+202F, U+205F and U+3000.
pub proof fn law_whitespace_set(c: char)
    ensures
        is_unicode_whitespace(c) <==> ({
            let u = c as u32;
            (9 <= u && u <= 13) || u == 32 || u == 133 || u == 160 || u == 5760 || (8192 <= u && u
                <= 8202) || u == 8232 || u == 8233 || u == 8239 || u == 8287 || u == 12288
        }),
{
}

/// The UUID text of 16 bytes holds each byte as two lowercase hex digits,
/// high nibble first, in byte order: bytes 0..4 at 0..8, bytes 4..6 at
/// 9..13, bytes 6..8 at 14..18, bytes 8..10 at 19..23, bytes 10..16 at 24..36.
pub proof fn law_uuid_text_digits(b: Seq<u8>, i: int)
    requires
        b.len() == 16,
        0 <= i < 16,
    ensures
        ({
            let pos = 2 * i + if i >= 10 {
                4int
            } else if i >= 8 {
                3int
            } else if i >= 6 {
                2int
            } else if i >= 4 {
                1int
            } else {
                0int
            };
            let hi = b[i] as int / 16;
            let lo = b[i] as int % 16;
            &&& uuid_string(b)[pos] == (if hi < 10 {
                (48 + hi) as char
            } else {
                (87 + hi) as char
            })
            &&& uuid_string(b)[pos + 1] == (if lo < 10 {
                (48 + lo) as char
            } else {
                (87 + lo) as char
            })
        }),
{
    lemma_hex_string(b.subrange(0, 4));
    lemma_hex_string(b.subrange(4, 6));
    lemma_hex_string(b.subrange(6, 8));
    lemma_hex_string(b.subrange(8, 10));
    lemma_hex_string(b.subrange(10, 16));
    let (part, k): (Seq<u8>, int) = if i < 4 {
        (b.subrange(0, 4), i)
    } else if i < 6 {
        (b.subrange(4, 6), i - 4)
    } else if i < 8 {
        (b.subrange(6, 8), i - 6)
    } else if i < 10 {
        (b.subrange(8, 10), i - 8)
    } else {
        (b.subrange(10, 16), i - 10)
    };
    assert(part[k] == b[i]);
    assert(hex_string(part)[2 * k] == hex_digit(part[k] as int / 16));
    assert(hex_string(part)[2 * k + 1] == hex_digit(part[k] as int % 16));
}

/// Each error's message is its fixed text followed by what the error carries.
pub proof fn law_error_messages(m: &'static str, text: String, n: usize, k: usize, v: u8, status: u16)
    ensures
        spec_message(Error::BadFormat(m)) == "bad key format: "@ + m@,
        spec_message(Error::BadEncoding(m)) == "bad encoding: "@ + m@,
        spec_message(Error::BadPayloadLength { expected: n, got: k }) == "bad payload length: expected "@
            + decimal_digits(n as nat) + ", got "@ + decimal_digits(k as nat),
        spec_message(Error::UnsupportedVersion(v)) == "unsupported key version "@ + decimal_digits(
            v as nat,
        ),
        spec_message(Error::BadSignature) == "signature verification failed"@,
        spec_message(Error::Expired) == "license expired"@,
        spec_message(Error::BadPublicKey(text)) == "bad public key PEM: "@ + text@,
        spec_message(Error::Http(text)) == "HTTP error: "@ + text@,
        spec_message(Error::Server { status: status, body: text }) == "server error ("@
            + decimal_digits(status as nat) + "): "@ + text@,
        spec_message(Error::BadUrl(text)) == "bad URL: "@ + text@,
        spec_message(Error::Other(text)) == text@,
{
}

/// Decimal digits: a number below ten is its one digit, any other is the
/// digits of its tenth followed by the digit of its last place.
pub proof fn law_decimal_digits(n: nat)
    ensures
        n < 10 ==> decimal_digits(n) == seq![(48 + n) as char],
        n >= 10 ==> decimal_digits(n) == decimal_digits(n / 10) + seq![(48 + n % 10) as char],
{
}

} // verus!
