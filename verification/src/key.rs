//! License-key parsing.
//!
//! A key string looks like `LIC1-<payload_b32>-<signature_b32>`. Both halves
//! are Crockford-style base32 (no padding) of the raw bytes.
//!
//! v1 payload (74 bytes, fixed): version = 1, flags, product_id (16),
//! license_id (16), issued_at (i64 big-endian), fingerprint_hash (32).
//!
//! v2 payload (83 bytes + variable-length entitlements): version = 2, flags,
//! product_id (16), license_id (16), issued_at (8), expires_at (8, 0 =
//! perpetual), fingerprint_hash (32), num_entitlements (1), then each
//! entitlement as `[u8 len] [len bytes of UTF-8 slug]`.
//!
//! v1 keys read as v2 keys with the v2-only fields zero-filled.

use vstd::prelude::*;
use vstd::slice::slice_subrange;
use vstd::utf8::{decode_utf8, encode_utf8, encode_utf8_decode_utf8, valid_utf8};
use vstd::string::{StrSliceExecFns, StringSliceAdditionalSpecFns};
use crate::error::{Error, Result};
use crate::text::{
    collect_chars, find_char, find_in, str_eq, trim, trim_bounds, uuid_string, uuid_to_string,
};

verus! {

/// Key prefix every valid key starts with.
pub const KEY_PREFIX: &'static str = "LIC1";

/// Ed25519 signature length on the wire.
pub const SIGNATURE_LEN: usize = 64;

/// v1 payload length (fixed).
pub const PAYLOAD_V1_LEN: usize = 74;

/// v2 fixed-head length: bytes before the variable entitlements tail.
pub const PAYLOAD_V2_HEAD_LEN: usize = 83;

/// v1 format identifier.
pub const KEY_VERSION_V1: u8 = 1;

/// v2 format identifier. New keys are issued as v2.
pub const KEY_VERSION_V2: u8 = 2;

/// Highest format version this client understands.
pub const KEY_VERSION: u8 = KEY_VERSION_V2;

/// Set when the key is bound to a specific machine fingerprint hash.
pub const FLAG_FINGERPRINT_BOUND: u8 = 0b0000_0001;

/// Set on keys that represent a trial.
pub const FLAG_TRIAL: u8 = 0b0000_0010;

/// The value of eight bytes read as a big-endian two's-complement integer.
pub open spec fn be_i64(b: Seq<u8>) -> i64 {
    (b[0] * 0x100_0000_0000_0000 + b[1] * 0x1_0000_0000_0000 + b[2] * 0x100_0000_0000
        + b[3] * 0x1_0000_0000 + b[4] * 0x100_0000 + b[5] * 0x1_0000 + b[6] * 0x100
        + b[7]) as i64
}

/// Mathematical model of a decoded payload.
pub struct PayloadView {
    pub version: u8,
    pub flags: u8,
    pub product_id: Seq<u8>,
    pub license_id: Seq<u8>,
    pub issued_at: i64,
    pub expires_at: i64,
    pub fingerprint_hash: Seq<u8>,
    pub entitlements: Seq<Seq<char>>,
}

/// The `Ok` value of a result taken by its view; errors are kept as they are.
pub open spec fn result_view<T: View>(r: Result<T>) -> Result<T::V> {
    match r {
        Ok(v) => Ok(v@),
        Err(e) => Err(e),
    }
}

/// What decoding a v1 payload gives.
pub open spec fn spec_payload_v1(b: Seq<u8>) -> Result<PayloadView> {
    if b.len() != PAYLOAD_V1_LEN {
        Err(Error::BadPayloadLength { expected: PAYLOAD_V1_LEN, got: b.len() as usize })
    } else {
        Ok(PayloadView {
            version: KEY_VERSION_V1,
            flags: b[1],
            product_id: b.subrange(2, 18),
            license_id: b.subrange(18, 34),
            issued_at: be_i64(b.subrange(34, 42)),
            expires_at: 0,
            fingerprint_hash: b.subrange(42, 74),
            entitlements: seq![],
        })
    }
}

/// Reads `count` length-prefixed UTF-8 entitlements from `b`, starting at
/// `cursor`; gives the slugs and the position after the last one.
pub open spec fn spec_entitlements(b: Seq<u8>, cursor: int, count: nat) -> Result<
    (Seq<Seq<char>>, int),
>
    decreases count,
{
    if count == 0 {
        Ok((seq![], cursor))
    } else if cursor >= b.len() {
        Err(Error::BadFormat("truncated entitlement list"))
    } else {
        let len = b[cursor] as int;
        let start = cursor + 1;
        if start + len > b.len() {
            Err(Error::BadFormat("truncated entitlement"))
        } else if !valid_utf8(b.subrange(start, start + len)) {
            Err(Error::BadFormat("entitlement not utf-8"))
        } else {
            match spec_entitlements(b, start + len, (count - 1) as nat) {
                Ok((rest, end)) => Ok((seq![decode_utf8(b.subrange(start, start + len))] + rest, end)),
                Err(e) => Err(e),
            }
        }
    }
}

/// What decoding a v2 payload gives.
pub open spec fn spec_payload_v2(b: Seq<u8>) -> Result<PayloadView> {
    if b.len() < PAYLOAD_V2_HEAD_LEN {
        Err(Error::BadPayloadLength { expected: PAYLOAD_V2_HEAD_LEN, got: b.len() as usize })
    } else {
        match spec_entitlements(b, PAYLOAD_V2_HEAD_LEN as int, b[82] as nat) {
            Err(e) => Err(e),
            Ok((ents, end)) => if end != b.len() {
                Err(Error::BadFormat("trailing bytes in payload"))
            } else {
                Ok(PayloadView {
                    version: KEY_VERSION_V2,
                    flags: b[1],
                    product_id: b.subrange(2, 18),
                    license_id: b.subrange(18, 34),
                    issued_at: be_i64(b.subrange(34, 42)),
                    expires_at: be_i64(b.subrange(42, 50)),
                    fingerprint_hash: b.subrange(50, 82),
                    entitlements: ents,
                })
            },
        }
    }
}

/// What decoding a payload of either version gives.
pub open spec fn spec_payload(b: Seq<u8>) -> Result<PayloadView> {
    if b.len() == 0 {
        Err(Error::BadPayloadLength { expected: PAYLOAD_V1_LEN, got: 0 })
    } else if b[0] == KEY_VERSION_V1 {
        spec_payload_v1(b)
    } else if b[0] == KEY_VERSION_V2 {
        spec_payload_v2(b)
    } else {
        Err(Error::UnsupportedVersion(b[0]))
    }
}

/// True if the payload is flagged as a trial.
pub open spec fn spec_trial(p: PayloadView) -> bool {
    p.flags & FLAG_TRIAL != 0
}

/// True if `now` is at or past the payload's expiry; never for perpetual keys.
pub open spec fn spec_expired_at(p: PayloadView, now: i64) -> bool {
    p.expires_at != 0 && now >= p.expires_at
}

/// True if one of `list` holds the same characters as `slug`.
pub(crate) fn strings_contain(list: &Vec<String>, slug: &str) -> (r: bool)
    ensures
        r == strings_view(list@).contains(slug@),
{
    let mut i: usize = 0;
    while i < list.len()
        invariant
            i <= list@.len(),
            forall|j: int| 0 <= j < i ==> list@[j]@ != slug@,
        decreases list@.len() - i,
    {
        if str_eq(list[i].as_str(), slug) {
            assert(strings_view(list@)[i as int] == slug@);
            return true;
        }
        i = i + 1;
    }
    assert(!strings_view(list@).contains(slug@)) by {
        if strings_view(list@).contains(slug@) {
            let j = choose|j: int| 0 <= j < strings_view(list@).len() && strings_view(list@)[j] == slug@;
            assert(list@[j]@ == slug@);
        }
    }
    false
}

/// Calls `std::str::from_utf8`, which accepts exactly the well-formed UTF-8
/// byte sequences and then hands out the same bytes as a string slice.
#[verifier::external_body]
fn str_from_utf8<'a>(bytes: &'a [u8]) -> (r: Option<&'a str>)
    ensures
        r is Some <==> valid_utf8(bytes@),
        r matches Some(s) ==> s.spec_bytes() == bytes@,
{
    match std::str::from_utf8(bytes) {
        Ok(s) => Some(s),
        Err(_) => None,
    }
}

/// Reads eight bytes at `start` as a big-endian `i64`.
fn read_be_i64(bytes: &[u8], start: usize) -> (r: i64)
    requires
        start + 8 <= bytes.len(),
    ensures
        r == be_i64(bytes@.subrange(start as int, start + 8)),
{
    let b = slice_subrange(bytes, start, start + 8);
    let v: u64 = b[0] as u64 * 0x100_0000_0000_0000 + b[1] as u64 * 0x1_0000_0000_0000
        + b[2] as u64 * 0x100_0000_0000 + b[3] as u64 * 0x1_0000_0000 + b[4] as u64
        * 0x100_0000 + b[5] as u64 * 0x1_0000 + b[6] as u64 * 0x100 + b[7] as u64;
    #[verifier::truncate] (v as i64)
}

/// Copies `N` bytes starting at `start` into an array.
fn read_array<const N: usize>(bytes: &[u8], start: usize) -> (r: [u8; N])
    requires
        start + N <= bytes.len(),
    ensures
        r@ == bytes@.subrange(start as int, start + N),
{
    let mut out: [u8; N] = vstd::array::array_fill_for_copy_types(0u8);
    let mut i: usize = 0;
    while i < N
        invariant
            i <= N,
            start + N <= bytes.len(),
            out@.len() == N,
            forall|j: int| 0 <= j < i ==> out@[j] == bytes@[start + j],
        decreases N - i,
    {
        out[i] = bytes[start + i];
        i = i + 1;
    }
    assert(out@ =~= bytes@.subrange(start as int, start + N));
    out
}


/// Decoded payload fields. 16-byte UUIDs are kept as raw bytes.
#[derive(Debug)]
pub struct LicensePayload {
    /// Format version (1 or 2).
    pub version: u8,
    /// Feature flags (see [`FLAG_FINGERPRINT_BOUND`], [`FLAG_TRIAL`]).
    pub flags: u8,
    /// 16-byte product id.
    pub product_id: [u8; 16],
    /// 16-byte license id.
    pub license_id: [u8; 16],
    /// Unix seconds issued.
    pub issued_at: i64,
    /// Unix seconds when the key expires, or `0` for perpetual. Always `0`
    /// on v1 keys.
    pub expires_at: i64,
    /// SHA-256 hash of the bound fingerprint, or all-zeros.
    pub fingerprint_hash: [u8; 32],
    /// Entitlement slugs granted by this license. Empty on v1 keys.
    pub entitlements: Vec<String>,
}

/// The slugs of a list of strings, each by its characters.
pub open spec fn strings_view(v: Seq<String>) -> Seq<Seq<char>> {
    v.map_values(|s: String| s@)
}

impl Clone for LicensePayload {
    fn clone(&self) -> (r: Self)
        ensures
            r@ == self@,
    {
        let mut entitlements: Vec<String> = Vec::new();
        let mut i: usize = 0;
        while i < self.entitlements.len()
            invariant
                i <= self.entitlements@.len(),
                strings_view(entitlements@) =~= strings_view(self.entitlements@.take(i as int)),
            decreases self.entitlements@.len() - i,
        {
            let s = self.entitlements[i].clone();
            let ghost prev = entitlements@;
            entitlements.push(s);
            assert(entitlements@ == prev.push(s));
            assert(self.entitlements@.take(i + 1) =~= self.entitlements@.take(i as int).push(self.entitlements@[i as int]));
            assert(strings_view(entitlements@) =~= strings_view(prev).push(s@));
            assert(strings_view(self.entitlements@.take(i + 1)) =~= strings_view(self.entitlements@.take(i as int)).push(s@));
            i = i + 1;
        }
        assert(self.entitlements@.take(i as int) =~= self.entitlements@);
        LicensePayload {
            version: self.version,
            flags: self.flags,
            product_id: self.product_id,
            license_id: self.license_id,
            issued_at: self.issued_at,
            expires_at: self.expires_at,
            fingerprint_hash: self.fingerprint_hash,
            entitlements,
        }
    }
}

impl View for LicensePayload {
    type V = PayloadView;

    open spec fn view(&self) -> PayloadView {
        PayloadView {
            version: self.version,
            flags: self.flags,
            product_id: self.product_id@,
            license_id: self.license_id@,
            issued_at: self.issued_at,
            expires_at: self.expires_at,
            fingerprint_hash: self.fingerprint_hash@,
            entitlements: strings_view(self.entitlements@),
        }
    }
}

impl LicensePayload {
    /// True if this key was issued bound to a specific machine fingerprint.
    pub fn is_fingerprint_bound(&self) -> (r: bool)
        ensures
            r == (self.flags & FLAG_FINGERPRINT_BOUND != 0),
            r == crate::verify::spec_fingerprint_bound(self@),
    {
        self.flags & FLAG_FINGERPRINT_BOUND != 0
    }

    /// True if this key represents a trial.
    pub fn is_trial(&self) -> (r: bool)
        ensures
            r == (self.flags & FLAG_TRIAL != 0),
            r == spec_trial(self@),
    {
        self.flags & FLAG_TRIAL != 0
    }

    /// True if `now_unix` is at or past `expires_at`. Always false for
    /// perpetual keys (`expires_at == 0`).
    pub fn is_expired_at(&self, now_unix: i64) -> (r: bool)
        ensures
            r == spec_expired_at(self@, now_unix),
    {
        self.expires_at != 0 && now_unix >= self.expires_at
    }

    /// True if this license grants the given entitlement slug.
    pub fn has_entitlement(&self, slug: &str) -> (r: bool)
        ensures
            r == self@.entitlements.contains(slug@),
    {
        strings_contain(&self.entitlements, slug)
    }

    /// The 16-byte product id as a lowercase UUID string.
    pub fn product_uuid(&self) -> (r: String)
        ensures
            r@ == uuid_string(self.product_id@),
    {
        uuid_to_string(&self.product_id)
    }

    /// The 16-byte license id as a lowercase UUID string.
    pub fn license_uuid(&self) -> (r: String)
        ensures
            r@ == uuid_string(self.license_id@),
    {
        uuid_to_string(&self.license_id)
    }

    /// Decodes the payload bytes of a key of either version.
    pub fn from_bytes(bytes: &[u8]) -> (r: Result<Self>)
        ensures
            result_view(r) == spec_payload(bytes@),
    {
        if bytes.len() == 0 {
            return Err(Error::BadPayloadLength { expected: PAYLOAD_V1_LEN, got: 0 });
        }
        if bytes[0] == KEY_VERSION_V1 {
            Self::from_bytes_v1(bytes)
        } else if bytes[0] == KEY_VERSION_V2 {
            Self::from_bytes_v2(bytes)
        } else {
            Err(Error::UnsupportedVersion(bytes[0]))
        }
    }

    /// Decodes a v1 payload: exactly 74 bytes, v2-only fields zero-filled.
    fn from_bytes_v1(bytes: &[u8]) -> (r: Result<Self>)
        ensures
            result_view(r) == spec_payload_v1(bytes@),
    {
        if bytes.len() != PAYLOAD_V1_LEN {
            return Err(Error::BadPayloadLength { expected: PAYLOAD_V1_LEN, got: bytes.len() });
        }
        let product_id: [u8; 16] = read_array(bytes, 2);
        let license_id: [u8; 16] = read_array(bytes, 18);
        let issued_at = read_be_i64(bytes, 34);
        let fingerprint_hash: [u8; 32] = read_array(bytes, 42);
        let r = LicensePayload {
            version: KEY_VERSION_V1,
            flags: bytes[1],
            product_id,
            license_id,
            issued_at,
            expires_at: 0,
            fingerprint_hash,
            entitlements: Vec::new(),
        };
        assert(strings_view(r.entitlements@) =~= seq![]);
        Ok(r)
    }

    /// Decodes a v2 payload: the fixed head, then the entitlements, which
    /// must use up every remaining byte.
    fn from_bytes_v2(bytes: &[u8]) -> (r: Result<Self>)
        ensures
            result_view(r) == spec_payload_v2(bytes@),
    {
        if bytes.len() < PAYLOAD_V2_HEAD_LEN {
            return Err(Error::BadPayloadLength { expected: PAYLOAD_V2_HEAD_LEN, got: bytes.len() });
        }
        let product_id: [u8; 16] = read_array(bytes, 2);
        let license_id: [u8; 16] = read_array(bytes, 18);
        let issued_at = read_be_i64(bytes, 34);
        let expires_at = read_be_i64(bytes, 42);
        let fingerprint_hash: [u8; 32] = read_array(bytes, 50);
        let num_ents = bytes[82] as usize;
        let ghost b = bytes@;

        let mut entitlements: Vec<String> = Vec::new();
        let mut cursor: usize = PAYLOAD_V2_HEAD_LEN;
        let mut k: usize = 0;
        while k < num_ents
            invariant
                b == bytes@,
                b.len() >= PAYLOAD_V2_HEAD_LEN,
                num_ents == b[82],
                k <= num_ents,
                PAYLOAD_V2_HEAD_LEN <= cursor <= bytes.len(),
                spec_entitlements(b, PAYLOAD_V2_HEAD_LEN as int, num_ents as nat) == match spec_entitlements(
                    b,
                    cursor as int,
                    (num_ents - k) as nat,
                ) {
                    Ok((rest, end)) => Ok((strings_view(entitlements@) + rest, end)),
                    Err(e) => Err(e),
                },
            decreases num_ents - k,
        {
            if cursor >= bytes.len() {
                return Err(Error::BadFormat("truncated entitlement list"));
            }
            let len = bytes[cursor] as usize;
            cursor = cursor + 1;
            if len > bytes.len() - cursor {
                return Err(Error::BadFormat("truncated entitlement"));
            }
            let raw = slice_subrange(bytes, cursor, cursor + len);
            let slug = match str_from_utf8(raw) {
                Some(s) => s,
                None => {
                    return Err(Error::BadFormat("entitlement not utf-8"));
                },
            };
            let owned = slug.to_owned();
            proof {
                encode_utf8_decode_utf8(slug@);
                assert(owned@ == decode_utf8(raw@));
            }
            let ghost prev = strings_view(entitlements@);
            entitlements.push(owned);
            assert(strings_view(entitlements@) =~= prev + seq![owned@]);
            cursor = cursor + len;
            k = k + 1;
            proof {
                match spec_entitlements(b, cursor as int, (num_ents - k) as nat) {
                    Ok((rest, end)) => {
                        assert(prev + (seq![owned@] + rest) =~= strings_view(entitlements@) + rest);
                    },
                    Err(e) => {},
                }
            }
        }
        if cursor != bytes.len() {
            return Err(Error::BadFormat("trailing bytes in payload"));
        }
        assert(spec_entitlements(b, cursor as int, 0) == Ok::<(Seq<Seq<char>>, int), Error>((seq![], cursor as int)));
        assert(strings_view(entitlements@) + seq![] =~= strings_view(entitlements@));
        Ok(LicensePayload {
            version: KEY_VERSION_V2,
            flags: bytes[1],
            product_id,
            license_id,
            issued_at,
            expires_at,
            fingerprint_hash,
            entitlements,
        })
    }
}

/// Mathematical model of a parsed key.
pub struct KeyView {
    pub payload: PayloadView,
    pub signed_bytes: Seq<u8>,
    pub signature: Seq<u8>,
}

/// A parsed (but not yet verified) license key.
#[derive(Debug)]
pub struct LicenseKey {
    /// The parsed payload.
    pub payload: LicensePayload,
    /// The raw signed-over message. Length is 74 for v1 keys and `>= 83` for
    /// v2 keys.
    pub signed_bytes: Vec<u8>,
    /// Ed25519 signature over `signed_bytes`.
    pub signature: [u8; SIGNATURE_LEN],
}

impl Clone for LicenseKey {
    fn clone(&self) -> (r: Self)
        ensures
            r@ == self@,
    {
        let signed_bytes = self.signed_bytes.clone();
        assert(signed_bytes@ =~= self.signed_bytes@);
        LicenseKey { payload: self.payload.clone(), signed_bytes, signature: self.signature }
    }
}

impl View for LicenseKey {
    type V = KeyView;

    open spec fn view(&self) -> KeyView {
        KeyView {
            payload: self.payload@,
            signed_bytes: self.signed_bytes@,
            signature: self.signature@,
        }
    }
}

/// The payload and signature text of a key string: the key is trimmed of
/// surrounding whitespace and split at its first two dashes, and the part
/// before the first dash must be [`KEY_PREFIX`].
pub open spec fn spec_split_key(key: Seq<char>) -> Result<(Seq<char>, Seq<char>)> {
    let t = trim(key);
    let d1 = find_char(t, '-', 0);
    let prefix = match d1 {
        Some(i) => t.subrange(0, i),
        None => t,
    };
    if prefix != KEY_PREFIX@ {
        Err(Error::BadFormat("unknown prefix"))
    } else {
        match d1 {
            None => Err(Error::BadFormat("missing payload")),
            Some(i) => match find_char(t, '-', i + 1) {
                None => Err(Error::BadFormat("missing signature")),
                Some(j) => Ok((t.subrange(i + 1, j), t.subrange(j + 1, t.len() as int))),
            },
        }
    }
}

/// What a key is made of, given the decoded payload and signature bytes
/// (`None` where base32 decoding failed).
pub open spec fn spec_key_from_decoded(payload: Option<Seq<u8>>, signature: Option<Seq<u8>>) -> Result<KeyView> {
    match payload {
        None => Err(Error::BadEncoding("payload")),
        Some(pb) => match signature {
            None => Err(Error::BadEncoding("signature")),
            Some(sb) => match spec_payload(pb) {
                Err(e) => Err(e),
                Ok(pv) => if sb.len() != SIGNATURE_LEN {
                    Err(Error::BadFormat("signature wrong size"))
                } else {
                    Ok(KeyView { payload: pv, signed_bytes: pb, signature: sb })
                },
            },
        },
    }
}

/// What parsing a key string gives.
pub open spec fn spec_parse_key(key: Seq<char>) -> Result<KeyView> {
    match spec_split_key(key) {
        Err(e) => Err(e),
        Ok((p, s)) => spec_key_from_decoded(
            crockford_decode(encode_utf8(p)),
            crockford_decode(encode_utf8(s)),
        ),
    }
}

/// The bytes of an optional byte vector.
pub open spec fn opt_bytes_view(o: Option<Vec<u8>>) -> Option<Seq<u8>> {
    match o {
        Some(v) => Some(v@),
        None => None,
    }
}

/// What decoding `input` gives with the `data_encoding` base32 encoding
/// made by a `data_encoding::Specification` with the given `symbols` and
/// translation (`translate.from` to `translate.to`), every other setting
/// left at `Specification::new()` (no padding, most significant bit first,
/// trailing bits checked): `Some(bytes)` when `Specification::encoding`
/// accepts the specification and `Encoding::decode` accepts the input,
/// `None` otherwise.
pub uninterp spec fn base32_spec_decode(
    symbols: Seq<char>,
    translate_from: Seq<char>,
    translate_to: Seq<char>,
    input: Seq<u8>,
) -> Option<Seq<u8>>;

/// The Crockford base32 symbols.
pub const CROCKFORD_SYMBOLS: &'static str = "0123456789ABCDEFGHJKMNPQRSTVWXYZ";

/// Characters that Crockford decoding reads as others: lowercase letters as
/// their uppercase symbols, `I`, `i`, `L`, `l` as `1`, `O`, `o` as `0`.
pub const CROCKFORD_TRANSLATE_FROM: &'static str = "abcdefghjkmnpqrstvwxyzIiLlOo";

/// What each character of [`CROCKFORD_TRANSLATE_FROM`] reads as.
pub const CROCKFORD_TRANSLATE_TO: &'static str = "ABCDEFGHJKMNPQRSTVWXYZ111100";

/// What Crockford base32 decoding (no padding) gives for `input`.
pub open spec fn crockford_decode(input: Seq<u8>) -> Option<Seq<u8>> {
    base32_spec_decode(
        CROCKFORD_SYMBOLS@,
        CROCKFORD_TRANSLATE_FROM@,
        CROCKFORD_TRANSLATE_TO@,
        input,
    )
}

/// Builds a `data_encoding::Specification` with the given symbols and
/// translation, turns it into an `Encoding` and calls `Encoding::decode`;
/// the outcome is named by [`base32_spec_decode`].
#[verifier::external_body]
fn base32_decode_with(
    symbols: &str,
    translate_from: &str,
    translate_to: &str,
    input: &[u8],
) -> (r: Option<Vec<u8>>)
    ensures
        r is Some <==> base32_spec_decode(symbols@, translate_from@, translate_to@, input@) is Some,
        r matches Some(v) ==> base32_spec_decode(symbols@, translate_from@, translate_to@, input@)
            == Some(v@),
{
    let mut spec = data_encoding::Specification::new();
    spec.symbols.push_str(symbols);
    spec.translate.from.push_str(translate_from);
    spec.translate.to.push_str(translate_to);
    match spec.encoding() {
        Ok(encoding) => match encoding.decode(input) {
            Ok(v) => Some(v),
            Err(_) => None,
        },
        Err(_) => None,
    }
}

/// Decodes Crockford base32 text (no padding).
fn crockford_base32_decode(input: &[u8]) -> (r: Option<Vec<u8>>)
    ensures
        opt_bytes_view(r) == crockford_decode(input@),
{
    base32_decode_with(CROCKFORD_SYMBOLS, CROCKFORD_TRANSLATE_FROM, CROCKFORD_TRANSLATE_TO, input)
}

proof fn lemma_find_char(s: Seq<char>, c: char, from: int)
    ensures
        find_char(s, c, from) matches Some(i) ==> 0 <= from <= i < s.len() && s[i] == c,
    decreases s.len() - from,
{
    if 0 <= from < s.len() && s[from] != c {
        lemma_find_char(s, c, from + 1);
    }
}

/// True if `chars[a..b]` holds the same characters as `s`.
fn chars_match_str(chars: &Vec<char>, a: usize, b: usize, s: &str) -> (r: bool)
    requires
        a <= b <= chars@.len(),
    ensures
        r == (chars@.subrange(a as int, b as int) == s@),
{
    let n = s.unicode_len();
    if b - a != n {
        return false;
    }
    let mut k: usize = 0;
    while k < n
        invariant
            a <= b <= chars@.len(),
            b - a == n == s@.len(),
            k <= n,
            forall|j: int| 0 <= j < k ==> chars@[a + j] == s@[j],
        decreases n - k,
    {
        if chars[a + k] != s.get_char(k) {
            return false;
        }
        k = k + 1;
    }
    assert(chars@.subrange(a as int, b as int) =~= s@);
    true
}

impl LicenseKey {
    /// Splits a key string into its payload and signature text, after
    /// trimming surrounding whitespace and checking the prefix.
    pub fn split_key<'a>(key: &'a str) -> (r: Result<(&'a str, &'a str)>)
        ensures
            match (r, spec_split_key(key@)) {
                (Ok((p, s)), Ok((sp, ss))) => p@ == sp && s@ == ss,
                (Err(e1), Err(e2)) => e1 == e2,
                _ => false,
            },
    {
        let chars = collect_chars(key);
        let (lo, hi) = trim_bounds(&chars);
        let ghost t = chars@.subrange(lo as int, hi as int);
        let d1 = find_in(&chars, '-', lo, hi, 0);
        proof {
            lemma_find_char(t, '-', 0);
        }
        let plen = match d1 {
            Some(i) => i,
            None => hi - lo,
        };
        assert(t.subrange(0, plen as int) =~= chars@.subrange(lo as int, lo + plen));
        if d1.is_none() {
            assert(t.subrange(0, plen as int) =~= t);
        }
        if !chars_match_str(&chars, lo, lo + plen, KEY_PREFIX) {
            return Err(Error::BadFormat("unknown prefix"));
        }
        let i = match d1 {
            None => {
                return Err(Error::BadFormat("missing payload"));
            },
            Some(i) => i,
        };
        let j = match find_in(&chars, '-', lo, hi, i + 1) {
            None => {
                return Err(Error::BadFormat("missing signature"));
            },
            Some(j) => j,
        };
        proof {
            lemma_find_char(t, '-', i + 1);
        }
        let payload = key.substring_char(lo + i + 1, lo + j);
        let signature = key.substring_char(lo + j + 1, hi);
        assert(payload@ =~= t.subrange(i + 1, j as int));
        assert(signature@ =~= t.subrange(j + 1, t.len() as int));
        Ok((payload, signature))
    }

    /// Builds a key from its Crockford-base32-decoded payload and signature bytes
    /// (`None` where decoding failed).
    pub fn from_decoded(payload: Option<Vec<u8>>, signature: Option<Vec<u8>>) -> (r: Result<Self>)
        ensures
            result_view(r) == spec_key_from_decoded(opt_bytes_view(payload), opt_bytes_view(signature)),
    {
        let payload_bytes = match payload {
            Some(p) => p,
            None => {
                return Err(Error::BadEncoding("payload"));
            },
        };
        let signature_bytes = match signature {
            Some(s) => s,
            None => {
                return Err(Error::BadEncoding("signature"));
            },
        };
        let parsed = match LicensePayload::from_bytes(payload_bytes.as_slice()) {
            Ok(p) => p,
            Err(e) => {
                return Err(e);
            },
        };
        if signature_bytes.len() != SIGNATURE_LEN {
            return Err(Error::BadFormat("signature wrong size"));
        }
        let sig: [u8; SIGNATURE_LEN] = read_array(signature_bytes.as_slice(), 0);
        assert(signature_bytes@.subrange(0, 64) =~= signature_bytes@);
        Ok(LicenseKey { payload: parsed, signed_bytes: payload_bytes, signature: sig })
    }

    /// Parses a key string like `LIC1-XXXX...-YYYY...` into its components.
    /// Does not verify the signature.
    pub fn parse(key: &str) -> (r: Result<Self>)
        ensures
            result_view(r) == spec_parse_key(key@),
    {
        let (payload_b32, signature_b32) = match Self::split_key(key) {
            Ok(parts) => parts,
            Err(e) => {
                return Err(e);
            },
        };
        let payload = crockford_base32_decode(payload_b32.as_bytes());
        let signature = crockford_base32_decode(signature_b32.as_bytes());
        Self::from_decoded(payload, signature)
    }
}

} // verus!
