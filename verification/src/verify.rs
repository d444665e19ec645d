//! Offline signature verification.

use vstd::prelude::*;
use vstd::string::StringSliceAdditionalSpecFns;
use vstd::utf8::encode_utf8;
use ed25519_dalek::Verifier as _;
use sha2::Digest;
use crate::error::{Error, Result};
use crate::key::{
    result_view, spec_expired_at, spec_parse_key, spec_payload, KeyView, LicenseKey, LicensePayload,
    PayloadView, FLAG_FINGERPRINT_BOUND,
};
use crate::pubkey::{ed25519_key_rejection, PublicKeyPem};
use crate::text::uuid_string;

verus! {

/// What `ed25519_dalek::VerifyingKey::verify` reports for `signature` over
/// `message`, the key given by the 32 bytes that `VerifyingKey::from_bytes`
/// accepted and the signature by its 64 bytes (`Signature::from_bytes`):
/// true when it returns `Ok`.
pub uninterp spec fn ed25519_verify(public_key: Seq<u8>, message: Seq<u8>, signature: Seq<u8>) -> bool;

/// The SHA-256 digest of `data`, as `sha2::Sha256` computes it.
pub uninterp spec fn sha256(data: Seq<u8>) -> Seq<u8>;

/// Builds the key with `VerifyingKey::from_bytes` and calls
/// `VerifyingKey::verify`; the outcome is named by [`ed25519_verify`].
#[verifier::external_body]
fn ed25519_signature_ok(public_key: &[u8; 32], message: &[u8], signature: &[u8; 64]) -> (r: bool)
    requires
        ed25519_key_rejection(public_key@) is None,
    ensures
        r == ed25519_verify(public_key@, message@, signature@),
{
    match ed25519_dalek::VerifyingKey::from_bytes(public_key) {
        Ok(k) => match k.verify(message, &ed25519_dalek::Signature::from_bytes(signature)) {
            Ok(()) => true,
            Err(_) => false,
        },
        Err(_) => false,
    }
}

/// Hashes `data` with `sha2::Sha256` (`new`, `update`, `finalize`); the
/// digest is named by [`sha256`].
#[verifier::external_body]
fn sha256_digest(data: &[u8]) -> (r: [u8; 32])
    ensures
        r@ == sha256(data@),
{
    let mut hasher = sha2::Sha256::new();
    hasher.update(data);
    hasher.finalize().into()
}

/// Mathematical model of a successful verification.
pub struct VerifyOkView {
    pub payload: PayloadView,
    pub license_id: Seq<char>,
    pub product_id: Seq<char>,
}

/// Successful verification result.
#[derive(Debug)]
pub struct VerifyOk {
    /// Parsed payload fields.
    pub payload: LicensePayload,
    /// License id as a lowercase UUID string.
    pub license_id: String,
    /// Product id as a lowercase UUID string.
    pub product_id: String,
}

impl Clone for VerifyOk {
    fn clone(&self) -> (r: Self)
        ensures
            r@ == self@,
    {
        VerifyOk {
            payload: self.payload.clone(),
            license_id: self.license_id.clone(),
            product_id: self.product_id.clone(),
        }
    }
}

impl View for VerifyOk {
    type V = VerifyOkView;

    open spec fn view(&self) -> VerifyOkView {
        VerifyOkView {
            payload: self.payload@,
            license_id: self.license_id@,
            product_id: self.product_id@,
        }
    }
}

/// What verifying a parsed key against the public key `pk` gives: the
/// signature must verify over the signed bytes, and the payload handed out
/// is the one those signed bytes decode to.
pub open spec fn spec_verify_parsed(pk: Seq<u8>, k: KeyView) -> Result<VerifyOkView> {
    if !ed25519_verify(pk, k.signed_bytes, k.signature) {
        Err(Error::BadSignature)
    } else {
        match spec_payload(k.signed_bytes) {
            Err(e) => Err(e),
            Ok(p) => Ok(
                VerifyOkView {
                    payload: p,
                    license_id: uuid_string(p.license_id),
                    product_id: uuid_string(p.product_id),
                },
            ),
        }
    }
}

/// What verifying a key string against the public key `pk` gives.
pub open spec fn spec_verify(pk: Seq<u8>, key: Seq<char>) -> Result<VerifyOkView> {
    match spec_parse_key(key) {
        Err(e) => Err(e),
        Ok(k) => spec_verify_parsed(pk, k),
    }
}

/// True if the payload is bound to a machine fingerprint.
pub open spec fn spec_fingerprint_bound(p: PayloadView) -> bool {
    p.flags & FLAG_FINGERPRINT_BOUND != 0
}

/// The 32-byte form of a raw fingerprint embedded in keys.
pub open spec fn spec_hash_fingerprint(raw: Seq<char>) -> Seq<u8> {
    sha256(encode_utf8(raw))
}

/// What verifying a key string and checking the fingerprint gives.
pub open spec fn spec_verify_with_fingerprint(pk: Seq<u8>, key: Seq<char>, fingerprint: Seq<char>) -> Result<VerifyOkView> {
    match spec_verify(pk, key) {
        Err(e) => Err(e),
        Ok(ok) => if spec_fingerprint_bound(ok.payload) && spec_hash_fingerprint(fingerprint)
            != ok.payload.fingerprint_hash {
            Err(Error::BadSignature)
        } else {
            Ok(ok)
        },
    }
}

/// What verifying a key string and checking its expiry at `now` gives.
pub open spec fn spec_verify_with_time(pk: Seq<u8>, key: Seq<char>, now: i64) -> Result<VerifyOkView> {
    match spec_verify(pk, key) {
        Err(e) => Err(e),
        Ok(ok) => if spec_expired_at(ok.payload, now) {
            Err(Error::Expired)
        } else {
            Ok(ok)
        },
    }
}

impl VerifyOk {
    /// True if the key's `expires_at` is at or before `now_unix`. Always
    /// false for perpetual keys.
    pub fn is_expired_at(&self, now_unix: i64) -> (r: bool)
        ensures
            r == spec_expired_at(self@.payload, now_unix),
    {
        self.payload.is_expired_at(now_unix)
    }

    /// True if the key grants the given entitlement slug.
    pub fn has_entitlement(&self, slug: &str) -> (r: bool)
        ensures
            r == self@.payload.entitlements.contains(slug@),
    {
        self.payload.has_entitlement(slug)
    }

    /// True if the key is flagged as a trial.
    pub fn is_trial(&self) -> (r: bool)
        ensures
            r == (self.payload.flags & crate::key::FLAG_TRIAL != 0),
            r == crate::key::spec_trial(self@.payload),
    {
        self.payload.is_trial()
    }
}

/// Verifies license keys against a single issuing server's public key.
#[derive(Debug)]
pub struct Verifier {
    pubkey: PublicKeyPem,
}

impl Clone for Verifier {
    fn clone(&self) -> (r: Self)
        ensures
            r@ == self@,
    {
        Verifier { pubkey: self.pubkey.clone() }
    }
}

impl View for Verifier {
    type V = Seq<u8>;

    closed spec fn view(&self) -> Seq<u8> {
        self.pubkey@
    }
}

/// True if two 32-byte arrays hold the same bytes.
fn bytes32_eq(a: &[u8; 32], b: &[u8; 32]) -> (r: bool)
    ensures
        r == (a@ == b@),
{
    let mut i: usize = 0;
    while i < 32
        invariant
            i <= 32,
            a@.len() == 32,
            b@.len() == 32,
            forall|j: int| 0 <= j < i ==> a@[j] == b@[j],
        decreases 32 - i,
    {
        if a[i] != b[i] {
            return false;
        }
        i = i + 1;
    }
    assert(a@ =~= b@);
    true
}

impl Verifier {
    /// Constructs a verifier bound to a single issuing server's public key.
    pub fn new(pubkey: PublicKeyPem) -> (r: Self)
        ensures
            r@ == pubkey@,
    {
        Verifier { pubkey }
    }

    /// Verifies a license key string: its format and its signature. Expiry
    /// is not checked.
    pub fn verify(&self, key: &str) -> (r: Result<VerifyOk>)
        ensures
            result_view(r) == spec_verify(self@, key@),
    {
        let parsed = match LicenseKey::parse(key) {
            Ok(k) => k,
            Err(e) => {
                return Err(e);
            },
        };
        self.verify_parsed(&parsed)
    }

    /// Verifies an already-parsed key. The payload handed out is decoded
    /// from the signed bytes, so it reports only fields the issuer signed.
    pub fn verify_parsed(&self, key: &LicenseKey) -> (r: Result<VerifyOk>)
        ensures
            result_view(r) == spec_verify_parsed(self@, key@),
    {
        let pk = self.pubkey.to_bytes();
        if !ed25519_signature_ok(&pk, key.signed_bytes.as_slice(), &key.signature) {
            return Err(Error::BadSignature);
        }
        let payload = match LicensePayload::from_bytes(key.signed_bytes.as_slice()) {
            Ok(p) => p,
            Err(e) => {
                return Err(e);
            },
        };
        Ok(
            VerifyOk {
                license_id: payload.license_uuid(),
                product_id: payload.product_uuid(),
                payload,
            },
        )
    }

    /// Verifies a key and, if the key is fingerprint-bound, that the
    /// fingerprint matches. The fingerprint is ignored for keys that are not
    /// bound.
    pub fn verify_with_fingerprint(&self, key: &str, fingerprint: &str) -> (r: Result<VerifyOk>)
        ensures
            result_view(r) == spec_verify_with_fingerprint(self@, key@, fingerprint@),
    {
        let parsed = match LicenseKey::parse(key) {
            Ok(k) => k,
            Err(e) => {
                return Err(e);
            },
        };
        let ok = match self.verify_parsed(&parsed) {
            Ok(ok) => ok,
            Err(e) => {
                return Err(e);
            },
        };
        if ok.payload.is_fingerprint_bound() {
            let expected = hash_fingerprint(fingerprint);
            if !bytes32_eq(&expected, &ok.payload.fingerprint_hash) {
                return Err(Error::BadSignature);
            }
        }
        Ok(ok)
    }

    /// Verifies a key and rejects it if `now_unix` is at or past its
    /// `expires_at`. Perpetual keys are accepted regardless of `now_unix`.
    pub fn verify_with_time(&self, key: &str, now_unix: i64) -> (r: Result<VerifyOk>)
        ensures
            result_view(r) == spec_verify_with_time(self@, key@, now_unix),
    {
        let ok = match self.verify(key) {
            Ok(ok) => ok,
            Err(e) => {
                return Err(e);
            },
        };
        if ok.payload.is_expired_at(now_unix) {
            return Err(Error::Expired);
        }
        Ok(ok)
    }
}

/// Hashes a raw fingerprint string to the 32-byte form embedded in keys.
pub fn hash_fingerprint(raw: &str) -> (r: [u8; 32])
    ensures
        r@ == spec_hash_fingerprint(raw@),
        r@ == sha256(raw.spec_bytes()),
{
    sha256_digest(raw.as_bytes())
}

} // verus!
