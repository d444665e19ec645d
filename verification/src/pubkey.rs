//! The issuing server's Ed25519 public key.

use vstd::prelude::*;
use ed25519_dalek::pkcs8::DecodePublicKey;
use vstd::string::StringExecFns;
use crate::error::{Error, Result};

verus! {

/// What `ed25519_dalek::VerifyingKey::from_public_key_pem` gives for a PEM
/// text: the 32 bytes of the key it decodes (`VerifyingKey::to_bytes`), or
/// the text (`to_string`) of the error it reports.
pub uninterp spec fn public_key_from_pem(pem: Seq<char>) -> std::result::Result<Seq<u8>, Seq<char>>;

/// What `ed25519_dalek::VerifyingKey::from_bytes` reports for 32 key bytes:
/// `None` when it accepts them, else the text (`to_string`) of its error.
pub uninterp spec fn ed25519_key_rejection(key: Seq<u8>) -> Option<Seq<char>>;

/// Calls `VerifyingKey::from_public_key_pem` and hands out the key's bytes
/// or the error's text, as [`public_key_from_pem`] names them. The key it
/// builds comes from `VerifyingKey::from_bytes` on those same bytes, so
/// `from_bytes` accepts them.
#[verifier::external_body]
fn decode_public_key_pem(pem: &str) -> (r: std::result::Result<[u8; 32], String>)
    ensures
        match r {
            Ok(b) => public_key_from_pem(pem@) == Ok::<Seq<u8>, Seq<char>>(b@),
            Err(m) => public_key_from_pem(pem@) == Err::<Seq<u8>, Seq<char>>(m@),
        },
        r matches Ok(b) ==> ed25519_key_rejection(b@) is None,
{
    match ed25519_dalek::VerifyingKey::from_public_key_pem(pem) {
        Ok(k) => Ok(k.to_bytes()),
        Err(e) => Err(e.to_string()),
    }
}

/// Calls `VerifyingKey::from_bytes` and hands out `None` when it accepts the
/// bytes, else its error's text, as [`ed25519_key_rejection`] names it.
#[verifier::external_body]
fn check_public_key_bytes(bytes: &[u8; 32]) -> (r: Option<String>)
    ensures
        match r {
            None => ed25519_key_rejection(bytes@) is None,
            Some(m) => ed25519_key_rejection(bytes@) == Some(m@),
        },
{
    match ed25519_dalek::VerifyingKey::from_bytes(bytes) {
        Ok(_) => None,
        Err(e) => Some(e.to_string()),
    }
}

/// Parsed Ed25519 public key, ready for signature verification.
#[derive(Debug)]
pub struct PublicKeyPem {
    bytes: [u8; 32],
}

impl Clone for PublicKeyPem {
    fn clone(&self) -> (r: Self)
        ensures
            r@ == self@,
    {
        proof {
            use_type_invariant(self);
        }
        PublicKeyPem { bytes: self.bytes }
    }
}

impl View for PublicKeyPem {
    type V = Seq<u8>;

    closed spec fn view(&self) -> Seq<u8> {
        self.bytes@
    }
}

impl PublicKeyPem {
    #[verifier::type_invariant]
    spec fn accepted(self) -> bool {
        ed25519_key_rejection(self.bytes@) is None
    }

    /// The key's 32 bytes, which `VerifyingKey::from_bytes` accepts.
    pub(crate) fn to_bytes(&self) -> (r: [u8; 32])
        ensures
            r@ == self@,
            self@.len() == 32,
            ed25519_key_rejection(r@) is None,
    {
        proof {
            use_type_invariant(self);
        }
        self.bytes
    }

    /// Parses a PEM-encoded Ed25519 public key (SubjectPublicKeyInfo).
    pub fn from_str(pem: &str) -> (r: Result<Self>)
        ensures
            match r {
                Ok(k) => public_key_from_pem(pem@) == Ok::<Seq<u8>, Seq<char>>(k@),
                Err(Error::BadPublicKey(m)) => public_key_from_pem(pem@) == Err::<Seq<u8>, Seq<char>>(m@),
                Err(_) => false,
            },
    {
        match decode_public_key_pem(pem) {
            Ok(bytes) => Ok(PublicKeyPem { bytes }),
            Err(m) => Err(Error::BadPublicKey(m)),
        }
    }

    /// Parses raw 32-byte public-key material (no PEM envelope).
    pub fn from_bytes(bytes: &[u8]) -> (r: Result<Self>)
        ensures
            bytes@.len() != 32 ==> (r matches Err(Error::BadPublicKey(m))
                && m@ == "raw Ed25519 public key must be exactly 32 bytes"@),
            bytes@.len() == 32 ==> match r {
                Ok(k) => k@ == bytes@ && ed25519_key_rejection(bytes@) is None,
                Err(Error::BadPublicKey(m)) => ed25519_key_rejection(bytes@) == Some(m@),
                Err(_) => false,
            },
    {
        if bytes.len() != 32 {
            return Err(
                Error::BadPublicKey(
                    String::from_str("raw Ed25519 public key must be exactly 32 bytes"),
                ),
            );
        }
        let mut arr = [0u8; 32];
        let mut i: usize = 0;
        while i < 32
            invariant
                bytes@.len() == 32,
                i <= 32,
                forall|j: int| 0 <= j < i ==> arr@[j] == bytes@[j],
            decreases 32 - i,
        {
            arr[i] = bytes[i];
            i = i + 1;
        }
        assert(arr@ =~= bytes@);
        match check_public_key_bytes(&arr) {
            None => Ok(PublicKeyPem { bytes: arr }),
            Some(m) => Err(Error::BadPublicKey(m)),
        }
    }
}

} // verus!
