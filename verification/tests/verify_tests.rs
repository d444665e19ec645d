use ed25519_dalek::pkcs8::EncodePublicKey;
use ed25519_dalek::{Signer, SigningKey};
use licensing_client::{hash_fingerprint, Error, PublicKeyPem, Verifier, FLAG_FINGERPRINT_BOUND};

fn signing_key() -> SigningKey {
    SigningKey::from_bytes(&[42u8; 32])
}

fn payload(flags: u8, expires_at: i64, fingerprint_hash: [u8; 32], ents: &[&str]) -> Vec<u8> {
    let mut p = vec![2u8, flags];
    p.extend([0x11u8; 16]);
    p.extend([0x22u8; 16]);
    p.extend(1_000i64.to_be_bytes());
    p.extend(expires_at.to_be_bytes());
    p.extend(fingerprint_hash);
    p.push(ents.len() as u8);
    for e in ents {
        p.push(e.len() as u8);
        p.extend_from_slice(e.as_bytes());
    }
    p
}

fn crockford() -> data_encoding::Encoding {
    let mut spec = data_encoding::Specification::new();
    spec.symbols.push_str("0123456789ABCDEFGHJKMNPQRSTVWXYZ");
    spec.encoding().unwrap()
}

fn b32(bytes: &[u8]) -> String {
    crockford().encode(bytes)
}

fn make_key(sk: &SigningKey, payload: &[u8]) -> String {
    let sig = sk.sign(payload).to_bytes();
    format!(
        "LIC1-{}-{}",
        b32(payload),
        b32(&sig)
    )
}

fn issuer_verifier() -> Verifier {
    let pk = signing_key().verifying_key().to_bytes();
    Verifier::new(PublicKeyPem::from_bytes(&pk).unwrap())
}

#[test]
fn verifies_a_signed_key() {
    let p = payload(0, 0, [0; 32], &["pro"]);
    let key = make_key(&signing_key(), &p);
    let ok = issuer_verifier().verify(&key).unwrap();
    assert_eq!(ok.license_id, "22222222-2222-2222-2222-222222222222");
    assert_eq!(ok.product_id, "11111111-1111-1111-1111-111111111111");
    assert_eq!(ok.payload.issued_at, 1_000);
    assert!(ok.has_entitlement("pro"));
    assert!(!ok.has_entitlement("basic"));
    assert!(!ok.is_trial());
    assert!(!ok.is_expired_at(i64::MAX));
}

#[test]
fn pem_key_verifies_too() {
    let pem = signing_key()
        .verifying_key()
        .to_public_key_pem(ed25519_dalek::pkcs8::spki::der::pem::LineEnding::LF)
        .unwrap();
    let v = Verifier::new(PublicKeyPem::from_str(&pem).unwrap());
    let key = make_key(&signing_key(), &payload(0, 0, [0; 32], &[]));
    assert!(v.verify(&key).is_ok());
}

#[test]
fn bad_pem_is_rejected() {
    assert!(matches!(PublicKeyPem::from_str("not a pem"), Err(Error::BadPublicKey(_))));
}

#[test]
fn raw_key_of_wrong_length_is_rejected() {
    match PublicKeyPem::from_bytes(&[1u8; 31]) {
        Err(Error::BadPublicKey(m)) => {
            assert_eq!(m, "raw Ed25519 public key must be exactly 32 bytes")
        }
        _ => panic!("expected BadPublicKey"),
    }
}

#[test]
fn raw_key_off_the_curve_is_rejected() {
    let mut bad = None;
    for i in 0u8..=255 {
        let mut b = [0u8; 32];
        b[0] = i;
        b[31] = 0x7f;
        if ed25519_dalek::VerifyingKey::from_bytes(&b).is_err() {
            bad = Some(b);
            break;
        }
    }
    let bad = bad.expect("some candidate is not a curve point");
    assert!(matches!(PublicKeyPem::from_bytes(&bad), Err(Error::BadPublicKey(_))));
}

#[test]
fn tampered_key_fails_signature() {
    let p = payload(0, 0, [0; 32], &[]);
    let sig = signing_key().sign(&p).to_bytes();
    let mut tampered = p.clone();
    tampered[1] = FLAG_FINGERPRINT_BOUND;
    let key = format!(
        "LIC1-{}-{}",
        b32(&tampered),
        b32(&sig)
    );
    assert!(matches!(issuer_verifier().verify(&key), Err(Error::BadSignature)));
}

#[test]
fn other_issuer_fails_signature() {
    let other = SigningKey::from_bytes(&[7u8; 32]);
    let key = make_key(&other, &payload(0, 0, [0; 32], &[]));
    assert!(matches!(issuer_verifier().verify(&key), Err(Error::BadSignature)));
}

#[test]
fn verify_with_time_rejects_expired() {
    let key = make_key(&signing_key(), &payload(0, 500, [0; 32], &[]));
    let v = issuer_verifier();
    assert!(v.verify_with_time(&key, 499).is_ok());
    assert!(matches!(v.verify_with_time(&key, 500), Err(Error::Expired)));
    assert!(v.verify(&key).is_ok());
    let perpetual = make_key(&signing_key(), &payload(0, 0, [0; 32], &[]));
    assert!(v.verify_with_time(&perpetual, i64::MAX).is_ok());
}

#[test]
fn fingerprint_binding() {
    let fp = "machine-123";
    let h = hash_fingerprint(fp);
    let bound = make_key(&signing_key(), &payload(FLAG_FINGERPRINT_BOUND, 0, h, &[]));
    let v = issuer_verifier();
    assert!(v.verify_with_fingerprint(&bound, fp).is_ok());
    assert!(matches!(v.verify_with_fingerprint(&bound, "other"), Err(Error::BadSignature)));
    let unbound = make_key(&signing_key(), &payload(0, 0, [9; 32], &[]));
    assert!(v.verify_with_fingerprint(&unbound, "anything").is_ok());
}

#[test]
fn hash_fingerprint_is_sha256() {
    let h = hash_fingerprint("abc");
    assert_eq!(
        data_encoding::HEXLOWER.encode(&h),
        "ba7816bf8f01cfea414140de5dae2223b00361a396177a9cb410ff61f20015ad"
    );
}

#[test]
fn verify_parsed_matches_verify() {
    let key = make_key(&signing_key(), &payload(2, 7, [0; 32], &["a", "b"]));
    let parsed = licensing_client::LicenseKey::parse(&key).unwrap();
    let a = issuer_verifier().verify_parsed(&parsed).unwrap();
    let b = issuer_verifier().verify(&key).unwrap();
    assert_eq!(a.license_id, b.license_id);
    assert_eq!(a.payload.entitlements, b.payload.entitlements);
    assert!(a.is_trial());
}

#[test]
fn verifier_is_shareable_across_threads() {
    fn assert_shareable<T: Clone + Send + Sync>(_: &T) {}
    let v = issuer_verifier();
    assert_shareable(&v);
    let w = v.clone();
    let key = make_key(&signing_key(), &payload(0, 0, [0; 32], &[]));
    assert!(w.verify(&key).is_ok());
}

#[test]
fn verify_parsed_reports_only_signed_fields() {
    let p = payload(0, 0, [0; 32], &["pro"]);
    let key = make_key(&signing_key(), &p);
    let mut parsed = licensing_client::LicenseKey::parse(&key).unwrap();
    parsed.payload.flags = FLAG_FINGERPRINT_BOUND;
    parsed.payload.entitlements.push("enterprise".to_string());
    parsed.payload.license_id = [0xff; 16];
    let ok = issuer_verifier().verify_parsed(&parsed).unwrap();
    assert_eq!(ok.payload.flags, 0);
    assert_eq!(ok.payload.entitlements, vec!["pro".to_string()]);
    assert_eq!(ok.license_id, "22222222-2222-2222-2222-222222222222");
    assert!(!ok.has_entitlement("enterprise"));
}

#[test]
fn verifies_a_signed_v1_key() {
    let mut p = vec![1u8, 0u8];
    p.extend([0x33u8; 16]);
    p.extend([0x44u8; 16]);
    p.extend(5i64.to_be_bytes());
    p.extend([0u8; 32]);
    let key = make_key(&signing_key(), &p);
    let ok = issuer_verifier().verify_with_time(&key, i64::MAX).unwrap();
    assert_eq!(ok.payload.version, 1);
    assert_eq!(ok.payload.expires_at, 0);
    assert!(ok.payload.entitlements.is_empty());
    assert_eq!(ok.product_id, "33333333-3333-3333-3333-333333333333");
}
