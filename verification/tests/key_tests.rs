use licensing_client::key::{PAYLOAD_V1_LEN, PAYLOAD_V2_HEAD_LEN};
use licensing_client::{Error, LicenseKey, LicensePayload, KEY_VERSION_V1, KEY_VERSION_V2};

fn v2_payload(flags: u8, expires_at: i64, ents: &[&[u8]]) -> Vec<u8> {
    let mut p = vec![KEY_VERSION_V2, flags];
    p.extend((0u8..16).collect::<Vec<u8>>());
    p.extend((16u8..32).collect::<Vec<u8>>());
    p.extend(1_700_000_000i64.to_be_bytes());
    p.extend(expires_at.to_be_bytes());
    p.extend([0xabu8; 32]);
    p.push(ents.len() as u8);
    for e in ents {
        p.push(e.len() as u8);
        p.extend_from_slice(e);
    }
    p
}

fn crockford() -> data_encoding::Encoding {
    let mut spec = data_encoding::Specification::new();
    spec.symbols.push_str("0123456789ABCDEFGHJKMNPQRSTVWXYZ");
    spec.encoding().unwrap()
}

fn b32(bytes: &[u8]) -> String {
    crockford().encode(bytes)
}

#[test]
fn rejects_wrong_prefix() {
    let err = LicenseKey::parse("WRONG-AAAA-BBBB").unwrap_err();
    assert!(matches!(err, Error::BadFormat(_)));
}

#[test]
fn rejects_missing_parts() {
    assert!(LicenseKey::parse("LIC1").is_err());
    assert!(LicenseKey::parse("LIC1-AAAA").is_err());
}

#[test]
fn rejects_unknown_version() {
    let mut v99 = vec![99u8];
    v99.extend(vec![0u8; PAYLOAD_V2_HEAD_LEN]);
    let err = LicensePayload::from_bytes(&v99).unwrap_err();
    assert!(matches!(err, Error::UnsupportedVersion(99)));
}

#[test]
fn parses_v1_fixed_size() {
    let mut p = vec![KEY_VERSION_V1, 0u8];
    p.extend(std::iter::repeat(0u8).take(PAYLOAD_V1_LEN - 2));
    let parsed = LicensePayload::from_bytes(&p).unwrap();
    assert_eq!(parsed.version, 1);
    assert_eq!(parsed.expires_at, 0);
    assert!(parsed.entitlements.is_empty());
}

#[test]
fn missing_parts_give_their_messages() {
    assert!(matches!(LicenseKey::parse("LIC1"), Err(Error::BadFormat("missing payload"))));
    assert!(matches!(LicenseKey::parse("LIC1-AAAA"), Err(Error::BadFormat("missing signature"))));
    assert!(matches!(LicenseKey::parse(""), Err(Error::BadFormat("unknown prefix"))));
    assert!(matches!(LicenseKey::parse("LIC2-A-B"), Err(Error::BadFormat("unknown prefix"))));
}

#[test]
fn split_key_trims_and_splits_at_first_two_dashes() {
    let (p, s) = LicenseKey::split_key("  \t LIC1-ABC-DE-F \n").unwrap();
    assert_eq!(p, "ABC");
    assert_eq!(s, "DE-F");
    let (p, s) = LicenseKey::split_key("\u{3000}LIC1--\u{2003}").unwrap();
    assert_eq!(p, "");
    assert_eq!(s, "");
}

#[test]
fn bad_base32_is_bad_encoding() {
    assert!(matches!(LicenseKey::parse("LIC1-!!!!-AAAA"), Err(Error::BadEncoding("payload"))));
    let payload = b32(&v2_payload(0, 0, &[]));
    let key = format!("LIC1-{}-UUUU", payload);
    assert!(matches!(LicenseKey::parse(&key), Err(Error::BadEncoding("signature"))));
}

#[test]
fn parses_v2_key_with_entitlements() {
    let payload = v2_payload(3, 1_800_000_000, &[b"pro", "caf\u{e9}".as_bytes()]);
    let sig = [7u8; 64];
    let key = format!("  LIC1-{}-{}  ", b32(&payload), b32(&sig));
    let k = LicenseKey::parse(&key).unwrap();
    assert_eq!(k.signed_bytes, payload);
    assert_eq!(k.signature, sig);
    assert_eq!(k.payload.version, 2);
    assert_eq!(k.payload.flags, 3);
    assert_eq!(k.payload.issued_at, 1_700_000_000);
    assert_eq!(k.payload.expires_at, 1_800_000_000);
    assert_eq!(k.payload.fingerprint_hash, [0xab; 32]);
    assert_eq!(k.payload.entitlements, vec!["pro".to_string(), "caf\u{e9}".to_string()]);
    assert!(k.payload.has_entitlement("pro"));
    assert!(k.payload.has_entitlement("caf\u{e9}"));
    assert!(!k.payload.has_entitlement("caf"));
    assert!(k.payload.is_fingerprint_bound());
    assert!(k.payload.is_trial());
}

#[test]
fn signature_of_wrong_size_is_rejected() {
    let payload = v2_payload(0, 0, &[]);
    let key = format!("LIC1-{}-{}", b32(&payload), b32(&[1u8; 63]));
    assert!(matches!(LicenseKey::parse(&key), Err(Error::BadFormat("signature wrong size"))));
}

#[test]
fn payload_errors_come_before_signature_size() {
    let key = format!("LIC1-{}-{}", b32(&[1u8, 2, 3]), b32(&[1u8; 3]));
    assert!(matches!(
        LicenseKey::parse(&key),
        Err(Error::BadPayloadLength { expected: 74, got: 3 })
    ));
}

#[test]
fn payload_length_errors() {
    assert!(matches!(
        LicensePayload::from_bytes(&[]),
        Err(Error::BadPayloadLength { expected: 74, got: 0 })
    ));
    assert!(matches!(
        LicensePayload::from_bytes(&[1u8; 75]),
        Err(Error::BadPayloadLength { expected: 74, got: 75 })
    ));
    assert!(matches!(
        LicensePayload::from_bytes(&[2u8; 82]),
        Err(Error::BadPayloadLength { expected: 83, got: 82 })
    ));
}

#[test]
fn entitlement_errors() {
    let mut p = v2_payload(0, 0, &[]);
    p[82] = 1;
    assert!(matches!(
        LicensePayload::from_bytes(&p),
        Err(Error::BadFormat("truncated entitlement list"))
    ));
    let mut p = v2_payload(0, 0, &[]);
    p[82] = 1;
    p.push(5);
    p.extend_from_slice(b"abc");
    assert!(matches!(
        LicensePayload::from_bytes(&p),
        Err(Error::BadFormat("truncated entitlement"))
    ));
    let p = v2_payload(0, 0, &[&[0xff, 0xfe]]);
    assert!(matches!(
        LicensePayload::from_bytes(&p),
        Err(Error::BadFormat("entitlement not utf-8"))
    ));
    let mut p = v2_payload(0, 0, &[b"x"]);
    p.push(0);
    assert!(matches!(
        LicensePayload::from_bytes(&p),
        Err(Error::BadFormat("trailing bytes in payload"))
    ));
}

#[test]
fn issued_at_is_big_endian_signed() {
    let mut p = vec![KEY_VERSION_V1, 0u8];
    p.extend([0u8; 32]);
    p.extend((-2i64).to_be_bytes());
    p.extend([0u8; 32]);
    let parsed = LicensePayload::from_bytes(&p).unwrap();
    assert_eq!(parsed.issued_at, -2);
    assert_eq!(parsed.product_id, [0u8; 16]);
    assert!(!parsed.is_fingerprint_bound());
    assert!(!parsed.is_trial());
}

#[test]
fn uuid_rendering() {
    let payload = LicensePayload::from_bytes(&v2_payload(0, 0, &[])).unwrap();
    assert_eq!(payload.product_uuid(), "00010203-0405-0607-0809-0a0b0c0d0e0f");
    assert_eq!(payload.license_uuid(), "10111213-1415-1617-1819-1a1b1c1d1e1f");
}

#[test]
fn expiry_checks() {
    let perpetual = LicensePayload::from_bytes(&v2_payload(0, 0, &[])).unwrap();
    assert!(!perpetual.is_expired_at(i64::MAX));
    let timed = LicensePayload::from_bytes(&v2_payload(0, 100, &[])).unwrap();
    assert!(!timed.is_expired_at(99));
    assert!(timed.is_expired_at(100));
    assert!(timed.is_expired_at(101));
}

#[test]
fn crockford_text_starts_with_zero_and_decodes() {
    let payload = v2_payload(0, 0, &[b"pro"]);
    let sig = [9u8; 64];
    let text = b32(&payload);
    assert!(text.starts_with('0'));
    let key = format!("LIC1-{}-{}", text, b32(&sig));
    let k = LicenseKey::parse(&key).unwrap();
    assert_eq!(k.signed_bytes, payload);
    assert_eq!(k.signature, sig);
}

#[test]
fn crockford_decoding_reads_lowercase_and_lookalikes() {
    let payload = v2_payload(0, 0, &[]);
    let sig = [0x11u8; 64];
    let text = b32(&payload).to_lowercase().replace('0', "o").replace('1', "l");
    let key = format!("LIC1-{}-{}", text, b32(&sig).replace('1', "I"));
    let k = LicenseKey::parse(&key).unwrap();
    assert_eq!(k.signed_bytes, payload);
    assert_eq!(k.signature, sig);
}

#[test]
fn rfc4648_text_does_not_give_the_payload() {
    let payload = v2_payload(0, 0, &[]);
    let sig = [0u8; 64];
    let key = format!(
        "LIC1-{}-{}",
        data_encoding::BASE32_NOPAD.encode(&payload),
        data_encoding::BASE32_NOPAD.encode(&sig)
    );
    match LicenseKey::parse(&key) {
        Ok(k) => assert_ne!(k.signed_bytes, payload),
        Err(_) => {}
    }
    assert!(matches!(LicenseKey::parse("LIC1-UUUU-0000"), Err(Error::BadEncoding("payload"))));
}

fn encode_v2(p: &LicensePayload) -> Vec<u8> {
    let mut b = vec![p.version, p.flags];
    b.extend_from_slice(&p.product_id);
    b.extend_from_slice(&p.license_id);
    b.extend(p.issued_at.to_be_bytes());
    b.extend(p.expires_at.to_be_bytes());
    b.extend_from_slice(&p.fingerprint_hash);
    b.push(p.entitlements.len() as u8);
    for e in &p.entitlements {
        b.push(e.len() as u8);
        b.extend_from_slice(e.as_bytes());
    }
    b
}

#[test]
fn v2_payload_round_trip() {
    let bytes = v2_payload(2, -7, &[b"a", "\u{1f600}".as_bytes(), b""]);
    let p = LicensePayload::from_bytes(&bytes).unwrap();
    assert_eq!(p.expires_at, -7);
    assert_eq!(encode_v2(&p), bytes);
    let q = LicensePayload::from_bytes(&encode_v2(&p)).unwrap();
    assert_eq!(q.entitlements, p.entitlements);
    assert_eq!(q.issued_at, p.issued_at);
}

#[test]
fn truncated_and_mutated_payloads_never_panic() {
    let bytes = v2_payload(1, 9, &[b"pro", b"team"]);
    for n in 0..=bytes.len() {
        let _ = LicensePayload::from_bytes(&bytes[..n]);
    }
    for i in 0..bytes.len() {
        for v in [0u8, 1, 2, 0x7f, 0x80, 0xff] {
            let mut m = bytes.clone();
            m[i] = v;
            let _ = LicensePayload::from_bytes(&m);
        }
    }
}
