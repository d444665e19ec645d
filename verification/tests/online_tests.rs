use licensing_client::online::{check_reply, endpoint_url, parse_base_url, purchase_poll_path};
use licensing_client::{Error, StartPurchaseOptions, StatusRule, ValidateResponse};

#[test]
fn exact_rule_accepts_only_200() {
    assert_eq!(check_reply(200, "x".to_string(), StatusRule::ExactlyOk).unwrap(), "x");
    match check_reply(201, "body".to_string(), StatusRule::ExactlyOk) {
        Err(Error::Server { status, body }) => {
            assert_eq!(status, 201);
            assert_eq!(body, "body");
        }
        _ => panic!("expected server error"),
    }
}

#[test]
fn success_rule_accepts_2xx() {
    assert!(check_reply(204, String::new(), StatusRule::AnySuccess).is_ok());
    assert!(check_reply(299, String::new(), StatusRule::AnySuccess).is_ok());
    assert!(matches!(
        check_reply(300, String::new(), StatusRule::AnySuccess),
        Err(Error::Server { status: 300, .. })
    ));
    assert!(matches!(
        check_reply(199, String::new(), StatusRule::AnySuccess),
        Err(Error::Server { status: 199, .. })
    ));
}

#[test]
fn urls_are_joined() {
    let base = parse_base_url("https://license.example.com").unwrap();
    assert_eq!(base, "https://license.example.com/");
    assert_eq!(
        endpoint_url(&base, "/v1/validate").unwrap(),
        "https://license.example.com/v1/validate"
    );
    assert_eq!(
        endpoint_url(&base, &purchase_poll_path("inv-1")).unwrap(),
        "https://license.example.com/v1/purchase/inv-1"
    );
    assert!(matches!(parse_base_url("not a url"), Err(Error::BadUrl(_))));
}

#[test]
fn response_entitlements() {
    let mut r = ValidateResponse::default();
    assert!(!r.ok);
    assert!(!r.has_entitlement("pro"));
    r.entitlements.push("pro".to_string());
    assert!(r.has_entitlement("pro"));
}

#[test]
fn purchase_options_default_to_none() {
    let o = StartPurchaseOptions::default();
    assert!(o.policy_slug.is_none() && o.buyer_email.is_none() && o.redirect_url.is_none());
}

#[test]
fn error_messages() {
    assert_eq!(Error::BadFormat("missing payload").message(), "bad key format: missing payload");
    assert_eq!(
        Error::BadPayloadLength { expected: 74, got: 0 }.message(),
        "bad payload length: expected 74, got 0"
    );
    assert_eq!(Error::UnsupportedVersion(99).message(), "unsupported key version 99");
    assert_eq!(
        Error::Server { status: 503, body: "down".to_string() }.message(),
        "server error (503): down"
    );
    assert_eq!(Error::Expired.message(), "license expired");
    assert_eq!(Error::Other("x".to_string()).message(), "x");
}
