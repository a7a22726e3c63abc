use ladder_mm::exchange::auth::KucoinAuth;

fn test_auth() -> KucoinAuth {
    KucoinAuth::new(
        "test_key".to_string(),
        "test_secret".to_string(),
        "test_pass".to_string(),
        true,
    )
}

#[test]
fn test_sign() {
    let auth = test_auth();

    let (ts, sig, pass, ver) = auth.sign("POST", "/api/v1/orders", r#"{"symbol":"LTC-USDT"}"#);

    assert!(!ts.is_empty());
    assert!(!sig.is_empty());
    assert!(!pass.is_empty());
    assert_eq!(ver, "2");
}

#[test]
fn sign_at_matches_known_hmac() {
    let auth = test_auth();
    let (ts, sig, pass, ver) =
        auth.sign_at("1700000000000", "POST", "/api/v1/orders", r#"{"symbol":"LTC-USDT"}"#);
    assert_eq!(ts, "1700000000000");
    assert_eq!(sig, "P431geOl9IBhA7sHyQCiRz19Syd68uSFx6tem6743Uc=");
    assert_eq!(pass, "lJFerEKFgilcHTLczmE7TZ7VRJv4AzkjbwDFD2mZf94=");
    assert_eq!(ver, "2");
}

#[test]
fn sign_upper_cases_the_method() {
    let auth = test_auth();
    let (_, lower, _, _) =
        auth.sign_at("1700000000000", "post", "/api/v1/orders", r#"{"symbol":"LTC-USDT"}"#);
    assert_eq!(lower, "P431geOl9IBhA7sHyQCiRz19Syd68uSFx6tem6743Uc=");
}

#[test]
fn sign_v1_sends_plain_passphrase() {
    let auth = KucoinAuth::new("k".to_string(), "test_secret".to_string(), "test_pass".to_string(), false);
    let (_, _, pass, ver) = auth.sign_at("1", "GET", "/x", "");
    assert_eq!(pass, "test_pass");
    assert_eq!(ver, "1");
}

#[test]
fn sign_ws_url_signs_key_and_timestamp() {
    let auth = KucoinAuth::new(
        "The quick brown fox jumps over the lazy do".to_string(),
        "key".to_string(),
        "p".to_string(),
        false,
    );
    let (ts, sig, _) = auth.sign_ws_url_at("g");
    assert_eq!(ts, "g");
    assert_eq!(sig, "97yD9DBThCSxMpjmqm+xQ+9NWaFJRhdZl0edvC0aPNg=");
}

#[test]
fn timestamp_is_decimal_millis() {
    let ts = KucoinAuth::timestamp_ms();
    assert!(!ts.is_empty());
    assert!(ts.chars().all(|c| c.is_ascii_digit()));
    assert!(ts.parse::<u64>().unwrap() > 1_600_000_000_000);
}

#[test]
fn accessors_return_credentials() {
    let auth = test_auth();
    assert_eq!(auth.api_key(), "test_key");
    assert_eq!(auth.api_secret(), "test_secret");
}
