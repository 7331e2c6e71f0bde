//! Signing in from another device: codes, challenges and the picture to scan.
use zitch::login::{base64url, challenge, describe, new_verifier, polled, start_request, verifier_of};
use zitch::login::{DeviceLogin, DeviceResponse, Poll, PollResponse};
use zitch::qr::QrCode;

#[test]
fn base64url_matches_rfc() {
    assert_eq!(base64url(b""), "");
    assert_eq!(base64url(b"f"), "Zg");
    assert_eq!(base64url(b"fo"), "Zm8");
    assert_eq!(base64url(b"foo"), "Zm9v");
    assert_eq!(base64url(b"foob"), "Zm9vYg");
    assert_eq!(base64url(&[0xfb, 0xff]), "-_8");
}

#[test]
fn challenge_matches_rfc_7636() {
    let verifier = "dBjftJeZ4CVP-mB92K27uhbUJU1p1r_wW1gFWFOEjXk";
    assert_eq!(
        challenge(verifier),
        "E9Melhoa2OwvFrEMTJguCHaoeK1t8URWbuGJSstw-cM"
    );
}

#[test]
fn login_verification_url_is_a_small_code() {
    let url = "https://itch.io/user/oauth/device?code=41iCR8LYdZpF6cZNBzc9cM";
    assert_eq!(zitch::login::QrCode::encode(url).unwrap().size, 33);
}

#[test]
fn qr_verification_url_is_a_small_code() {
    let url = "https://itch.io/user/oauth/device?code=41iCR8LYdZpF6cZNBzc9cM";
    assert_eq!(QrCode::encode(url).unwrap().size, 33);
}

#[test]
fn codes_have_their_finder_patterns() {
    let code = QrCode::encode("hello").unwrap();
    assert_eq!(code.size, 21);
    assert_eq!(code.modules.len(), 21 * 21);
    for (x, y) in [(0, 0), (14, 0), (0, 14)] {
        assert!(code.dark(x, y));
        assert!(!code.dark(x + 1, y + 1));
        assert!(code.dark(x + 3, y + 3));
    }
    // More than a code can hold.
    assert!(QrCode::encode(&"x".repeat(3000)).is_none());
}

#[test]
fn verifiers_are_long_and_fresh() {
    assert_eq!(
        verifier_of(&[0u8; 32]),
        "AAAAAAAAAAAAAAAAAAAAAAAAAAAAAAAAAAAAAAAAAAA"
    );
    let a = new_verifier().unwrap();
    let b = new_verifier().unwrap();
    assert_eq!(a.len(), 43);
    assert_ne!(a, b);
}

fn field<'a>(fields: &'a [(&'static str, String)], name: &str) -> &'a str {
    &fields.iter().find(|(n, _)| *n == name).unwrap().1
}

#[test]
fn sign_in_starts_with_a_challenge() {
    let (url, fields) = start_request("https://api.itch.io", "abc");
    assert!(url.starts_with("https://api.itch.io/oauth/device"));
    assert_eq!(field(&fields, "code_challenge"), "abc");
    assert!(fields.iter().any(|(name, _)| *name == "client_id"));
}

fn response(interval: u64) -> DeviceResponse {
    DeviceResponse {
        device_code: "dev".into(),
        user_code: "ABCD".into(),
        verification_uri_complete: "https://itch.io/x".into(),
        expires_in: 600,
        interval,
    }
}

#[test]
fn sign_in_waits_at_least_a_second() {
    let login = DeviceLogin::started("v".into(), 200, None, Ok(response(0))).unwrap();
    assert_eq!(login.interval, 1);
    assert_eq!(login.verification_url, "https://itch.io/x");
    let (url, fields) = login.poll_request("https://api.itch.io");
    assert_eq!(url, "https://api.itch.io/oauth/device/poll");
    assert_eq!(field(&fields, "device_code"), "dev");
}

#[test]
fn sign_in_says_what_went_wrong() {
    let errors = vec!["bad client".to_string(), "try later".to_string()];
    assert_eq!(describe(400, None), "HTTP 400");
    let described = describe(400, Some(&errors));
    assert!(described.contains("bad client"));
    assert_eq!(
        DeviceLogin::started("v".into(), 400, Some(&errors), Ok(response(5))),
        Err(format!("starting sign-in: {described}"))
    );
    assert_eq!(
        DeviceLogin::started("v".into(), 200, None, Err("not JSON".into())),
        Err("sign-in response: not JSON".into())
    );
}

fn answer(status: &str, code: Option<&str>, interval: Option<u64>) -> PollResponse {
    PollResponse {
        status: status.into(),
        code: code.map(str::to_string),
        interval,
    }
}

#[test]
fn polls_have_five_answers() {
    let ask = |answer| polled(200, None, Ok(answer));
    assert_eq!(
        ask(answer("pending", None, Some(7))),
        Ok(Poll::Pending { interval: 7 })
    );
    assert_eq!(
        ask(answer("pending", None, None)),
        Ok(Poll::Pending { interval: 5 })
    );
    assert_eq!(
        ask(answer("approved", Some("c"), None)),
        Ok(Poll::Approved { code: "c".into() })
    );
    assert_eq!(ask(answer("denied", None, None)), Ok(Poll::Denied));
    assert_eq!(ask(answer("expired", None, None)), Ok(Poll::Expired));
    assert_eq!(
        polled(429, None, Err("no body".into())),
        Ok(Poll::SlowDown)
    );
    assert_eq!(
        ask(answer("approved", None, None)),
        Err("approved without a code".into())
    );
    assert_eq!(
        ask(answer("odd \"one\"", None, None)),
        Err(format!("unknown sign-in status {:?}", "odd \"one\""))
    );
    assert_eq!(
        polled(500, None, Err("no body".into())),
        Err("polling sign-in: HTTP 500".into())
    );
    assert_eq!(
        polled(200, None, Err("no body".into())),
        Err("poll response: no body".into())
    );
}
