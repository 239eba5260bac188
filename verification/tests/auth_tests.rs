use arena_server::auth::{
    check_otp, decide_otp_request, email_otp_status, guest_session_cookie, hash_email, issue_otp,
    login_status, new_email_otp, new_totp_secret, otp_code_text, otp_session_cookie, totp_secret_text,
    request_code, OtpRequestDecision, OtpRequestOutcome, OTP_TTL_MS,
};
use argon2::password_hash::{PasswordHasher, SaltString};

#[test]
fn email_hash_is_salted_sha256_hex() {
    let h = hash_email("user@example.com");
    assert_eq!(h, "c8b02234f5916e3e565e4b1dcbd596c05bb0965ff784a11315f19a0048fa3725");
    assert_eq!(h.len(), 64);
}

#[test]
fn otp_request_cooldown() {
    let issued = 1_000_000i64;
    let expiry = issued + OTP_TTL_MS;
    assert_eq!(decide_otp_request(None, issued), OtpRequestDecision::Issue { replace_existing: false });
    assert_eq!(decide_otp_request(Some(expiry), issued + 59_999), OtpRequestDecision::TooManyRequests);
    assert_eq!(
        decide_otp_request(Some(expiry), issued + 60_000),
        OtpRequestDecision::Issue { replace_existing: true }
    );
    assert_eq!(
        decide_otp_request(Some(expiry), expiry + 1),
        OtpRequestDecision::Issue { replace_existing: true }
    );
}

#[test]
fn otp_codes() {
    assert_eq!(otp_code_text(42), "000042");
    assert_eq!(otp_code_text(999_999), "999999");
    let (code, expiry) = issue_otp(5);
    assert_eq!(code.len(), 6);
    assert!(code.chars().all(|c| c.is_ascii_digit()));
    assert_eq!(expiry, 5 + OTP_TTL_MS);
}

#[test]
fn otp_check() {
    let stored = Some(("123456".to_string(), 100i64));
    assert!(check_otp(&stored, "123456", 100));
    assert!(!check_otp(&stored, "123456", 101));
    assert!(!check_otp(&stored, "654321", 50));
    assert!(!check_otp(&None, "123456", 50));
}

#[test]
fn session_cookies() {
    assert_eq!(
        otp_session_cookie("tok"),
        "session=tok; Path=/; Secure; HttpOnly; SameSite=Lax"
    );
    assert_eq!(
        guest_session_cookie("id1", None, None),
        "session=id1; Path=/; HttpOnly; Secure; SameSite=Strict"
    );
    assert_eq!(
        guest_session_cookie("id1", Some("off"), Some("Lax")),
        "session=id1; Path=/; HttpOnly; SameSite=Lax"
    );
    assert_eq!(
        guest_session_cookie("id1", Some("YES"), None),
        "session=id1; Path=/; HttpOnly; Secure; SameSite=Strict"
    );
}

#[test]
fn password_login() {
    let salt = SaltString::encode_b64(b"somesaltbytes123").unwrap();
    let hash = argon2::Argon2::default()
        .hash_password(b"hunter2", &salt)
        .unwrap()
        .to_string();
    assert_eq!(login_status(Some(&hash), "hunter2"), Ok(200));
    assert_eq!(login_status(Some(&hash), "wrong"), Err(401));
    assert_eq!(login_status(None, "hunter2"), Err(401));
    assert_eq!(login_status(Some("not a phc string"), "hunter2"), Err(500));
}

#[test]
fn second_factor_codes() {
    let (otp, expiry) = new_email_otp(0);
    assert_eq!(otp.len(), 6);
    assert!(otp.chars().all(|c| c.is_ascii_digit()));
    assert_eq!(expiry, 600_000);
    assert_eq!(email_otp_status(Some(10), 9), 200);
    assert_eq!(email_otp_status(Some(10), 10), 401);
    assert_eq!(email_otp_status(None, 0), 401);
}

#[test]
fn totp_secret_is_base32_of_32_bytes() {
    let s = new_totp_secret();
    assert_eq!(s.len(), 52);
    assert!(s.chars().all(|c| c.is_ascii_uppercase() || ('2'..='7').contains(&c)));
}

#[test]
fn totp_secret_text_is_rfc4648_base32() {
    let bytes: Vec<u8> = (0u8..32).collect();
    assert_eq!(totp_secret_text(&bytes), "AAAQEAYEAUDAOCAJBIFQYDIOB4IBCEQTCQKRMFYYDENBWHA5DYPQ");
    assert_eq!(totp_secret_text(b"f"), "MY");
    assert_eq!(totp_secret_text(b""), "");
}

#[test]
fn request_code_follows_cooldown() {
    let now = 1_000_000i64;
    match request_code(None, now) {
        OtpRequestOutcome::Issue { replace_existing, code, expires_at } => {
            assert!(!replace_existing);
            assert_eq!(code.len(), 6);
            assert!(code.chars().all(|c| c.is_ascii_digit()));
            assert_eq!(expires_at, now + OTP_TTL_MS);
        }
        OtpRequestOutcome::TooManyRequests => panic!("a first request is served"),
    }
    // Issued 30 s ago: refused.
    let recent = request_code(Some(now - 30_000 + OTP_TTL_MS), now);
    assert!(matches!(recent, OtpRequestOutcome::TooManyRequests));
    assert_eq!(recent.status(), 429);
    // Issued 61 s ago: a new code replaces it.
    let older = request_code(Some(now - 61_000 + OTP_TTL_MS), now);
    assert!(matches!(older, OtpRequestOutcome::Issue { replace_existing: true, .. }));
    assert_eq!(older.status(), 200);
    // Expired long ago: replaced too.
    assert!(matches!(request_code(Some(now - 1), now), OtpRequestOutcome::Issue { replace_existing: true, .. }));
}
