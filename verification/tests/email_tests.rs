use arena_server::admin::{mail_test, RedactedSmtpConfig};
use arena_server::email::{
    EmailError, EmailService, RateLimiter, RetryAction, RetryPolicy, SmtpConfig, StartTls, TlsMode,
    TransportPlan, MAX_RETRIES, RATE_LIMIT_MS,
};

fn smtp_cfg() -> SmtpConfig {
    SmtpConfig {
        host: "localhost".into(),
        from: "arena@localhost".into(),
        ..Default::default()
    }
}

#[test]
fn rate_limiting() {
    let mut limits = RateLimiter::new();
    assert!(EmailService::allowed(&mut limits, "a@example.com", 1_000));
    assert!(!EmailService::allowed(&mut limits, "a@example.com", 1_000));
}

#[test]
fn rate_limit_window_reopens() {
    let mut limits = RateLimiter::new();
    assert!(limits.allowed("a@example.com", 0));
    assert!(!limits.allowed("a@example.com", RATE_LIMIT_MS - 1));
    assert!(limits.allowed("b@example.com", RATE_LIMIT_MS - 1));
    assert!(limits.allowed("a@example.com", RATE_LIMIT_MS));
}

#[test]
fn purge_keeps_admission_unchanged() {
    let mut limits = RateLimiter::new();
    assert!(limits.allowed("old@example.com", 0));
    assert!(limits.allowed("new@example.com", 50_000));
    limits.purge(70_000);
    assert!(limits.allowed("old@example.com", 70_000));
    assert!(!limits.allowed("new@example.com", 70_000));
}

#[test]
fn invalid_address() {
    let mut cfg = SmtpConfig::default();
    cfg.from = "noreply@example.com".into();
    let svc = EmailService::new(&cfg);
    let mut limits = RateLimiter::new();
    match svc.send_test(&mut limits, "not-an-email", 0) {
        Err(EmailError::Address(_)) => {}
        _ => panic!("expected address error"),
    }
}

#[test]
fn send_test_composes_mail() {
    let svc = EmailService::new(&smtp_cfg());
    let mut limits = RateLimiter::new();
    let mail = svc.send_test(&mut limits, "user@example.com", 0).unwrap();
    assert_eq!(mail.from, "arena@localhost");
    assert_eq!(mail.to, "user@example.com");
    assert_eq!(mail.subject, "Test email");
    assert_eq!(mail.body, "Arena test message");
    assert!(matches!(
        svc.send_test(&mut limits, "user@example.com", 10),
        Err(EmailError::RateLimited)
    ));
}

#[test]
fn mail_bodies() {
    let svc = EmailService::new(&smtp_cfg());
    let mut limits = RateLimiter::new();
    let m = svc.send_registration_password(&mut limits, "a@example.com", "pw1", 0).unwrap();
    assert_eq!(m.subject, "Registration Password");
    assert_eq!(m.body, "Your registration password is: pw1");
    let m = svc.send_verification_link(&mut limits, "b@example.com", "http://x/v", 0).unwrap();
    assert_eq!(m.subject, "Verify Your Account");
    assert_eq!(m.body, "Click the following link to verify your account: http://x/v");
    let m = svc.send_otp_code(&mut limits, "c@example.com", "123456", 0).unwrap();
    assert_eq!(m.subject, "Your OTP Code");
    assert_eq!(m.body, "Your one-time passcode is: 123456");
    let m = svc.send_password_reset(&mut limits, "d@example.com", "http://x/r", 0).unwrap();
    assert_eq!(m.subject, "Password Reset");
    assert_eq!(m.body, "Reset your password using the following link: http://x/r");
    assert_eq!(svc.from_address(), "arena@localhost");
}

#[test]
fn retries_on_failure() {
    let mut policy = RetryPolicy::new(1);
    let mut attempts = 0;
    loop {
        let succeeded = attempts >= 2;
        attempts += 1;
        match policy.after_attempt(succeeded) {
            RetryAction::Done => break,
            RetryAction::Wait { retry, .. } => {
                if !retry {
                    break;
                }
            }
        }
    }
    assert_eq!(attempts, 3);
}

#[test]
fn retry_gives_up_after_max_attempts_with_doubling_delays() {
    let mut policy = RetryPolicy::new(1000);
    let mut delays = Vec::new();
    for k in 0..MAX_RETRIES {
        match policy.after_attempt(false) {
            RetryAction::Wait { delay_ms, retry } => {
                delays.push(delay_ms);
                assert_eq!(retry, k + 1 < MAX_RETRIES);
            }
            RetryAction::Done => panic!("a failure is not done"),
        }
    }
    assert_eq!(delays, vec![1000, 2000, 4000, 8000, 16000]);
}

#[test]
fn start_tls_parsing() {
    assert_eq!(StartTls::parse("auto"), Ok(StartTls::Auto));
    assert_eq!(StartTls::parse("ALWAYS"), Ok(StartTls::Always));
    assert_eq!(StartTls::parse("Never"), Ok(StartTls::Never));
    assert_eq!(StartTls::default(), StartTls::Auto);
    for t in [StartTls::Auto, StartTls::Always, StartTls::Never] {
        assert_eq!(StartTls::parse(t.name()), Ok(t));
    }
}

#[test]
fn invalid_starttls_cli_value_errors() {
    assert!(StartTls::parse("bogus").is_err());
}

#[test]
fn invalid_starttls_env_value_errors() {
    assert!(StartTls::parse("bogus").is_err());
    assert!(StartTls::parse("").is_err());
}

#[test]
fn smtp_defaults() {
    let cfg = SmtpConfig::default();
    assert_eq!(cfg.host, "localhost");
    assert_eq!(cfg.port, 25);
    assert_eq!(cfg.from, "arena@localhost");
    assert_eq!(cfg.starttls, StartTls::Auto);
    assert!(!cfg.smtps);
    assert_eq!(cfg.timeout, 10000);
    assert!(cfg.user.is_none());
    assert!(cfg.pass.is_none());
}

#[test]
fn transport_plan_modes() {
    let mut cfg = smtp_cfg();
    assert_eq!(TransportPlan::from_config(&cfg).tls, TlsMode::Opportunistic);
    cfg.starttls = StartTls::Always;
    assert_eq!(TransportPlan::from_config(&cfg).tls, TlsMode::Required);
    cfg.starttls = StartTls::Never;
    assert_eq!(TransportPlan::from_config(&cfg).tls, TlsMode::Plain);
    cfg.smtps = true;
    assert_eq!(TransportPlan::from_config(&cfg).tls, TlsMode::Wrapper);
    cfg.user = Some("u".into());
    assert!(TransportPlan::from_config(&cfg).credentials.is_none());
    cfg.pass = Some("p".into());
    assert_eq!(
        TransportPlan::from_config(&cfg).credentials,
        Some(("u".to_string(), "p".to_string()))
    );
}

#[test]
fn mail_test_defaults_to_from_address() {
    let mut cfg = smtp_cfg();
    cfg.from = "default@example.com".into();
    let svc = EmailService::new(&cfg);
    let mut limits = RateLimiter::new();
    assert!(mail_test(&svc, &mut limits, None, None, 0).is_some());
    assert!(mail_test(&svc, &mut limits, None, None, 1).is_none());
}

#[test]
fn mail_test_accepts_user_address_query() {
    let mut cfg = smtp_cfg();
    cfg.from = "query@example.com".into();
    let svc = EmailService::new(&cfg);
    let mut limits = RateLimiter::new();
    assert!(mail_test(&svc, &mut limits, None, None, 0).is_some());
    let m = mail_test(&svc, &mut limits, Some("user_q@example.com".into()), None, 0).unwrap();
    assert_eq!(m.to, "user_q@example.com");
}

#[test]
fn mail_test_accepts_user_address_body() {
    let mut cfg = smtp_cfg();
    cfg.from = "body@example.com".into();
    let svc = EmailService::new(&cfg);
    let mut limits = RateLimiter::new();
    assert!(mail_test(&svc, &mut limits, None, None, 0).is_some());
    let m = mail_test(&svc, &mut limits, None, Some("user_b@example.com".into()), 0).unwrap();
    assert_eq!(m.to, "user_b@example.com");
}

#[test]
fn mail_test_rejects_invalid_recipient() {
    let svc = EmailService::new(&smtp_cfg());
    let mut limits = RateLimiter::new();
    assert!(mail_test(&svc, &mut limits, Some("not-an-email".into()), None, 0).is_none());
}

#[test]
fn mail_config_redacts_password() {
    let mut cfg = smtp_cfg();
    cfg.pass = Some("secret".into());
    let redacted = RedactedSmtpConfig::from_config(&cfg);
    assert_eq!(redacted.pass, Some("***".into()));
    assert_eq!(redacted.user, None);
    assert_eq!(redacted.host, "localhost");
    let plain = RedactedSmtpConfig::from_config(&smtp_cfg());
    assert_eq!(plain.pass, None);
}

/// Drives a delivery with the policy, the attempt with index `first_ok`
/// succeeding; returns the attempts made and the total wait.
fn drive_delivery(base: u64, first_ok: u32) -> (u32, u64) {
    let mut policy = RetryPolicy::new(base);
    let mut calls = 0u32;
    let mut waited = 0u64;
    loop {
        let succeeded = calls == first_ok;
        calls += 1;
        match policy.after_attempt(succeeded) {
            RetryAction::Done => return (calls, waited),
            RetryAction::Wait { delay_ms, retry } => {
                waited += delay_ms;
                if !retry {
                    return (calls, waited);
                }
            }
        }
    }
}

#[test]
fn delivery_attempts_and_total_wait() {
    assert_eq!(drive_delivery(1000, 0), (1, 0));
    assert_eq!(drive_delivery(1000, 2), (3, 3000));
    assert_eq!(drive_delivery(1000, 4), (5, 15000));
    assert_eq!(drive_delivery(1000, 5), (5, 31000));
    assert_eq!(drive_delivery(1, 100), (5, 31));
}

#[test]
fn email_error_messages() {
    assert_eq!(EmailError::RateLimited.message(), "rate limited");
    assert_eq!(EmailError::LockPoisoned.message(), "lock poisoned");
    assert_eq!(EmailError::Smtp("connection refused".to_string()).message(), "connection refused");
    assert_eq!(EmailError::Build("no body".to_string()).message(), "no body");
    let err = "not-an-address".parse::<lettre::Address>().unwrap_err();
    assert_eq!(EmailError::Address(err).message(), "Missing domain or user");
}
