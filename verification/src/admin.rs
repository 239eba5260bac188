//! Administration endpoints: the mail settings with the password hidden, and
//! the test mail.

use vstd::prelude::*;
use vstd::string::StringExecFns;

use crate::email::{EmailService, OutgoingMail, RateLimiter, SmtpConfig, StartTls, admits, lettre_mailbox_parses};

verus! {

/// The mail settings as shown to administrators.
pub struct RedactedSmtpConfig {
    pub host: String,
    pub port: u16,
    pub from: String,
    pub starttls: StartTls,
    pub smtps: bool,
    pub timeout: u64,
    pub user: Option<String>,
    /// `***` when a password is configured.
    pub pass: Option<String>,
}

impl RedactedSmtpConfig {
    /// The settings with the password replaced by `***`; everything else is
    /// shown as configured.
    pub fn from_config(cfg: &SmtpConfig) -> (r: Self)
        ensures
            r.host@ == cfg.host@,
            r.port == cfg.port,
            r.from@ == cfg.from@,
            r.starttls == cfg.starttls,
            r.smtps == cfg.smtps,
            r.timeout == cfg.timeout,
            r.user is Some <==> cfg.user is Some,
            r.user matches Some(u) ==> u@ == cfg.user->0@,
            r.pass is Some <==> cfg.pass is Some,
            r.pass matches Some(p) ==> p@ == "***"@,
    {
        let user = match &cfg.user {
            Some(u) => Some(u.clone()),
            None => None,
        };
        let pass = match &cfg.pass {
            Some(_) => Some(String::from_str("***")),
            None => None,
        };
        RedactedSmtpConfig {
            host: cfg.host.clone(),
            port: cfg.port,
            from: cfg.from.clone(),
            starttls: cfg.starttls,
            smtps: cfg.smtps,
            timeout: cfg.timeout,
            user,
            pass,
        }
    }
}

/// Name of what `email_address::EmailAddress::is_valid` says of a text.
pub uninterp spec fn email_address_valid(s: Seq<char>) -> bool;

/// `EmailAddress::is_valid`.
#[verifier::external_body]
fn is_valid_address(s: &str) -> (r: bool)
    ensures
        r == email_address_valid(s@),
{
    email_address::EmailAddress::is_valid(s)
}

/// The recipient of a test mail: the address given in the query, else the
/// one in the body, else the sender's own address.
pub open spec fn test_recipient(query: Option<Seq<char>>, body: Option<Seq<char>>, from: Seq<char>) -> Seq<char> {
    match query {
        Some(q) => q,
        None => match body {
            Some(b) => b,
            None => from,
        },
    }
}

pub open spec fn opt_view(o: Option<String>) -> Option<Seq<char>> {
    match o {
        Some(s) => Some(s@),
        None => None,
    }
}

/// Sends a test mail. The result is the composed mail, or `None` when the
/// recipient is not a valid address (the rate limiter is then left alone) or
/// when the mail was refused.
pub fn mail_test(
    service: &EmailService,
    limits: &mut RateLimiter,
    query: Option<String>,
    body: Option<String>,
    now: u64,
) -> (r: Option<OutgoingMail>)
    ensures
        ({
            let to = test_recipient(opt_view(query), opt_view(body), service.sender());
            if !email_address_valid(to) {
                r is None && final(limits).last_sent() == old(limits).last_sent()
            } else {
                &&& (if admits(old(limits).last_sent(), to, now) {
                    final(limits).last_sent() == old(limits).last_sent().insert(to, now)
                } else {
                    final(limits).last_sent() == old(limits).last_sent()
                })
                &&& (r is Some <==> admits(old(limits).last_sent(), to, now) && lettre_mailbox_parses(service.sender())
                    && lettre_mailbox_parses(to))
                &&& (r matches Some(m) ==> m.from@ == service.sender() && m.to@ == to && m.subject@
                    == "Test email"@ && m.body@ == "Arena test message"@)
            }
        }),
{
    let to = match query {
        Some(q) => q,
        None => match body {
            Some(b) => b,
            None => String::from_str(service.from_address()),
        },
    };
    if !is_valid_address(to.as_str()) {
        return None;
    }
    let res = service.send_test(limits, to.as_str(), now);
    match res {
        Ok(m) => Some(m),
        Err(_) => None,
    }
}

/// The address in the query wins over the one in the body, which wins over
/// the sender's own.
pub proof fn law_query_recipient_wins(q: Seq<char>, body: Option<Seq<char>>, b: Seq<char>, from: Seq<char>)
    ensures
        test_recipient(Some(q), body, from) == q,
        test_recipient(None, Some(b), from) == b,
        test_recipient(None, None, from) == from,
{
}

} // verus!
