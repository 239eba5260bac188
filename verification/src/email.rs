//! E-mail configuration, per-recipient rate limiting, message composition
//! and the retry policy of the delivery task.
//!
//! Delivery itself (the SMTP transport and the queue that feeds it) runs
//! outside the library; this module decides what may be sent, what is sent,
//! and how failed sends are retried.

use vstd::prelude::*;
use vstd::string::StringExecFns;

use crate::text::{equals_ignore_ascii_case, eq_ignore_ascii_case, str_eq};

verus! {

// -- Configuration ---------------------------------------------------------

/// When to upgrade an SMTP connection with STARTTLS.
#[derive(Debug, PartialEq, Eq, Structural, Clone, Copy)]
pub enum StartTls {
    Auto,
    Always,
    Never,
}

/// The name of each `StartTls` mode.
pub open spec fn start_tls_name(t: StartTls) -> Seq<char> {
    match t {
        StartTls::Auto => "auto"@,
        StartTls::Always => "always"@,
        StartTls::Never => "never"@,
    }
}

/// The mode that a configuration text names, compared without regard to
/// ASCII case (`AUTO`, `Always`, `never`, ...).
pub open spec fn start_tls_of(s: Seq<char>) -> Option<StartTls> {
    if eq_ignore_ascii_case(s, "auto"@) {
        Some(StartTls::Auto)
    } else if eq_ignore_ascii_case(s, "always"@) {
        Some(StartTls::Always)
    } else if eq_ignore_ascii_case(s, "never"@) {
        Some(StartTls::Never)
    } else {
        None
    }
}

impl StartTls {
    /// Parses a mode name in any letter case; any other text is refused.
    ///
    /// The names are lower-case ASCII words, and the only characters whose
    /// lower-case form is one of their letters are those letters in either
    /// case, so comparing without regard to ASCII case accepts exactly the
    /// texts whose lower-case form is a name.
    pub fn parse(s: &str) -> (r: Result<StartTls, ()>)
        ensures
            r is Ok <==> start_tls_of(s@) is Some,
            r matches Ok(t) ==> start_tls_of(s@) == Some(t),
    {
        if equals_ignore_ascii_case(s, "auto") {
            Ok(StartTls::Auto)
        } else if equals_ignore_ascii_case(s, "always") {
            Ok(StartTls::Always)
        } else if equals_ignore_ascii_case(s, "never") {
            Ok(StartTls::Never)
        } else {
            Err(())
        }
    }

    /// The canonical (lower-case) name of the mode.
    pub fn name(&self) -> (r: &'static str)
        ensures
            r@ == start_tls_name(*self),
    {
        match self {
            StartTls::Auto => {
                proof { reveal_strlit("auto"); }
                "auto"
            },
            StartTls::Always => {
                proof { reveal_strlit("always"); }
                "always"
            },
            StartTls::Never => {
                proof { reveal_strlit("never"); }
                "never"
            },
        }
    }
}

impl Default for StartTls {
    fn default() -> (r: Self)
        ensures
            r == StartTls::Auto,
    {
        StartTls::Auto
    }
}

/// Parsing the canonical name of a mode gives the mode back.
pub proof fn law_start_tls_name_round_trip(t: StartTls)
    ensures
        start_tls_of(start_tls_name(t)) == Some(t),
{
    reveal_strlit("auto");
    reveal_strlit("always");
    reveal_strlit("never");
    match t {
        StartTls::Auto => {
            assert(eq_ignore_ascii_case("auto"@, "auto"@));
        },
        StartTls::Always => {
            assert(!eq_ignore_ascii_case("always"@, "auto"@));
            assert(eq_ignore_ascii_case("always"@, "always"@));
        },
        StartTls::Never => {
            assert(!eq_ignore_ascii_case("never"@, "auto"@));
            assert(!eq_ignore_ascii_case("never"@, "always"@));
            assert(eq_ignore_ascii_case("never"@, "never"@));
        },
    }
}

/// Texts that differ only in ASCII case name the same mode (or none).
pub proof fn law_start_tls_case_insensitive(a: Seq<char>, b: Seq<char>)
    requires
        eq_ignore_ascii_case(a, b),
    ensures
        start_tls_of(a) == start_tls_of(b),
{
    assert forall|w: Seq<char>| eq_ignore_ascii_case(a, w) <==> eq_ignore_ascii_case(b, w) by {
        if eq_ignore_ascii_case(a, w) {
            assert forall|i: int| 0 <= i < b.len() implies #[trigger] crate::text::ascii_lower(b[i])
                == crate::text::ascii_lower(w[i]) by {
                assert(crate::text::ascii_lower(a[i]) == crate::text::ascii_lower(b[i]));
                assert(crate::text::ascii_lower(a[i]) == crate::text::ascii_lower(w[i]));
            }
        }
        if eq_ignore_ascii_case(b, w) {
            assert forall|i: int| 0 <= i < a.len() implies #[trigger] crate::text::ascii_lower(a[i])
                == crate::text::ascii_lower(w[i]) by {
                assert(crate::text::ascii_lower(a[i]) == crate::text::ascii_lower(b[i]));
                assert(crate::text::ascii_lower(b[i]) == crate::text::ascii_lower(w[i]));
            }
        }
    }
    assert(eq_ignore_ascii_case(a, "auto"@) == eq_ignore_ascii_case(b, "auto"@));
    assert(eq_ignore_ascii_case(a, "always"@) == eq_ignore_ascii_case(b, "always"@));
    assert(eq_ignore_ascii_case(a, "never"@) == eq_ignore_ascii_case(b, "never"@));
}

/// SMTP settings of the mail service.
#[derive(Debug)]
pub struct SmtpConfig {
    pub host: String,
    pub port: u16,
    pub from: String,
    pub starttls: StartTls,
    pub smtps: bool,
    pub timeout: u64,
    pub user: Option<String>,
    pub pass: Option<String>,
}

impl Default for SmtpConfig {
    fn default() -> (r: Self)
        ensures
            r.host@ == "localhost"@,
            r.port == 25,
            r.from@ == "arena@localhost"@,
            r.starttls == StartTls::Auto,
            !r.smtps,
            r.timeout == 10000,
            r.user is None,
            r.pass is None,
    {
        SmtpConfig {
            host: String::from_str("localhost"),
            port: 25,
            from: String::from_str("arena@localhost"),
            starttls: StartTls::Auto,
            smtps: false,
            timeout: 10000,
            user: None,
            pass: None,
        }
    }
}

/// How the SMTP connection is secured.
#[derive(Debug, PartialEq, Eq, Structural, Clone, Copy)]
pub enum TlsMode {
    /// Implicit TLS from the first byte (SMTPS).
    Wrapper,
    /// STARTTLS, refusing to continue without it.
    Required,
    /// STARTTLS when the server offers it.
    Opportunistic,
    /// No TLS at all.
    Plain,
}

/// The TLS mode that a configuration asks for: SMTPS wins over STARTTLS.
pub open spec fn tls_mode_of(smtps: bool, starttls: StartTls) -> TlsMode {
    if smtps {
        TlsMode::Wrapper
    } else {
        match starttls {
            StartTls::Always => TlsMode::Required,
            StartTls::Auto => TlsMode::Opportunistic,
            StartTls::Never => TlsMode::Plain,
        }
    }
}

/// What the SMTP transport is built from.
pub struct TransportPlan {
    pub host: String,
    pub port: u16,
    pub timeout_ms: u64,
    pub tls: TlsMode,
    /// User and password, used only when both are configured.
    pub credentials: Option<(String, String)>,
}

impl TransportPlan {
    pub fn from_config(config: &SmtpConfig) -> (p: TransportPlan)
        ensures
            p.host@ == config.host@,
            p.port == config.port,
            p.timeout_ms == config.timeout,
            p.tls == tls_mode_of(config.smtps, config.starttls),
            p.credentials is Some <==> (config.user is Some && config.pass is Some),
            p.credentials matches Some(c) ==> c.0@ == config.user->0@ && c.1@
                == config.pass->0@,
    {
        let tls = if config.smtps {
            TlsMode::Wrapper
        } else {
            match config.starttls {
                StartTls::Always => TlsMode::Required,
                StartTls::Auto => TlsMode::Opportunistic,
                StartTls::Never => TlsMode::Plain,
            }
        };
        let credentials = match (&config.user, &config.pass) {
            (Some(user), Some(pass)) => Some((user.clone(), pass.clone())),
            _ => None,
        };
        TransportPlan { host: config.host.clone(), port: config.port, timeout_ms: config.timeout, tls, credentials }
    }
}

// -- Rate limiting --------------------------------------------------------

/// Minimum time, in milliseconds, between two mails to one recipient.
pub const RATE_LIMIT_MS: u64 = 60_000;

/// How often, in milliseconds, expired rate-limit entries are purged.
pub const CLEANUP_INTERVAL_MS: u64 = 60_000;

/// Whether a mail to `to` may go out at `now`, given the time of the last
/// mail sent to each recipient.
pub open spec fn admits(m: Map<Seq<char>, u64>, to: Seq<char>, now: u64) -> bool {
    !(m.contains_key(to) && (now as int) - (m[to] as int) < RATE_LIMIT_MS as int)
}

/// The entries that are still within the rate-limit window at `now`.
pub open spec fn purged(m: Map<Seq<char>, u64>, now: u64) -> Map<Seq<char>, u64> {
    Map::new(
        |k: Seq<char>| m.contains_key(k) && (now as int) - (m[k] as int) < RATE_LIMIT_MS as int,
        |k: Seq<char>| m[k],
    )
}

/// Time (in milliseconds, on a monotonic clock) of the last mail to a recipient.
pub struct RateEntry {
    pub to: String,
    pub at: u64,
}

/// Per-recipient rate limiter.
pub struct RateLimiter {
    entries: Vec<RateEntry>,
}

/// Whether some entry of `s` is for recipient `k`.
pub open spec fn has_key(s: Seq<RateEntry>, k: Seq<char>) -> bool {
    exists|i: int| 0 <= i < s.len() && #[trigger] s[i].to@ == k
}

/// No two entries of `s` are for the same recipient.
pub open spec fn keys_distinct(s: Seq<RateEntry>) -> bool {
    forall|i: int, j: int|
        0 <= i < s.len() && 0 <= j < s.len() && i != j ==> #[trigger] s[i].to@ != #[trigger] s[j].to@
}

/// The entries of `s` by recipient.
pub open spec fn entry_map(s: Seq<RateEntry>) -> Map<Seq<char>, u64> {
    Map::new(
        |k: Seq<char>| has_key(s, k),
        |k: Seq<char>| s[choose|i: int| 0 <= i < s.len() && #[trigger] s[i].to@ == k].at,
    )
}

proof fn lemma_entry_map_at(s: Seq<RateEntry>, i: int)
    requires
        keys_distinct(s),
        0 <= i < s.len(),
    ensures
        entry_map(s).contains_key(s[i].to@),
        entry_map(s)[s[i].to@] == s[i].at,
{
    assert(has_key(s, s[i].to@));
    let j = choose|j: int| 0 <= j < s.len() && #[trigger] s[j].to@ == s[i].to@;
    assert(j == i);
}

impl RateLimiter {
    /// Time of the last mail to each recipient that is remembered.
    pub closed spec fn last_sent(&self) -> Map<Seq<char>, u64> {
        entry_map(self.entries@)
    }

    #[verifier::type_invariant]
    spec fn keys_ok(self) -> bool {
        keys_distinct(self.entries@)
    }

    pub fn new() -> (r: Self)
        ensures
            r.last_sent().is_empty(),
    {
        let r = RateLimiter { entries: Vec::new() };
        assert(r.last_sent() =~= Map::empty());
        r
    }

    fn find(&self, to: &str) -> (r: Option<usize>)
        ensures
            r matches Some(i) ==> i < self.entries@.len() && self.entries@[i as int].to@ == to@,
            r is None ==> !has_key(self.entries@, to@),
    {
        let mut i: usize = 0;
        while i < self.entries.len()
            invariant
                i <= self.entries@.len(),
                forall|j: int| 0 <= j < i ==> #[trigger] self.entries@[j].to@ != to@,
            decreases self.entries@.len() - i,
        {
            if str_eq(self.entries[i].to.as_str(), to) {
                return Some(i);
            }
            i = i + 1;
        }
        None
    }

    /// Whether a mail to `to` may be sent at `now`; when it may, `now` is
    /// remembered as the time of the last mail to `to`.
    pub fn allowed(&mut self, to: &str, now: u64) -> (r: bool)
        ensures
            r == admits(old(self).last_sent(), to@, now),
            r ==> final(self).last_sent() == old(self).last_sent().insert(to@, now),
            !r ==> final(self).last_sent() == old(self).last_sent(),
    {
        proof {
            use_type_invariant(&*self);
        }
        let ghost old_s = self.entries@;
        match self.find(to) {
            Some(i) => {
                proof { lemma_entry_map_at(old_s, i as int); }
                let last = self.entries[i].at;
                if (now as i128) - (last as i128) < RATE_LIMIT_MS as i128 {
                    false
                } else {
                    let mut entries: Vec<RateEntry> = Vec::new();
                    std::mem::swap(&mut entries, &mut self.entries);
                    entries.set(i, RateEntry { to: String::from_str(to), at: now });
                    proof { Self::lemma_after_store(old_s, entries@, to@, now, i as int); }
                    self.entries = entries;
                    true
                }
            },
            None => {
                proof {
                    assert(!entry_map(old_s).contains_key(to@));
                }
                let mut entries: Vec<RateEntry> = Vec::new();
                std::mem::swap(&mut entries, &mut self.entries);
                entries.push(RateEntry { to: String::from_str(to), at: now });
                proof { Self::lemma_after_store(old_s, entries@, to@, now, old_s.len() as int); }
                self.entries = entries;
                true
            },
        }
    }

    proof fn lemma_after_store(old_s: Seq<RateEntry>, new_s: Seq<RateEntry>, k: Seq<char>, now: u64, i: int)
        requires
            keys_distinct(old_s),
            0 <= i <= old_s.len(),
            i < old_s.len() ==> old_s[i].to@ == k && new_s == old_s.update(i, new_s[i]),
            i == old_s.len() ==> !has_key(old_s, k) && new_s == old_s.push(new_s[i]),
            new_s[i].to@ == k,
            new_s[i].at == now,
        ensures
            keys_distinct(new_s),
            entry_map(new_s) == entry_map(old_s).insert(k, now),
    {
        assert(keys_distinct(new_s));
        let target = entry_map(old_s).insert(k, now);
        assert forall|x: Seq<char>| #[trigger] entry_map(new_s).contains_key(x) <==> target.contains_key(x) by {
            if x != k && has_key(old_s, x) {
                let j = choose|j: int| 0 <= j < old_s.len() && #[trigger] old_s[j].to@ == x;
                assert(new_s[j].to@ == x);
            }
            if x == k {
                assert(new_s[i].to@ == x);
            }
            if has_key(new_s, x) && x != k {
                let j = choose|j: int| 0 <= j < new_s.len() && #[trigger] new_s[j].to@ == x;
                assert(old_s[j].to@ == x);
            }
        }
        assert forall|x: Seq<char>| #[trigger] entry_map(new_s).contains_key(x) implies entry_map(new_s)[x] == target[x] by {
            let j = choose|j: int| 0 <= j < new_s.len() && #[trigger] new_s[j].to@ == x;
            lemma_entry_map_at(new_s, j);
            if x != k {
                lemma_entry_map_at(old_s, j);
            }
        }
        assert(entry_map(new_s) =~= target);
    }

    /// Forgets every recipient whose last mail is outside the rate-limit
    /// window at `now`.
    pub fn purge(&mut self, now: u64)
        ensures
            final(self).last_sent() == purged(old(self).last_sent(), now),
    {
        proof {
            use_type_invariant(&*self);
        }
        let ghost old_s = self.entries@;
        let mut kept: Vec<RateEntry> = Vec::new();
        let ghost mut origin: Seq<int> = Seq::empty();
        let mut i: usize = 0;
        while i < self.entries.len()
            invariant
                old_s == self.entries@,
                keys_distinct(old_s),
                i <= old_s.len(),
                keys_distinct(kept@),
                origin.len() == kept@.len(),
                forall|j: int| 0 <= j < kept@.len() ==> {
                    let p = #[trigger] origin[j];
                    &&& 0 <= p < i
                    &&& kept@[j].to@ == old_s[p].to@
                    &&& kept@[j].at == old_s[p].at
                    &&& (now as int) - (old_s[p].at as int) < RATE_LIMIT_MS as int
                },
                forall|p: int| 0 <= p < i && (now as int) - (#[trigger] old_s[p].at as int) < RATE_LIMIT_MS as int ==> has_key(kept@, old_s[p].to@),
            decreases old_s.len() - i,
        {
            let e = &self.entries[i];
            if (now as i128) - (e.at as i128) < RATE_LIMIT_MS as i128 {
                let ghost before = kept@;
                let ghost before_origin = origin;
                kept.push(RateEntry { to: e.to.clone(), at: e.at });
                proof {
                    origin = origin.push(i as int);
                    assert forall|a: int, b: int| 0 <= a < kept@.len() && 0 <= b < kept@.len() && a != b implies #[trigger] kept@[a].to@ != #[trigger] kept@[b].to@ by {
                        if a == before.len() || b == before.len() {
                            let o = if a == before.len() { b } else { a };
                            assert(0 <= before_origin[o] < i);
                            assert(origin[o] == before_origin[o]);
                        }
                    }
                    assert forall|p: int| 0 <= p < i + 1 && (now as int) - (#[trigger] old_s[p].at as int) < RATE_LIMIT_MS as int implies has_key(kept@, old_s[p].to@) by {
                        if p == i {
                            assert(kept@[before.len() as int].to@ == old_s[p].to@);
                        } else {
                            let q = choose|q: int| 0 <= q < before.len() && #[trigger] before[q].to@ == old_s[p].to@;
                            assert(kept@[q].to@ == old_s[p].to@);
                        }
                    }
                }
            }
            i = i + 1;
        }
        proof {
            let target = purged(entry_map(old_s), now);
            assert forall|x: Seq<char>| #[trigger] entry_map(kept@).contains_key(x) <==> target.contains_key(x) by {
                if has_key(kept@, x) {
                    let j = choose|j: int| 0 <= j < kept@.len() && #[trigger] kept@[j].to@ == x;
                    let p = origin[j];
                    lemma_entry_map_at(old_s, p);
                }
                if target.contains_key(x) {
                    let p = choose|p: int| 0 <= p < old_s.len() && #[trigger] old_s[p].to@ == x;
                    lemma_entry_map_at(old_s, p);
                }
            }
            assert forall|x: Seq<char>| #[trigger] entry_map(kept@).contains_key(x) implies entry_map(kept@)[x] == target[x] by {
                let j = choose|j: int| 0 <= j < kept@.len() && #[trigger] kept@[j].to@ == x;
                lemma_entry_map_at(kept@, j);
                let p = origin[j];
                lemma_entry_map_at(old_s, p);
            }
            assert(entry_map(kept@) =~= target);
        }
        self.entries = kept;
    }
}

/// Purging expired entries never changes whether a mail is admitted at the
/// time of the purge.
pub proof fn law_purge_preserves_admission(m: Map<Seq<char>, u64>, to: Seq<char>, now: u64)
    ensures
        admits(purged(m, now), to, now) == admits(m, to, now),
{
}

/// Once a mail to `to` is admitted at `t1`, every further mail to `to` within
/// the rate-limit window is refused, and the first one after it is admitted.
pub proof fn law_rate_limit_window(m: Map<Seq<char>, u64>, to: Seq<char>, t1: u64, t2: u64)
    requires
        t1 <= t2,
    ensures
        admits(m.insert(to, t1), to, t2) <==> t2 - t1 >= RATE_LIMIT_MS,
{
}

// -- Composition ----------------------------------------------------------

/// Name of what `lettre` accepts as a mailbox (`Mailbox::from_str`).
pub uninterp spec fn lettre_mailbox_parses(s: Seq<char>) -> bool;

#[verifier::external_type_specification]
#[verifier::external_body]
pub struct ExAddressError(lettre::address::AddressError);

/// Parses `s` as a mailbox with `lettre` (`"user@domain"` or
/// `"Name <user@domain>"`); the error is lettre's reason. The claim is only
/// that the outcome is a function of the text.
#[verifier::external_body]
fn parse_mailbox(s: &str) -> (r: Result<(), lettre::address::AddressError>)
    ensures
        r is Ok <==> lettre_mailbox_parses(s@),
{
    s.parse::<lettre::message::Mailbox>().map(|_| ())
}

/// Why a mail was not queued.
#[derive(Debug)]
pub enum EmailError {
    RateLimited,
    Smtp(String),
    Address(lettre::address::AddressError),
    Build(String),
    LockPoisoned,
}

/// The text of a `lettre` address error (its `Display`): one of the five
/// reasons that lettre writes for its five kinds of error. Which kind a given
/// error is stays unsaid, as the error is opaque here.
#[verifier::external_body]
fn address_error_text(e: &lettre::address::AddressError) -> (r: String)
    ensures
        r@ == "Missing domain or user"@ || r@ == "Unbalanced angle bracket"@ || r@
            == "Invalid email user"@ || r@ == "Invalid email domain"@ || r@ == "Invalid input"@,
{
    e.to_string()
}

impl EmailError {
    /// The text of the error, as stored with a mail that could not be sent.
    pub fn message(&self) -> (r: String)
        ensures
            match self {
                EmailError::RateLimited => r@ == "rate limited"@,
                EmailError::Smtp(m) => r@ == m@,
                EmailError::Address(_) => r@ == "Missing domain or user"@ || r@
                    == "Unbalanced angle bracket"@ || r@ == "Invalid email user"@ || r@
                    == "Invalid email domain"@ || r@ == "Invalid input"@,
                EmailError::Build(m) => r@ == m@,
                EmailError::LockPoisoned => r@ == "lock poisoned"@,
            },
    {
        match self {
            EmailError::RateLimited => String::from_str("rate limited"),
            EmailError::Smtp(m) => m.clone(),
            EmailError::Address(e) => address_error_text(e),
            EmailError::Build(m) => m.clone(),
            EmailError::LockPoisoned => String::from_str("lock poisoned"),
        }
    }
}

/// A mail ready to hand to the delivery queue.
#[derive(Debug)]
pub struct OutgoingMail {
    pub from: String,
    pub to: String,
    pub subject: String,
    pub body: String,
}

/// The outcome of asking to send `subject`/`body` to `to` from `from` at
/// `now`: refused by the rate limiter, refused for an address that does not
/// parse, or composed.
pub open spec fn mail_outcome(
    from: Seq<char>,
    before: Map<Seq<char>, u64>,
    after: Map<Seq<char>, u64>,
    to: Seq<char>,
    subject: Seq<char>,
    body: Seq<char>,
    now: u64,
    r: Result<OutgoingMail, EmailError>,
) -> bool {
    if !admits(before, to, now) {
        &&& after == before
        &&& r matches Err(EmailError::RateLimited)
    } else {
        &&& after == before.insert(to, now)
        &&& if !lettre_mailbox_parses(from) || !lettre_mailbox_parses(to) {
            r matches Err(EmailError::Address(_))
        } else {
            r matches Ok(m) && m.from@ == from && m.to@ == to && m.subject@ == subject && m.body@
                == body
        }
    }
}

/// The service that composes outgoing mail from a fixed sender address.
pub struct EmailService {
    from: String,
}

impl EmailService {
    pub closed spec fn sender(&self) -> Seq<char> {
        self.from@
    }

    pub fn new(config: &SmtpConfig) -> (s: Self)
        ensures
            s.sender() == config.from@,
    {
        EmailService { from: config.from.clone() }
    }

    /// Rate check for one recipient (see `RateLimiter::allowed`).
    pub fn allowed(limits: &mut RateLimiter, to: &str, now: u64) -> (r: bool)
        ensures
            r == admits(old(limits).last_sent(), to@, now),
            r ==> final(limits).last_sent() == old(limits).last_sent().insert(to@, now),
            !r ==> final(limits).last_sent() == old(limits).last_sent(),
    {
        limits.allowed(to, now)
    }

    /// Composes a mail to `to`, after the rate check and the address checks.
    pub fn send_mail(&self, limits: &mut RateLimiter, to: &str, subject: &str, body: &str, now: u64) -> (r: Result<OutgoingMail, EmailError>)
        ensures
            mail_outcome(self.sender(), old(limits).last_sent(), final(limits).last_sent(), to@, subject@, body@, now, r),
    {
        if !Self::allowed(limits, to, now) {
            return Err(EmailError::RateLimited);
        }
        match parse_mailbox(self.from.as_str()) {
            Ok(()) => {},
            Err(e) => {
                return Err(EmailError::Address(e));
            },
        }
        match parse_mailbox(to) {
            Ok(()) => {},
            Err(e) => {
                return Err(EmailError::Address(e));
            },
        }
        Ok(OutgoingMail {
            from: self.from.clone(),
            to: String::from_str(to),
            subject: String::from_str(subject),
            body: String::from_str(body),
        })
    }

    pub fn send_registration_password(&self, limits: &mut RateLimiter, to: &str, password: &str, now: u64) -> (r: Result<OutgoingMail, EmailError>)
        ensures
            mail_outcome(self.sender(), old(limits).last_sent(), final(limits).last_sent(), to@,
                "Registration Password"@, "Your registration password is: "@ + password@, now, r),
    {
        let body = String::from_str("Your registration password is: ").concat(password);
        self.send_mail(limits, to, "Registration Password", body.as_str(), now)
    }

    pub fn send_verification_link(&self, limits: &mut RateLimiter, to: &str, link: &str, now: u64) -> (r: Result<OutgoingMail, EmailError>)
        ensures
            mail_outcome(self.sender(), old(limits).last_sent(), final(limits).last_sent(), to@,
                "Verify Your Account"@, "Click the following link to verify your account: "@ + link@, now, r),
    {
        let body = String::from_str("Click the following link to verify your account: ").concat(link);
        self.send_mail(limits, to, "Verify Your Account", body.as_str(), now)
    }

    pub fn send_otp_code(&self, limits: &mut RateLimiter, to: &str, code: &str, now: u64) -> (r: Result<OutgoingMail, EmailError>)
        ensures
            mail_outcome(self.sender(), old(limits).last_sent(), final(limits).last_sent(), to@,
                "Your OTP Code"@, "Your one-time passcode is: "@ + code@, now, r),
    {
        let body = String::from_str("Your one-time passcode is: ").concat(code);
        self.send_mail(limits, to, "Your OTP Code", body.as_str(), now)
    }

    pub fn send_password_reset(&self, limits: &mut RateLimiter, to: &str, link: &str, now: u64) -> (r: Result<OutgoingMail, EmailError>)
        ensures
            mail_outcome(self.sender(), old(limits).last_sent(), final(limits).last_sent(), to@,
                "Password Reset"@, "Reset your password using the following link: "@ + link@, now, r),
    {
        let body = String::from_str("Reset your password using the following link: ").concat(link);
        self.send_mail(limits, to, "Password Reset", body.as_str(), now)
    }

    pub fn send_test(&self, limits: &mut RateLimiter, to: &str, now: u64) -> (r: Result<OutgoingMail, EmailError>)
        ensures
            mail_outcome(self.sender(), old(limits).last_sent(), final(limits).last_sent(), to@,
                "Test email"@, "Arena test message"@, now, r),
    {
        self.send_mail(limits, to, "Test email", "Arena test message", now)
    }

    pub fn from_address(&self) -> (r: &str)
        ensures
            r@ == self.sender(),
    {
        self.from.as_str()
    }
}

// -- Retry policy ---------------------------------------------------------

/// Attempts made to deliver one mail before giving up.
pub const MAX_RETRIES: u32 = 5;

/// Wait, in milliseconds, after the first failed attempt.
pub const RETRY_BASE_MS: u64 = 1000;

/// `base` doubled `k` times.
pub open spec fn doubled(base: nat, k: nat) -> nat
    decreases k,
{
    if k == 0 {
        base
    } else {
        2 * doubled(base, (k - 1) as nat)
    }
}

proof fn lemma_doubled_bound(base: nat, k: nat)
    requires
        k <= 6,
    ensures
        doubled(base, k) <= 64 * base,
    decreases 6 - k,
{
    if k < 6 {
        lemma_doubled_bound(base, k + 1);
        assert(doubled(base, k + 1) == 2 * doubled(base, k));
    } else {
        reveal_with_fuel(doubled, 7);
    }
}

/// What the delivery task does after an attempt.
#[derive(Debug, PartialEq, Eq, Structural, Clone, Copy)]
pub enum RetryAction {
    /// The mail went out.
    Done,
    /// The attempt failed: wait `delay_ms`, then try again when `retry`,
    /// else give up.
    Wait { delay_ms: u64, retry: bool },
}

/// What the policy answers after an attempt when `attempts` attempts were
/// made before it: done on success; else wait the base wait doubled once per
/// earlier attempt, and try again while fewer than `MAX_RETRIES` attempts
/// have been made.
pub open spec fn retry_action(base: nat, attempts: nat, succeeded: bool) -> RetryAction {
    if succeeded {
        RetryAction::Done
    } else {
        RetryAction::Wait { delay_ms: doubled(base, attempts) as u64, retry: attempts + 1 < MAX_RETRIES }
    }
}

/// A delivery driven by the policy from `attempts` attempts on, where
/// `outcome(j)` is whether attempt `j` (counted from 0) succeeds: an attempt
/// is made; on `Done` delivery ends; on `Wait` the delay is waited, and
/// delivery goes on only when `retry`. The result is the number of attempts
/// made and the total wait.
pub open spec fn delivery(base: nat, attempts: nat, outcome: spec_fn(nat) -> bool) -> (nat, nat)
    decreases MAX_RETRIES - attempts,
{
    match retry_action(base, attempts, outcome(attempts)) {
        RetryAction::Done => (1, 0),
        RetryAction::Wait { delay_ms, retry } => {
            if retry && attempts < MAX_RETRIES {
                let rest = delivery(base, attempts + 1, outcome);
                (rest.0 + 1, rest.1 + delay_ms as nat)
            } else {
                (1, delay_ms as nat)
            }
        },
    }
}

proof fn lemma_delivery_from(base: nat, outcome: spec_fn(nat) -> bool, k: nat, a: nat)
    requires
        a < MAX_RETRIES,
        a <= k,
        base <= u64::MAX / 64,
        forall|j: nat| j < k ==> !#[trigger] outcome(j),
        k < MAX_RETRIES ==> outcome(k),
    ensures
        delivery(base, a, outcome).0 + a == if k < MAX_RETRIES {
            k + 1
        } else {
            MAX_RETRIES as nat
        },
        delivery(base, a, outcome).1 + doubled(base, a) == doubled(
            base,
            if k < MAX_RETRIES {
                k
            } else {
                MAX_RETRIES as nat
            },
        ),
    decreases MAX_RETRIES - a,
{
    lemma_doubled_bound(base, a);
    if a < k {
        assert(!outcome(a));
        assert(doubled(base, a + 1) == 2 * doubled(base, a));
        if a + 1 < MAX_RETRIES {
            lemma_delivery_from(base, outcome, k, a + 1);
        }
    }
}

/// A whole delivery: when the first `k` attempts fail and the next one
/// succeeds (or every attempt fails, when `k >= MAX_RETRIES`), the mail is
/// tried `min(k + 1, MAX_RETRIES)` times, never again after a success, and
/// the waits add up to the base wait doubled `min(k, MAX_RETRIES)` times,
/// less the base: `31 * base` when every attempt fails.
pub proof fn law_delivery_attempts_and_wait(base: u64, outcome: spec_fn(nat) -> bool, k: nat)
    requires
        base <= u64::MAX / 64,
        forall|j: nat| j < k ==> !#[trigger] outcome(j),
        k < MAX_RETRIES ==> outcome(k),
    ensures
        delivery(base as nat, 0, outcome).0 == if k < MAX_RETRIES {
            k + 1
        } else {
            MAX_RETRIES as nat
        },
        delivery(base as nat, 0, outcome).1 + base == doubled(
            base as nat,
            if k < MAX_RETRIES {
                k
            } else {
                MAX_RETRIES as nat
            },
        ),
        k >= MAX_RETRIES ==> delivery(base as nat, 0, outcome).1 == 31 * base,
{
    lemma_delivery_from(base as nat, outcome, k, 0);
    reveal_with_fuel(doubled, 6);
}

/// Retry state of the delivery of one mail: the number of attempts made and
/// the wait that follows the next failure, which doubles each time.
pub struct RetryPolicy {
    base_ms: u64,
    attempts: u32,
    delay_ms: u64,
}

impl RetryPolicy {
    pub closed spec fn attempts_made(&self) -> nat {
        self.attempts as nat
    }

    pub closed spec fn base(&self) -> nat {
        self.base_ms as nat
    }

    /// The wait that follows the next failure.
    pub closed spec fn next_delay(&self) -> nat {
        self.delay_ms as nat
    }

    pub closed spec fn inv(&self) -> bool {
        &&& self.attempts <= MAX_RETRIES
        &&& self.base_ms <= u64::MAX / 64
        &&& self.delay_ms == doubled(self.base_ms as nat, self.attempts as nat)
    }

    /// Whether another attempt may be made.
    pub open spec fn may_attempt(&self) -> bool {
        self.attempts_made() < MAX_RETRIES
    }

    pub fn new(base_ms: u64) -> (p: Self)
        requires
            base_ms <= u64::MAX / 64,
        ensures
            p.inv(),
            p.attempts_made() == 0,
            p.base() == base_ms,
            p.next_delay() == base_ms,
    {
        RetryPolicy { base_ms, attempts: 0, delay_ms: base_ms }
    }

    /// Records the outcome of an attempt and says what to do next.
    pub fn after_attempt(&mut self, succeeded: bool) -> (a: RetryAction)
        requires
            old(self).inv(),
            old(self).may_attempt(),
        ensures
            final(self).inv(),
            final(self).base() == old(self).base(),
            a == retry_action(old(self).base(), old(self).attempts_made(), succeeded),
            succeeded ==> a == RetryAction::Done && final(self).attempts_made() == old(self).attempts_made() + 1,
            !succeeded ==> {
                &&& final(self).attempts_made() == old(self).attempts_made() + 1
                &&& a == RetryAction::Wait {
                    delay_ms: old(self).next_delay() as u64,
                    retry: final(self).attempts_made() < MAX_RETRIES,
                }
                &&& old(self).next_delay() == doubled(old(self).base(), old(self).attempts_made())
            },
    {
        proof {
            lemma_doubled_bound(self.base_ms as nat, (self.attempts + 1) as nat);
        }
        let delay = self.delay_ms;
        self.attempts = self.attempts + 1;
        self.delay_ms = delay * 2;
        if succeeded {
            RetryAction::Done
        } else {
            RetryAction::Wait { delay_ms: delay, retry: self.attempts < MAX_RETRIES }
        }
    }
}

/// Delivery never makes more than `MAX_RETRIES` attempts: after that many
/// failures the policy gives up, and the wait after the `k`-th failure is
/// the base wait doubled `k - 1` times.
pub proof fn law_retries_bounded(p: RetryPolicy)
    requires
        p.inv(),
    ensures
        p.attempts_made() <= MAX_RETRIES,
        p.next_delay() == doubled(p.base(), p.attempts_made()),
{
}

/// SMTPS means implicit TLS whatever the STARTTLS setting; without it, the
/// connection is plain only when STARTTLS is off, and STARTTLS is demanded
/// only when it is set to always.
pub proof fn law_smtps_wins(starttls: StartTls)
    ensures
        tls_mode_of(true, starttls) == TlsMode::Wrapper,
        tls_mode_of(false, starttls) != TlsMode::Wrapper,
        tls_mode_of(false, starttls) == TlsMode::Plain <==> starttls == StartTls::Never,
        tls_mode_of(false, starttls) == TlsMode::Required <==> starttls == StartTls::Always,
        tls_mode_of(false, starttls) == TlsMode::Opportunistic <==> starttls == StartTls::Auto,
{
}

/// A mail is refused as rate-limited exactly when its recipient was mailed
/// less than a minute (`RATE_LIMIT_MS`) before, and the refusal changes
/// nothing. Any other attempt counts against the limit, even when an address
/// turns out not to parse; the mail is composed, with the given sender,
/// recipient, subject and body, exactly when both addresses parse.
pub proof fn law_mail_outcomes(
    from: Seq<char>,
    before: Map<Seq<char>, u64>,
    after: Map<Seq<char>, u64>,
    to: Seq<char>,
    subject: Seq<char>,
    body: Seq<char>,
    now: u64,
    r: Result<OutgoingMail, EmailError>,
)
    requires
        mail_outcome(from, before, after, to, subject, body, now, r),
    ensures
        (r matches Err(EmailError::RateLimited)) <==> (before.contains_key(to) && (now as int) - (before[to] as int)
            < 60_000),
        (r matches Err(EmailError::RateLimited)) ==> after == before,
        !(r matches Err(EmailError::RateLimited)) ==> after.contains_key(to) && after[to] == now,
        !(r matches Err(EmailError::RateLimited)) ==> forall|k: Seq<char>| k != to ==> (after.contains_key(k)
            == before.contains_key(k) && after[k] == before[k]),
        r is Ok <==> (!(before.contains_key(to) && (now as int) - (before[to] as int) < 60_000)
            && lettre_mailbox_parses(from) && lettre_mailbox_parses(to)),
        r matches Ok(m) ==> m.from@ == from && m.to@ == to && m.subject@ == subject && m.body@ == body,
{
}

} // verus!
