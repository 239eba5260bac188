//! Sign-in rules: the salted e-mail hash, one-time passwords sent by mail
//! (issue, cool-down, expiry, check), password login, TOTP secrets and the
//! session cookies handed to clients.
//!
//! Storage and the HTTP exchange run outside the library; every decision
//! that they act on is made here. Times are milliseconds since the Unix
//! epoch (UTC).

use vstd::prelude::*;
use vstd::string::StringExecFns;
use vstd::utf8::encode_utf8;
use rand::Rng;
use argon2::PasswordVerifier;

use crate::digest::{hex_encode, hex_lower, lemma_hex_lower_len, sha256, sha256_digest};
use crate::jobs::decimal_value;
use vstd::arithmetic::power::{pow, lemma_pow_positive};
use vstd::arithmetic::div_mod::{lemma_mod_breakdown, lemma_small_mod};
use crate::text::{digit_char, ascii_lower, eq_ignore_ascii_case, all_digits, digit, format_padded, is_truthy, padded_decimal, push_char, str_eq, truthy};

verus! {

// -- Status codes ---------------------------------------------------------

pub const STATUS_OK: u16 = 200;
pub const STATUS_UNAUTHORIZED: u16 = 401;
pub const STATUS_TOO_MANY_REQUESTS: u16 = 429;
pub const STATUS_INTERNAL_SERVER_ERROR: u16 = 500;

// -- Random numbers -------------------------------------------------------

/// A uniformly random number below `bound` (`Rng::gen_range(0..bound)` on
/// the thread-local generator). Only the range is claimed.
#[verifier::external_body]
pub(crate) fn random_below(bound: u32) -> (r: u32)
    requires
        bound > 0,
    ensures
        r < bound,
{
    rand::thread_rng().gen_range(0..bound)
}

/// 32 random bytes (`rand::random::<[u8; 32]>()`). Only the length is
/// claimed.
#[verifier::external_body]
pub(crate) fn random_secret_bytes() -> (r: Vec<u8>)
    ensures
        r@.len() == 32,
{
    rand::random::<[u8; 32]>().to_vec()
}

// -- E-mail hash ----------------------------------------------------------

/// The key under which one-time passwords of an address are stored: the
/// hexadecimal SHA-256 of the salt `arena_salt` followed by the address.
pub open spec fn email_hash_of(email: Seq<char>) -> Seq<char> {
    hex_lower(sha256_digest(encode_utf8("arena_salt"@) + encode_utf8(email)))
}

pub fn hash_email(email: &str) -> (r: String)
    ensures
        r@ == email_hash_of(email@),
        r@.len() == 64,
{
    let salt = "arena_salt".as_bytes();
    let addr = email.as_bytes();
    let mut data: Vec<u8> = Vec::new();
    let mut i: usize = 0;
    while i < salt.len()
        invariant
            i <= salt@.len(),
            data@ == salt@.take(i as int),
        decreases salt@.len() - i,
    {
        data.push(salt[i]);
        assert(salt@.take(i + 1) =~= salt@.take(i as int).push(salt@[i as int]));
        i = i + 1;
    }
    assert(salt@.take(salt@.len() as int) =~= salt@);
    let mut j: usize = 0;
    while j < addr.len()
        invariant
            j <= addr@.len(),
            data@ == salt@ + addr@.take(j as int),
        decreases addr@.len() - j,
    {
        data.push(addr[j]);
        assert(addr@.take(j + 1) =~= addr@.take(j as int).push(addr@[j as int]));
        assert(salt@ + addr@.take(j + 1) =~= (salt@ + addr@.take(j as int)).push(addr@[j as int]));
        j = j + 1;
    }
    assert(addr@.take(addr@.len() as int) =~= addr@);
    let digest = sha256(data.as_slice());
    proof {
        lemma_hex_lower_len(digest@);
    }
    hex_encode(digest.as_slice())
}

// -- One-time passwords by mail ---------------------------------------------

/// Minimum time between two codes for one address.
pub const REQUEST_COOLDOWN_MS: i64 = 60_000;

/// Lifetime of a code.
pub const OTP_TTL_MS: i64 = 300_000;

/// A code that expires at `expires_at` was issued `OTP_TTL_MS` before; a new
/// request is refused while that code is still valid and was issued less
/// than `REQUEST_COOLDOWN_MS` ago.
pub open spec fn otp_request_refused(expires_at: i64, now: i64) -> bool {
    &&& now < expires_at
    &&& now < expires_at - OTP_TTL_MS + REQUEST_COOLDOWN_MS
}

/// What to do with a request for a new code.
#[derive(Debug, PartialEq, Eq, Structural, Clone, Copy)]
pub enum OtpRequestDecision {
    /// Answer "too many requests"; nothing changes.
    TooManyRequests,
    /// Issue a new code, after deleting the stored one when there is one.
    Issue { replace_existing: bool },
}

/// Decides a request for a code, given the expiry of the code stored for the
/// address, if any.
pub fn decide_otp_request(existing_expiry: Option<i64>, now: i64) -> (d: OtpRequestDecision)
    ensures
        d == match existing_expiry {
            Some(e) => if otp_request_refused(e, now) {
                OtpRequestDecision::TooManyRequests
            } else {
                OtpRequestDecision::Issue { replace_existing: true }
            },
            None => OtpRequestDecision::Issue { replace_existing: false },
        },
{
    match existing_expiry {
        Some(e) => {
            let created = (e as i128) - (OTP_TTL_MS as i128);
            if now < e && (now as i128) < created + (REQUEST_COOLDOWN_MS as i128) {
                OtpRequestDecision::TooManyRequests
            } else {
                OtpRequestDecision::Issue { replace_existing: true }
            }
        },
        None => OtpRequestDecision::Issue { replace_existing: false },
    }
}

/// After a code is issued at `issued`, every request before the cool-down has
/// passed is refused, and every request from then on is allowed.
pub proof fn law_otp_cooldown(issued: i64, now: i64)
    requires
        issued <= now,
        issued <= i64::MAX - OTP_TTL_MS,
    ensures
        otp_request_refused((issued + OTP_TTL_MS) as i64, now) <==> now - issued < REQUEST_COOLDOWN_MS,
{
}

/// A request is refused exactly while less than `REQUEST_COOLDOWN_MS` has
/// passed since the stored code was issued, that is before its expiry less
/// `OTP_TTL_MS - REQUEST_COOLDOWN_MS`.
pub proof fn law_refused_only_in_cooldown(expires_at: i64, now: i64)
    ensures
        otp_request_refused(expires_at, now) <==> now < expires_at - (OTP_TTL_MS - REQUEST_COOLDOWN_MS),
{
}

/// The six-digit text of a code below one million, zero-padded.
pub fn otp_code_text(code: u32) -> (r: String)
    requires
        code < 1_000_000,
    ensures
        r@ == padded_decimal(code as nat, 6),
{
    format_padded(code, 6)
}

/// A fresh code for an address: six random decimal digits, valid for
/// `OTP_TTL_MS` from `now`.
pub fn issue_otp(now: i64) -> (r: (String, i64))
    requires
        now <= i64::MAX - OTP_TTL_MS,
    ensures
        exists|c: nat| c < 1_000_000 && r.0@ == #[trigger] padded_decimal(c, 6),
        r.1 == now + OTP_TTL_MS,
{
    let code = random_below(1_000_000);
    let text = otp_code_text(code);
    assert(text@ == padded_decimal(code as nat, 6));
    (text, now + OTP_TTL_MS)
}

/// The answer to a request for a code.
#[derive(Debug)]
pub enum OtpRequestOutcome {
    /// Refused: the stored code was issued less than `REQUEST_COOLDOWN_MS`
    /// ago and is still valid; nothing changes and no mail goes out.
    TooManyRequests,
    /// A new code, stored in place of the old one (deleted first when
    /// `replace_existing`) and mailed to the address.
    Issue { replace_existing: bool, code: String, expires_at: i64 },
}

impl OtpRequestOutcome {
    /// The HTTP status of the answer.
    pub fn status(&self) -> (r: u16)
        ensures
            r == match self {
                OtpRequestOutcome::TooManyRequests => STATUS_TOO_MANY_REQUESTS,
                OtpRequestOutcome::Issue { .. } => STATUS_OK,
            },
    {
        match self {
            OtpRequestOutcome::TooManyRequests => STATUS_TOO_MANY_REQUESTS,
            OtpRequestOutcome::Issue { .. } => STATUS_OK,
        }
    }
}

/// Handles a request for a code at `now`, given the expiry of the code
/// stored for the address, if any: refused while the stored code is valid
/// and was issued less than `REQUEST_COOLDOWN_MS` ago; otherwise a fresh
/// six-digit code, valid for `OTP_TTL_MS`, replaces the stored one.
pub fn request_code(existing_expiry: Option<i64>, now: i64) -> (r: OtpRequestOutcome)
    requires
        now <= i64::MAX - OTP_TTL_MS,
    ensures
        r is TooManyRequests <==> (existing_expiry matches Some(e) && otp_request_refused(e, now)),
        r matches OtpRequestOutcome::Issue { replace_existing, code, expires_at } ==> {
            &&& replace_existing == existing_expiry is Some
            &&& expires_at == now + OTP_TTL_MS
            &&& exists|c: nat| c < 1_000_000 && code@ == #[trigger] padded_decimal(c, 6)
        },
{
    match decide_otp_request(existing_expiry, now) {
        OtpRequestDecision::TooManyRequests => OtpRequestOutcome::TooManyRequests,
        OtpRequestDecision::Issue { replace_existing } => {
            let (code, expires_at) = issue_otp(now);
            OtpRequestOutcome::Issue { replace_existing, code, expires_at }
        },
    }
}

/// Whether a submitted code signs the user in: it equals the stored code and
/// the stored code has not expired.
pub open spec fn otp_accepts(stored: Option<(Seq<char>, i64)>, code: Seq<char>, now: i64) -> bool {
    match stored {
        Some((c, e)) => c == code && now <= e,
        None => false,
    }
}

pub fn check_otp(stored: &Option<(String, i64)>, code: &str, now: i64) -> (r: bool)
    ensures
        r == otp_accepts(
            match stored {
                Some((c, e)) => Some((c@, *e)),
                None => None,
            },
            code@,
            now,
        ),
{
    match stored {
        Some((c, e)) => str_eq(c.as_str(), code) && now <= *e,
        None => false,
    }
}

/// A code is accepted up to and including its expiry time and refused after.
pub proof fn law_otp_expiry(c: Seq<char>, e: i64, now: i64)
    ensures
        otp_accepts(Some((c, e)), c, now) <==> now <= e,
{
}

/// The `Set-Cookie` value for a session opened by a verified code.
pub fn otp_session_cookie(token: &str) -> (r: String)
    ensures
        r@ == "session="@ + token@ + "; Path=/; Secure; HttpOnly; SameSite=Lax"@,
{
    String::from_str("session=").concat(token).concat("; Path=/; Secure; HttpOnly; SameSite=Lax")
}

// -- Guest sessions -------------------------------------------------------

/// The `Set-Cookie` value for a guest session, from the `Secure` setting
/// (on unless set to something other than `1`, `true`, `yes` or `on`) and
/// the `SameSite` setting (default `Strict`).
pub open spec fn guest_cookie_text(id: Seq<char>, secure: Option<Seq<char>>, same_site: Option<Seq<char>>) -> Seq<char> {
    let is_secure = match secure {
        Some(v) => is_truthy(v),
        None => true,
    };
    let site = match same_site {
        Some(s) => s,
        None => "Strict"@,
    };
    "session="@ + id + "; Path=/; HttpOnly;"@ + (if is_secure {
        " Secure;"@
    } else {
        ""@
    }) + " SameSite="@ + site
}

pub fn guest_session_cookie(id: &str, secure: Option<&str>, same_site: Option<&str>) -> (r: String)
    ensures
        r@ == guest_cookie_text(
            id@,
            match secure {
                Some(v) => Some(v@),
                None => None,
            },
            match same_site {
                Some(s) => Some(s@),
                None => None,
            },
        ),
{
    let is_secure = match secure {
        Some(v) => truthy(v),
        None => true,
    };
    let mut cookie = String::from_str("session=").concat(id).concat("; Path=/; HttpOnly;");
    if is_secure {
        cookie = cookie.concat(" Secure;");
    } else {
        cookie = cookie.concat("");
    }
    cookie = cookie.concat(" SameSite=");
    match same_site {
        Some(s) => cookie.concat(s),
        None => cookie.concat("Strict"),
    }
}

/// The guest cookie is `Secure` by default, and a given setting keeps it so
/// exactly when the setting is `1`, `true`, `yes` or `on` (any ASCII case):
/// any other setting (such as `false`, `no` or `off`) gives the default
/// cookie with just its ` Secure;` attribute, which follows `HttpOnly;`,
/// taken out.
pub proof fn law_cookie_secure_setting(id: Seq<char>, v: Seq<char>, same_site: Option<Seq<char>>)
    ensures
        is_truthy(v) <==> guest_cookie_text(id, Some(v), same_site) == guest_cookie_text(id, None, same_site),
        ({
            let p: int = id.len() as int + 27;
            let on = guest_cookie_text(id, None, same_site);
            let off = guest_cookie_text(id, Some(v), same_site);
            &&& on.subrange(p - 9, p) == "HttpOnly;"@
            &&& on.subrange(p, p + 8) == " Secure;"@
            &&& !is_truthy(v) ==> off.len() + 8 == on.len() && off.subrange(0, p) == on.subrange(0, p)
                && off.subrange(p, off.len() as int) == on.subrange(p + 8, on.len() as int)
        }),
        !is_truthy("false"@),
        !is_truthy("no"@),
        !is_truthy("off"@),
{
    reveal_strlit("session=");
    reveal_strlit("; Path=/; HttpOnly;");
    reveal_strlit(" Secure;");
    reveal_strlit("");
    reveal_strlit(" SameSite=");
    reveal_strlit("HttpOnly;");
    reveal_strlit("false");
    reveal_strlit("no");
    reveal_strlit("off");
    reveal_strlit("1");
    reveal_strlit("true");
    reveal_strlit("yes");
    reveal_strlit("on");
    let site = match same_site {
        Some(s) => s,
        None => "Strict"@,
    };
    let a = "session="@ + id + "; Path=/; HttpOnly;"@;
    let b = " SameSite="@ + site;
    let on = guest_cookie_text(id, None, same_site);
    let off = guest_cookie_text(id, Some(v), same_site);
    assert(on == a + " Secure;"@ + b);
    let p: int = a.len() as int;
    assert(p == id.len() + 27);
    assert(on.subrange(p - 9, p) =~= "HttpOnly;"@);
    assert(on.subrange(p, p + 8) =~= " Secure;"@);
    if !is_truthy(v) {
        assert(off == a + ""@ + b);
        assert(off.subrange(0, p) =~= on.subrange(0, p));
        assert(off.subrange(p, off.len() as int) =~= on.subrange(p + 8, on.len() as int));
    }
    assert(ascii_lower('o') != ascii_lower('y'));
    assert("off"@[0] == 'o' && "yes"@[0] == 'y');
    assert(ascii_lower("off"@[0]) != ascii_lower("yes"@[0]));
    assert(!eq_ignore_ascii_case("off"@, "yes"@));
    assert(ascii_lower('n') != ascii_lower('o'));
    assert("no"@[0] == 'n' && "on"@[0] == 'o');
    assert(ascii_lower("no"@[0]) != ascii_lower("on"@[0]));
    assert(!eq_ignore_ascii_case("no"@, "on"@));
}

/// With neither setting given, a guest cookie is `Secure` and
/// `SameSite=Strict`; a given `SameSite` value is written as given, last.
pub proof fn law_cookie_defaults(id: Seq<char>, v: Option<Seq<char>>, site: Seq<char>)
    ensures
        guest_cookie_text(id, None, None) == "session="@ + id + "; Path=/; HttpOnly; Secure; SameSite=Strict"@,
        guest_cookie_text(id, v, Some(site)).len() >= site.len() + 10,
        guest_cookie_text(id, v, Some(site)).skip(guest_cookie_text(id, v, Some(site)).len() - site.len() - 10)
            == " SameSite="@ + site,
{
    reveal_strlit("session=");
    reveal_strlit("; Path=/; HttpOnly;");
    reveal_strlit(" Secure;");
    reveal_strlit("");
    reveal_strlit(" SameSite=");
    reveal_strlit("Strict");
    reveal_strlit("; Path=/; HttpOnly; Secure; SameSite=Strict");
    assert(guest_cookie_text(id, None, None) =~= "session="@ + id + "; Path=/; HttpOnly; Secure; SameSite=Strict"@);
    let t = guest_cookie_text(id, v, Some(site));
    let is_secure = match v {
        Some(x) => is_truthy(x),
        None => true,
    };
    let head = "session="@ + id + "; Path=/; HttpOnly;"@ + (if is_secure {
        " Secure;"@
    } else {
        ""@
    });
    assert(t == head + (" SameSite="@ + site));
    assert(t.skip(head.len() as int) =~= " SameSite="@ + site);
}

// -- Password login -------------------------------------------------------

/// Credentials of a login request.
pub struct LoginRequest {
    pub email: String,
    pub password: String,
}

/// Name of whether `argon2`'s `PasswordHash::new` accepts a stored hash.
pub uninterp spec fn phc_hash_parses(hash: Seq<char>) -> bool;

/// Name of whether `Argon2::default().verify_password` accepts a password
/// against a stored hash that parses.
pub uninterp spec fn argon2_accepts(password: Seq<u8>, hash: Seq<char>) -> bool;

/// Whether `PasswordHash::new` parses `hash` (PHC string format).
#[verifier::external_body]
fn parse_password_hash(hash: &str) -> (r: bool)
    ensures
        r == phc_hash_parses(hash@),
{
    argon2::password_hash::PasswordHash::new(hash).is_ok()
}

/// Verifies `password` against a stored hash with the default Argon2
/// instance (the parameters come from the hash).
#[verifier::external_body]
fn verify_password(password: &[u8], hash: &str) -> (r: bool)
    requires
        phc_hash_parses(hash@),
    ensures
        r == argon2_accepts(password@, hash@),
{
    match argon2::password_hash::PasswordHash::new(hash) {
        Ok(parsed) => argon2::Argon2::default().verify_password(password, &parsed).is_ok(),
        Err(_) => false,
    }
}

/// The answer to a login: `Ok(200)` when the password matches the stored
/// hash, `Err(500)` when the stored hash does not parse, else `Err(401)`
/// (also when no hash is stored for the address).
pub open spec fn login_result(stored: Option<Seq<char>>, password: Seq<char>) -> Result<u16, u16> {
    match stored {
        None => Err(STATUS_UNAUTHORIZED),
        Some(h) => if !phc_hash_parses(h) {
            Err(STATUS_INTERNAL_SERVER_ERROR)
        } else if argon2_accepts(encode_utf8(password), h) {
            Ok(STATUS_OK)
        } else {
            Err(STATUS_UNAUTHORIZED)
        },
    }
}

pub fn login_status(stored_hash: Option<&str>, password: &str) -> (r: Result<u16, u16>)
    ensures
        r == login_result(
            match stored_hash {
                Some(h) => Some(h@),
                None => None,
            },
            password@,
        ),
{
    match stored_hash {
        None => Err(STATUS_UNAUTHORIZED),
        Some(h) => {
            if !parse_password_hash(h) {
                Err(STATUS_INTERNAL_SERVER_ERROR)
            } else if verify_password(password.as_bytes(), h) {
                Ok(STATUS_OK)
            } else {
                Err(STATUS_UNAUTHORIZED)
            }
        },
    }
}

// -- Second factor ----------------------------------------------------------

/// Request for a code sent by mail.
pub struct EmailOtpRequest {
    pub email: String,
}

/// Request to check a code sent by mail.
pub struct VerifyEmailOtpRequest {
    pub email: String,
    pub otp: String,
}

/// Request to enable TOTP for a user (the user id as a 128-bit UUID value).
pub struct EnableTotpRequest {
    pub user_id: u128,
}

/// Lifetime of a second-factor code sent by mail.
pub const EMAIL_OTP_TTL_MS: i64 = 600_000;

/// A fresh second-factor code: six random decimal digits, valid for
/// `EMAIL_OTP_TTL_MS` from `now`.
pub fn new_email_otp(now: i64) -> (r: (String, i64))
    requires
        now <= i64::MAX - EMAIL_OTP_TTL_MS,
    ensures
        r.0@.len() == 6,
        all_digits(r.0@),
        r.1 == now + EMAIL_OTP_TTL_MS,
{
    let mut otp = String::new();
    let mut k: usize = 0;
    while k < 6
        invariant
            k <= 6,
            otp@.len() == k,
            all_digits(otp@),
        decreases 6 - k,
    {
        let d = random_below(10);
        let c = digit(d);
        push_char(&mut otp, c);
        k = k + 1;
    }
    (otp, now + EMAIL_OTP_TTL_MS)
}

/// The answer to a second-factor check, given the expiry of the matching
/// stored code, if any: 200 while the code has not expired, else 401.
pub fn email_otp_status(matching_expiry: Option<i64>, now: i64) -> (r: u16)
    ensures
        r == (if matching_expiry matches Some(e) && e > now {
            STATUS_OK
        } else {
            STATUS_UNAUTHORIZED
        }),
{
    match matching_expiry {
        Some(e) => if e > now {
            STATUS_OK
        } else {
            STATUS_UNAUTHORIZED
        },
        None => STATUS_UNAUTHORIZED,
    }
}

/// Bit `k` of `data`, most significant bit of each byte first; 0 past the
/// end.
pub open spec fn bit_at(data: Seq<u8>, k: int) -> int {
    if 0 <= k < 8 * data.len() {
        (data[k / 8] as int / vstd::arithmetic::power2::pow2((7 - k % 8) as nat) as int) % 2
    } else {
        0
    }
}

/// The value of the `j`-th group of five bits.
pub open spec fn quintet(data: Seq<u8>, j: int) -> int {
    16 * bit_at(data, 5 * j) + 8 * bit_at(data, 5 * j + 1) + 4 * bit_at(data, 5 * j + 2) + 2 * bit_at(
        data,
        5 * j + 3,
    ) + bit_at(data, 5 * j + 4)
}

/// The RFC 4648 base32 symbol of a five-bit value.
pub open spec fn base32_symbol(v: int) -> char {
    if v < 26 {
        ('A' as int + v) as char
    } else {
        ('2' as int + v - 26) as char
    }
}

/// Unpadded base32 text (RFC 4648 alphabet): one symbol per group of five
/// bits, the last group filled up with zero bits, no `=` padding.
pub open spec fn base32_nopad_text(data: Seq<u8>) -> Seq<char> {
    Seq::new(((8 * data.len() + 4) / 5) as nat, |j: int| base32_symbol(quintet(data, j)))
}

/// `BASE32_NOPAD.encode` of `data_encoding`.
#[verifier::external_body]
fn base32_nopad(data: &[u8]) -> (r: String)
    ensures
        r@ == base32_nopad_text(data@),
{
    data_encoding::BASE32_NOPAD.encode(data)
}

/// The text form of a TOTP secret: its bytes in unpadded base32.
pub fn totp_secret_text(secret: &[u8]) -> (r: String)
    ensures
        r@ == base32_nopad_text(secret@),
{
    base32_nopad(secret)
}

/// A fresh TOTP secret: 32 random bytes in unpadded base32 (52 symbols).
pub fn new_totp_secret() -> (r: String)
    ensures
        exists|bytes: Seq<u8>| bytes.len() == 32 && r@ == #[trigger] base32_nopad_text(bytes),
        r@.len() == 52,
{
    let bytes = random_secret_bytes();
    let r = totp_secret_text(bytes.as_slice());
    assert(r@ == base32_nopad_text(bytes@));
    r
}

/// Only the stored code, before it expires, signs the user in; with no stored
/// code nothing does.
pub proof fn law_only_stored_code_accepted(stored: Option<(Seq<char>, i64)>, code: Seq<char>, now: i64)
    ensures
        otp_accepts(stored, code, now) ==> (stored matches Some((c, e)) && c == code && now <= e),
        otp_accepts(None, code, now) == false,
{
}

proof fn lemma_padded_value(n: nat, width: nat)
    ensures
        padded_decimal(n, width).len() == width,
        all_digits(padded_decimal(n, width)),
        decimal_value(padded_decimal(n, width)) == (n as int) % pow(10, width),
    decreases width,
{
    reveal(pow);
    if width > 0 {
        lemma_padded_value(n / 10, (width - 1) as nat);
        let head = padded_decimal(n / 10, (width - 1) as nat);
        let s = padded_decimal(n, width);
        assert(s.drop_last() =~= head);
        assert(s.last() == digit_char((n % 10) as int));
        assert(digit_char((n % 10) as int) as int == '0' as int + n % 10);
        lemma_pow_positive(10, (width - 1) as nat);
        lemma_mod_breakdown(n as int, 10, pow(10, (width - 1) as nat));
        assert(pow(10, width) == 10 * pow(10, (width - 1) as nat));
    }
}

/// A zero-padded decimal text has exactly its width, is made of decimal
/// digits and reads back as the number modulo `10^width`; so a code below one
/// million reads back from its six digits (`format!("{:06}", n)`).
pub proof fn law_padded_code_reads_back(n: nat, width: nat)
    ensures
        padded_decimal(n, width).len() == width,
        all_digits(padded_decimal(n, width)),
        decimal_value(padded_decimal(n, width)) == (n as int) % pow(10, width),
        n < 1_000_000 ==> decimal_value(padded_decimal(n, 6)) == n,
{
    lemma_padded_value(n, width);
    if n < 1_000_000 {
        lemma_padded_value(n, 6);
        reveal_with_fuel(pow, 7);
        lemma_small_mod(n, 1_000_000);
    }
}

/// A login succeeds exactly when a hash is stored for the address, it parses,
/// and Argon2 accepts the password against it; a stored hash that does not
/// parse is a server error, anything else is refused.
pub proof fn law_login_outcomes(stored: Option<Seq<char>>, password: Seq<char>)
    ensures
        login_result(stored, password) == Ok::<u16, u16>(200) <==> (stored matches Some(h) && phc_hash_parses(h)
            && argon2_accepts(encode_utf8(password), h)),
        login_result(stored, password) == Err::<u16, u16>(500) <==> (stored matches Some(h) && !phc_hash_parses(h)),
        login_result(None, password) == Err::<u16, u16>(401),
        login_result(stored, password) is Ok || login_result(stored, password) == Err::<u16, u16>(401)
            || login_result(stored, password) == Err::<u16, u16>(500),
{
}

} // verus!
