//! Identifiers: random UUIDs and their text form.

use vstd::prelude::*;
use vstd::arithmetic::power2::{pow2, lemma2_to64, lemma_pow2_adds, lemma_pow2_pos};
use vstd::arithmetic::div_mod::{lemma_basic_div, lemma_div_denominator, lemma_fundamental_div_mod};

verus! {

/// Lower-case hexadecimal digit of `n` (`0 <= n < 16`).
pub open spec fn hex_digit(n: int) -> char {
    if n < 10 {
        ('0' as int + n) as char
    } else {
        ('a' as int + n - 10) as char
    }
}

/// The `k`-th of the 32 hexadecimal digits of a 128-bit value, most
/// significant first.
pub open spec fn uuid_nibble(id: u128, k: int) -> int {
    ((id as int) / vstd::arithmetic::power2::pow2((4 * (31 - k)) as nat) as int) % 16
}

/// The hyphenated text form of a UUID: its 32 lower-case hexadecimal digits
/// in groups of 8, 4, 4, 4 and 12, separated by `-`.
pub open spec fn uuid_hyphenated(id: u128) -> Seq<char> {
    Seq::new(
        36,
        |p: int|
            if p == 8 || p == 13 || p == 18 || p == 23 {
                '-'
            } else {
                let k = if p < 8 {
                    p
                } else if p < 13 {
                    p - 1
                } else if p < 18 {
                    p - 2
                } else if p < 23 {
                    p - 3
                } else {
                    p - 4
                };
                hex_digit(uuid_nibble(id, k))
            },
    )
}

proof fn lemma_hex_digit_injective(a: int, b: int)
    requires
        0 <= a < 16,
        0 <= b < 16,
        hex_digit(a) == hex_digit(b),
    ensures
        a == b,
{
    assert(hex_digit(a) as int == if a < 10 { 48 + a } else { 87 + a });
    assert(hex_digit(b) as int == if b < 10 { 48 + b } else { 87 + b });
}

proof fn lemma_nibbles_determine(a: u128, b: u128, m: nat)
    requires
        m <= 32,
        forall|k: int| 0 <= k < 32 ==> #[trigger] uuid_nibble(a, k) == uuid_nibble(b, k),
    ensures
        a as int / (pow2(4 * m) as int) == b as int / (pow2(4 * m) as int),
    decreases 32 - m,
{
    lemma2_to64();
    if m == 32 {
        lemma_pow2_adds(64, 64);
        lemma_basic_div(a as int, pow2(128) as int);
        lemma_basic_div(b as int, pow2(128) as int);
    } else {
        lemma_nibbles_determine(a, b, m + 1);
        lemma_pow2_adds(4 * m, 4);
        lemma_pow2_pos(4 * m);
        assert(4 * (m + 1) == 4 * m + 4);
        lemma_div_denominator(a as int, pow2(4 * m) as int, 16);
        lemma_div_denominator(b as int, pow2(4 * m) as int, 16);
        lemma_fundamental_div_mod(a as int / pow2(4 * m) as int, 16);
        lemma_fundamental_div_mod(b as int / pow2(4 * m) as int, 16);
        let k = 31 - m;
        assert(4 * (31 - k) == 4 * m);
        assert(uuid_nibble(a, k) == uuid_nibble(b, k));
    }
}

/// Different ids have different hyphenated texts.
pub proof fn lemma_uuid_hyphenated_injective(a: u128, b: u128)
    requires
        uuid_hyphenated(a) == uuid_hyphenated(b),
    ensures
        a == b,
{
    assert forall|k: int| 0 <= k < 32 implies #[trigger] uuid_nibble(a, k) == uuid_nibble(b, k) by {
        let p = if k < 8 {
            k
        } else if k < 12 {
            k + 1
        } else if k < 16 {
            k + 2
        } else if k < 20 {
            k + 3
        } else {
            k + 4
        };
        assert(0 <= p < 36 && p != 8 && p != 13 && p != 18 && p != 23);
        assert(uuid_hyphenated(a)[p] == hex_digit(uuid_nibble(a, k)));
        assert(uuid_hyphenated(b)[p] == hex_digit(uuid_nibble(b, k)));
        lemma_pow2_pos((4 * (31 - k)) as nat);
        lemma_hex_digit_injective(uuid_nibble(a, k), uuid_nibble(b, k));
    }
    lemma_nibbles_determine(a, b, 0);
    lemma2_to64();
    assert(a as int / 1 == a as int);
    assert(b as int / 1 == b as int);
}

/// Name of what `uuid::Uuid::parse_str` gives for a text, as a 128-bit value.
pub uninterp spec fn uuid_parse_result(s: Seq<char>) -> Option<u128>;

/// The hyphenated text of a UUID (`Uuid::to_string`), claimed to be
/// `uuid_hyphenated`.
#[verifier::external_body]
pub(crate) fn uuid_text(id: u128) -> (r: String)
    ensures
        r@ == uuid_hyphenated(id),
{
    uuid::Uuid::from_u128(id).to_string()
}

/// Parses a UUID in any form that `Uuid::parse_str` accepts.
#[verifier::external_body]
pub(crate) fn parse_uuid(s: &str) -> (r: Option<u128>)
    ensures
        r == uuid_parse_result(s@),
{
    match uuid::Uuid::parse_str(s) {
        Ok(u) => Some(u.as_u128()),
        Err(_) => None,
    }
}

} // verus!
