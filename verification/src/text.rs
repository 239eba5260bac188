//! Small verified text utilities shared by the other modules.

use vstd::prelude::*;
use vstd::string::StrSliceExecFns;
use vstd::string::StringExecFns;

verus! {

/// Whether two strings hold the same characters.
pub fn str_eq(a: &str, b: &str) -> (r: bool)
    ensures
        r == (a@ == b@),
{
    let x = String::from_str(a);
    let y = String::from_str(b);
    x == y
}

/// Appends one character (`String::push`).
#[verifier::external_body]
pub(crate) fn push_char(s: &mut String, c: char)
    ensures
        final(s)@ == old(s)@.push(c),
{
    s.push(c);
}

/// The code point of `c` after ASCII lower-casing: `'A'..='Z'` become
/// `'a'..='z'`, every other character is kept.
pub open spec fn ascii_lower(c: char) -> u32 {
    if 'A' <= c <= 'Z' {
        (c as u32 + 32) as u32
    } else {
        c as u32
    }
}

/// Case-insensitive ASCII equality, as `str::eq_ignore_ascii_case`.
pub open spec fn eq_ignore_ascii_case(a: Seq<char>, b: Seq<char>) -> bool {
    &&& a.len() == b.len()
    &&& forall|i: int| 0 <= i < a.len() ==> #[trigger] ascii_lower(a[i]) == ascii_lower(b[i])
}

/// `ascii_lower` in executable form.
pub fn lower_code(c: char) -> (r: u32)
    ensures
        r == ascii_lower(c),
{
    if 'A' <= c && c <= 'Z' {
        c as u32 + 32
    } else {
        c as u32
    }
}

/// Case-insensitive ASCII comparison of two strings.
pub fn equals_ignore_ascii_case(a: &str, b: &str) -> (r: bool)
    ensures
        r == eq_ignore_ascii_case(a@, b@),
{
    let n = a.unicode_len();
    if n != b.unicode_len() {
        return false;
    }
    let mut i: usize = 0;
    while i < n
        invariant
            n == a@.len(),
            n == b@.len(),
            i <= n,
            forall|j: int| 0 <= j < i ==> #[trigger] ascii_lower(a@[j]) == ascii_lower(b@[j]),
        decreases n - i,
    {
        if lower_code(a.get_char(i)) != lower_code(b.get_char(i)) {
            return false;
        }
        i = i + 1;
    }
    true
}

/// Whether a setting's text turns it on: `1`, `true`, `yes` or `on`, in any
/// ASCII case.
pub open spec fn is_truthy(v: Seq<char>) -> bool {
    ||| eq_ignore_ascii_case(v, "1"@)
    ||| eq_ignore_ascii_case(v, "true"@)
    ||| eq_ignore_ascii_case(v, "yes"@)
    ||| eq_ignore_ascii_case(v, "on"@)
}

proof fn lemma_same_case_class(a: Seq<char>, b: Seq<char>, w: Seq<char>)
    requires
        eq_ignore_ascii_case(a, b),
    ensures
        eq_ignore_ascii_case(a, w) <==> eq_ignore_ascii_case(b, w),
{
    if eq_ignore_ascii_case(a, w) {
        assert forall|i: int| 0 <= i < b.len() implies #[trigger] ascii_lower(b[i]) == ascii_lower(w[i]) by {
            assert(ascii_lower(a[i]) == ascii_lower(b[i]));
            assert(ascii_lower(a[i]) == ascii_lower(w[i]));
        }
    }
    if eq_ignore_ascii_case(b, w) {
        assert forall|i: int| 0 <= i < a.len() implies #[trigger] ascii_lower(a[i]) == ascii_lower(w[i]) by {
            assert(ascii_lower(a[i]) == ascii_lower(b[i]));
            assert(ascii_lower(b[i]) == ascii_lower(w[i]));
        }
    }
}

/// A setting is on when it reads `1`, `true`, `yes` or `on`, in any ASCII
/// case, and off for anything else (such as `0`, `false`, `no`, `off` or the
/// empty text); texts that differ only in ASCII case agree.
pub proof fn law_truthy_words(a: Seq<char>, b: Seq<char>)
    ensures
        eq_ignore_ascii_case(a, b) ==> is_truthy(a) == is_truthy(b),
        is_truthy(a) ==> 1 <= a.len() <= 4,
        is_truthy("1"@) && is_truthy("true"@) && is_truthy("yes"@) && is_truthy("on"@),
        is_truthy("TRUE"@) && is_truthy("Yes"@) && is_truthy("ON"@),
        !is_truthy(""@) && !is_truthy("0"@) && !is_truthy("false"@) && !is_truthy("no"@) && !is_truthy("off"@),
{
    reveal_strlit("1");
    reveal_strlit("true");
    reveal_strlit("yes");
    reveal_strlit("on");
    reveal_strlit("TRUE");
    reveal_strlit("Yes");
    reveal_strlit("ON");
    reveal_strlit("");
    reveal_strlit("0");
    reveal_strlit("false");
    reveal_strlit("no");
    reveal_strlit("off");
    if eq_ignore_ascii_case(a, b) {
        lemma_same_case_class(a, b, "1"@);
        lemma_same_case_class(a, b, "true"@);
        lemma_same_case_class(a, b, "yes"@);
        lemma_same_case_class(a, b, "on"@);
    }
    assert(eq_ignore_ascii_case("TRUE"@, "true"@)) by {
        assert(ascii_lower("TRUE"@[0]) == ascii_lower("true"@[0]));
        assert(ascii_lower("TRUE"@[1]) == ascii_lower("true"@[1]));
        assert(ascii_lower("TRUE"@[2]) == ascii_lower("true"@[2]));
        assert(ascii_lower("TRUE"@[3]) == ascii_lower("true"@[3]));
    }
    assert(eq_ignore_ascii_case("Yes"@, "yes"@)) by {
        assert(ascii_lower("Yes"@[0]) == ascii_lower("yes"@[0]));
    }
    assert(eq_ignore_ascii_case("ON"@, "on"@)) by {
        assert(ascii_lower("ON"@[0]) == ascii_lower("on"@[0]));
        assert(ascii_lower("ON"@[1]) == ascii_lower("on"@[1]));
    }
    assert(ascii_lower("0"@[0]) != ascii_lower("1"@[0]));
    assert(ascii_lower("off"@[0]) != ascii_lower("yes"@[0]));
    assert(ascii_lower("no"@[0]) != ascii_lower("on"@[0]));
}

/// Decides `is_truthy`.
pub fn truthy(v: &str) -> (r: bool)
    ensures
        r == is_truthy(v@),
{
    equals_ignore_ascii_case(v, "1") || equals_ignore_ascii_case(v, "true")
        || equals_ignore_ascii_case(v, "yes") || equals_ignore_ascii_case(v, "on")
}

/// The sequence `s` with every character ASCII lower-cased.
pub open spec fn lowered(s: Seq<char>) -> Seq<char> {
    s.map_values(|c: char| ascii_lower(c) as char)
}

/// `str::to_ascii_lowercase`.
pub fn to_ascii_lowercase(s: &str) -> (r: String)
    ensures
        r@ == lowered(s@),
{
    let n = s.unicode_len();
    let mut out = String::new();
    let mut i: usize = 0;
    while i < n
        invariant
            n == s@.len(),
            i <= n,
            out@ == lowered(s@.take(i as int)),
        decreases n - i,
    {
        let c = s.get_char(i);
        let lc: char = if 'A' <= c && c <= 'Z' {
            let code: u32 = c as u32 + 32;
            assert(0x61 <= code <= 0x7a);
            char_of_ascii_lower(c)
        } else {
            c
        };
        push_char(&mut out, lc);
        assert(s@.take(i + 1) =~= s@.take(i as int).push(c));
        assert(lowered(s@.take(i + 1)) =~= lowered(s@.take(i as int)).push(lc));
        i = i + 1;
    }
    assert(s@.take(n as int) =~= s@);
    out
}

/// The lower-case letter of an upper-case ASCII letter.
fn char_of_ascii_lower(c: char) -> (r: char)
    requires
        'A' <= c <= 'Z',
    ensures
        r == ascii_lower(c) as char,
{
    let b: u8 = (c as u32 + 32) as u8;
    b as char
}

/// Whether `s` starts with `prefix`.
pub open spec fn has_prefix(s: Seq<char>, prefix: Seq<char>) -> bool {
    prefix.len() <= s.len() && s.take(prefix.len() as int) == prefix
}

/// `str::strip_prefix`: the rest of `s` after `prefix`, when `s` starts with
/// it.
pub fn strip_prefix(s: &str, prefix: &str) -> (r: Option<String>)
    ensures
        r is Some <==> has_prefix(s@, prefix@),
        r matches Some(rest) ==> rest@ == s@.skip(prefix@.len() as int),
{
    let n = s.unicode_len();
    let m = prefix.unicode_len();
    if m > n {
        return None;
    }
    let mut i: usize = 0;
    while i < m
        invariant
            n == s@.len(),
            m == prefix@.len(),
            m <= n,
            i <= m,
            forall|j: int| 0 <= j < i ==> #[trigger] s@[j] == prefix@[j],
        decreases m - i,
    {
        if s.get_char(i) != prefix.get_char(i) {
            assert(s@.take(m as int)[i as int] != prefix@[i as int]);
            return None;
        }
        i = i + 1;
    }
    assert(s@.take(m as int) =~= prefix@);
    let mut rest = String::new();
    let mut k: usize = m;
    while k < n
        invariant
            n == s@.len(),
            m <= k <= n,
            rest@ == s@.subrange(m as int, k as int),
        decreases n - k,
    {
        push_char(&mut rest, s.get_char(k));
        assert(s@.subrange(m as int, k + 1) =~= s@.subrange(m as int, k as int).push(s@[k as int]));
        k = k + 1;
    }
    assert(s@.subrange(m as int, n as int) =~= s@.skip(m as int));
    Some(rest)
}

/// Whether a text is made of decimal digits only.
pub open spec fn all_digits(s: Seq<char>) -> bool {
    forall|i: int| 0 <= i < s.len() ==> '0' <= #[trigger] s[i] <= '9'
}

/// The decimal digit character of `d`.
pub open spec fn digit_char(d: int) -> char {
    ('0' as int + d) as char
}

/// `n` written in decimal with exactly `width` digits (most significant
/// first), as `format!("{:0width$}", n)` does for `n < 10^width`.
pub open spec fn padded_decimal(n: nat, width: nat) -> Seq<char>
    decreases width,
{
    if width == 0 {
        Seq::empty()
    } else {
        padded_decimal(n / 10, (width - 1) as nat).push(digit_char((n % 10) as int))
    }
}

/// The character of a single decimal digit.
pub fn digit(d: u32) -> (c: char)
    requires
        d < 10,
    ensures
        c == digit_char(d as int),
{
    let b: u8 = 48u8 + (d as u8);
    b as char
}

/// `n` in decimal, zero-padded to `width` digits.
pub fn format_padded(n: u32, width: usize) -> (r: String)
    ensures
        r@ == padded_decimal(n as nat, width as nat),
    decreases width,
{
    if width == 0 {
        String::new()
    } else {
        let mut head = format_padded(n / 10, width - 1);
        push_char(&mut head, digit(n % 10));
        head
    }
}

} // verus!
