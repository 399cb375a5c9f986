//! Text helpers: decimal rendering and parsing of integers, and ASCII
//! case-insensitive prefix tests.
use vstd::prelude::*;

verus! {

/// The ASCII digit for `d` (`d < 10`).
pub open spec fn digit_char(d: nat) -> char {
    (48 + d) as char
}

/// Decimal digits of `n`, most significant first, without leading zeros.
pub open spec fn decimal(n: nat) -> Seq<char>
    decreases n,
{
    if n < 10 {
        seq![digit_char(n)]
    } else {
        decimal(n / 10).push(digit_char(n % 10))
    }
}

/// Decimal rendering of a signed integer, with a leading `-` when negative.
pub open spec fn signed_decimal(i: int) -> Seq<char> {
    if i < 0 {
        seq!['-'] + decimal((-i) as nat)
    } else {
        decimal(i as nat)
    }
}

/// Renders `v` in decimal through `ToString` for `i64`.
#[verifier::external_body]
pub(crate) fn i64_text(v: i64) -> (s: String)
    ensures
        s@ == signed_decimal(v as int),
{
    v.to_string()
}

/// Renders `v` in decimal through `ToString` for `i128`.
#[verifier::external_body]
pub(crate) fn i128_text(v: i128) -> (s: String)
    ensures
        s@ == signed_decimal(v as int),
{
    v.to_string()
}

/// Renders `v` in decimal through `ToString` for `u128`.
#[verifier::external_body]
pub(crate) fn u128_text(v: u128) -> (s: String)
    ensures
        s@ == decimal(v as nat),
{
    v.to_string()
}

/// Renders `v` in decimal through `ToString` for `u64`.
#[verifier::external_body]
pub(crate) fn u64_text(v: u64) -> (s: String)
    ensures
        s@ == decimal(v as nat),
{
    v.to_string()
}

/// Renders `v` in decimal through `ToString` for `u32`.
#[verifier::external_body]
pub(crate) fn u32_text(v: u32) -> (s: String)
    ensures
        s@ == decimal(v as nat),
{
    v.to_string()
}

/// Renders `v` in decimal through `ToString` for `i32`.
#[verifier::external_body]
pub(crate) fn i32_text(v: i32) -> (s: String)
    ensures
        s@ == signed_decimal(v as int),
{
    v.to_string()
}

/// Lower-case hexadecimal digit for `d` (`d < 16`).
pub open spec fn hex_digit_char(d: nat) -> char {
    if d < 10 {
        (48 + d) as char
    } else {
        (87 + d) as char
    }
}

/// Lower-case hexadecimal digits of `n`, without leading zeros.
pub open spec fn hex(n: nat) -> Seq<char>
    decreases n,
{
    if n < 16 {
        seq![hex_digit_char(n)]
    } else {
        hex(n / 16).push(hex_digit_char(n % 16))
    }
}

/// Renders `v` in lower-case hexadecimal through the `{:x}` formatter.
#[verifier::external_body]
pub(crate) fn u8_hex_text(v: u8) -> (s: String)
    ensures
        s@ == hex(v as nat),
{
    format!("{:x}", v)
}

/// `[a, b, c]` with each byte in lower-case hexadecimal: the `{:x?}`
/// rendering of a byte list.
pub open spec fn hex_list(b: Seq<u8>) -> Seq<char> {
    seq!['['] + hex_items(b) + seq![']']
}

pub open spec fn hex_items(b: Seq<u8>) -> Seq<char>
    decreases b.len(),
{
    if b.len() == 0 {
        Seq::empty()
    } else if b.len() == 1 {
        hex(b[0] as nat)
    } else {
        hex_items(b.drop_last()) + seq![',', ' '] + hex(b.last() as nat)
    }
}

/// Render a byte list as `hex_list` describes.
pub fn bytes_hex_list(b: &Vec<u8>) -> (s: String)
    ensures
        s@ == hex_list(b@),
{
    let mut items = String::new();
    let mut i: usize = 0;
    while i < b.len()
        invariant
            i <= b.len(),
            items@ == hex_items(b@.take(i as int)),
        decreases b.len() - i,
    {
        let h = u8_hex_text(b[i]);
        proof {
            assert(b@.take(i + 1).drop_last() =~= b@.take(i as int));
        }
        if i > 0 {
            items.append(", ");
            proof {
                reveal_strlit(", ");
            }
        }
        items.append(h.as_str());
        i = i + 1;
    }
    assert(b@.take(b.len() as int) =~= b@);
    let mut out = String::from_str("[");
    out.append(items.as_str());
    out.append("]");
    proof {
        reveal_strlit("[");
        reveal_strlit("]");
        assert(out@ =~= hex_list(b@));
    }
    out
}

pub open spec fn is_digit(c: char) -> bool {
    '0' <= c && c <= '9'
}

/// Value of a string of decimal digits.
pub open spec fn digits_value(s: Seq<char>) -> nat
    decreases s.len(),
{
    if s.len() == 0 {
        0
    } else {
        digits_value(s.drop_last()) * 10 + (s.last() as nat - 48) as nat
    }
}

/// What `str::parse::<u32>` yields: an optional leading `+`, then at least
/// one ASCII digit and nothing else, with a value that fits in 32 bits.
pub open spec fn spec_parse_u32(s: Seq<char>) -> Option<u32> {
    let digits = if s.len() > 0 && s[0] == '+' {
        s.drop_first()
    } else {
        s
    };
    if digits.len() == 0 || !(forall|i: int| 0 <= i < digits.len() ==> is_digit(#[trigger] digits[i])) {
        None
    } else if digits_value(digits) > u32::MAX {
        None
    } else {
        Some(digits_value(digits) as u32)
    }
}

/// Parses a decimal `u32` through `str::parse`.
#[verifier::external_body]
pub(crate) fn parse_u32(s: &str) -> (r: Option<u32>)
    ensures
        r == spec_parse_u32(s@),
{
    s.parse::<u32>().ok()
}

/// ASCII lower-casing of one character; other characters are unchanged.
pub open spec fn ascii_lower(c: char) -> char {
    if 'A' <= c && c <= 'Z' {
        ((c as u32) + 32) as char
    } else {
        c
    }
}

/// `s` starts with `prefix`, comparing ASCII letters without regard to case.
pub open spec fn starts_with_ignore_ascii_case(s: Seq<char>, prefix: Seq<char>) -> bool {
    prefix.len() <= s.len() && forall|i: int|
        0 <= i < prefix.len() ==> ascii_lower(#[trigger] s[i]) == ascii_lower(prefix[i])
}

fn lower_char(c: char) -> (r: char)
    ensures
        r == ascii_lower(c),
{
    if 'A' <= c && c <= 'Z' {
        let code = (c as u32) + 32;
        assert(code <= 0x7f);
        // every ASCII code is a valid `char`
        char_from_ascii(code)
    } else {
        c
    }
}

fn char_from_ascii(code: u32) -> (c: char)
    requires
        code <= 0x7f,
    ensures
        c == code as char,
{
    let b = code as u8;
    b as char
}

/// Whether `s` starts with `prefix`, ignoring ASCII case.
pub fn starts_with_ignore_case(s: &str, prefix: &str) -> (r: bool)
    ensures
        r == starts_with_ignore_ascii_case(s@, prefix@),
{
    let n = prefix.unicode_len();
    let m = s.unicode_len();
    if n > m {
        return false;
    }
    let mut i: usize = 0;
    while i < n
        invariant
            n == prefix@.len(),
            m == s@.len(),
            n <= m,
            i <= n,
            forall|k: int| 0 <= k < i ==> ascii_lower(#[trigger] s@[k]) == ascii_lower(prefix@[k]),
        decreases n - i,
    {
        if lower_char(s.get_char(i)) != lower_char(prefix.get_char(i)) {
            return false;
        }
        i = i + 1;
    }
    true
}


/// Whether two strings hold the same characters.
pub fn str_equal(a: &str, b: &str) -> (r: bool)
    ensures
        r == (a@ == b@),
{
    let n = a.unicode_len();
    if n != b.unicode_len() {
        return false;
    }
    let mut i: usize = 0;
    while i < n
        invariant
            n == a@.len(),
            n == b@.len(),
            i <= n,
            forall|k: int| 0 <= k < i ==> a@[k] == b@[k],
        decreases n - i,
    {
        if a.get_char(i) != b.get_char(i) {
            return false;
        }
        i = i + 1;
    }
    assert(a@ =~= b@);
    true
}

} // verus!
