//! Identifiers: version-4 UUIDs, held as their 128-bit value, and their text.
use vstd::prelude::*;
use vstd::arithmetic::power::pow;

verus! {

/// The lowercase hexadecimal digit for `d` in `0..16`.
pub open spec fn hex_digit(d: int) -> char {
    if d < 10 {
        (48 + d) as char
    } else {
        (87 + d) as char
    }
}

/// The 32 lowercase hexadecimal digits of `v`, most significant first.
pub open spec fn hex_digits(v: u128) -> Seq<char> {
    Seq::new(32, |i: int| hex_digit((v as int / pow(16, (31 - i) as nat)) % 16))
}

/// The hyphenated text of a UUID: its hex digits in groups of 8, 4, 4, 4 and 12.
pub open spec fn hyphenated(v: u128) -> Seq<char> {
    let h = hex_digits(v);
    h.subrange(0, 8) + seq!['-'] + h.subrange(8, 12) + seq!['-'] + h.subrange(12, 16) + seq!['-']
        + h.subrange(16, 20) + seq!['-'] + h.subrange(20, 32)
}

/// Whether `v` has the form of a version-4 UUID: version nibble 4 and variant bits `10`.
pub open spec fn is_v4(v: u128) -> bool {
    (v >> 76u128) & 0xfu128 == 4u128 && (v >> 62u128) & 3u128 == 2u128
}

/// The value of a hexadecimal digit, either case.
pub open spec fn hex_char_value(c: char) -> Option<int> {
    let v = c as int;
    if 48 <= v <= 57 {
        Some(v - 48)
    } else if 97 <= v <= 102 {
        Some(v - 87)
    } else if 65 <= v <= 70 {
        Some(v - 55)
    } else {
        None
    }
}

/// The number that a text of hexadecimal digits spells, most significant first; none where a
/// char is not a hexadecimal digit.
pub open spec fn hex_value(s: Seq<char>) -> Option<int>
    decreases s.len(),
{
    if s.len() == 0 {
        Some(0)
    } else {
        match (hex_value(s.drop_last()), hex_char_value(s.last())) {
            (Some(a), Some(d)) => Some(a * 16 + d),
            _ => None,
        }
    }
}

/// Whether a text has the 36 chars of the hyphenated form, with hyphens after 8, 12, 16 and 20
/// digits.
pub open spec fn has_uuid_hyphens(s: Seq<char>) -> bool {
    s.len() == 36 && s[8] == '-' && s[13] == '-' && s[18] == '-' && s[23] == '-'
}

/// The 32 digit places of a hyphenated text.
pub open spec fn without_uuid_hyphens(s: Seq<char>) -> Seq<char> {
    s.subrange(0, 8) + s.subrange(9, 13) + s.subrange(14, 18) + s.subrange(19, 23) + s.subrange(24, 36)
}

/// The digits of a UUID text in one of the forms `uuid::Uuid::parse_str` reads: 32 digits;
/// the hyphenated form; or the hyphenated form after `urn:uuid:`.
pub open spec fn uuid_digits(text: Seq<char>) -> Option<Seq<char>> {
    if text.len() == 32 {
        Some(text)
    } else if has_uuid_hyphens(text) {
        Some(without_uuid_hyphens(text))
    } else if text.len() == 45 && text.take(9) == "urn:uuid:"@ && has_uuid_hyphens(text.skip(9)) {
        Some(without_uuid_hyphens(text.skip(9)))
    } else {
        None
    }
}

/// What `uuid::Uuid::parse_str` makes of a text, by the 128-bit value of the UUID it reads:
/// the value of its digits, in either case, where it has one of the forms of `uuid_digits`.
pub open spec fn uuid_parse(text: Seq<char>) -> Option<u128> {
    match uuid_digits(text) {
        Some(digits) => match hex_value(digits) {
            Some(v) => Some(v as u128),
            None => None,
        },
        None => None,
    }
}

/// The hexadecimal value of the first `n` digits of `v` is `v` divided by `16^(32 - n)`.
proof fn lemma_hex_digits_prefix(v: u128, n: nat)
    requires
        n <= 32,
    ensures
        hex_value(hex_digits(v).take(n as int)) == Some(v as int / pow(16, (32 - n) as nat)),
    decreases n,
{
    let h = hex_digits(v);
    if n == 0 {
        assert(h.take(0) =~= Seq::<char>::empty());
        assert(pow(16, 32) == 0x1_0000_0000_0000_0000_0000_0000_0000_0000int) by {
            reveal_with_fuel(pow, 33);
        }
    } else {
        let m = (n - 1) as nat;
        lemma_hex_digits_prefix(v, m);
        assert(h.take(n as int).drop_last() =~= h.take(m as int));
        let p = pow(16, (31 - m) as nat);
        vstd::arithmetic::power::lemma_pow_positive(16, (31 - m) as nat);
        assert(pow(16, (32 - m) as nat) == 16 * p) by {
            reveal(pow);
        }
        let y = v as int / p;
        let d = y % 16;
        assert(h.take(n as int).last() == hex_digit(d));
        assert(0 <= d < 16);
        assert(hex_char_value(hex_digit(d)) == Some(d));
        vstd::arithmetic::div_mod::lemma_div_denominator(v as int, p, 16);
        assert(v as int / (p * 16) == v as int / (16 * p)) by (nonlinear_arith);
        vstd::arithmetic::div_mod::lemma_fundamental_div_mod(y, 16);
        assert((y / 16) * 16 + d == y) by (nonlinear_arith)
            requires
                y == 16 * (y / 16) + d,
        ;
    }
}

/// The hyphenated text of a UUID parses back to its value.
pub proof fn lemma_hyphenated_parses_back(v: u128)
    ensures
        uuid_parse(hyphenated(v)) == Some(v),
{
    let h = hex_digits(v);
    let t = hyphenated(v);
    assert(has_uuid_hyphens(t));
    assert(without_uuid_hyphens(t) =~= h);
    lemma_hex_digits_prefix(v, 32);
    assert(h.take(32) =~= h);
    assert(pow(16, 0) == 1) by {
        reveal(pow);
    }
}

/// Calls `uuid::Uuid::new_v4`. The value is random; the contract claims only what every
/// version-4 UUID built by that function has: the version nibble 4 and the variant bits `10`.
#[verifier::external_body]
pub(crate) fn random_uuid() -> (r: u128)
    ensures
        is_v4(r),
{
    uuid::Uuid::new_v4().as_u128()
}

/// Calls `uuid::Uuid::from_u128` and its `Display` impl, which writes the hyphenated lowercase
/// form.
#[verifier::external_body]
pub(crate) fn uuid_text(v: u128) -> (s: String)
    ensures
        s@ == hyphenated(v),
{
    uuid::Uuid::from_u128(v).to_string()
}

/// Calls `uuid::Uuid::parse_str` (which `FromStr` for `Uuid` calls) and keeps the value of the
/// UUID it reads; any parse error becomes `None`. Which texts it accepts, and what it reads,
/// `uuid_parse` states.
#[verifier::external_body]
pub(crate) fn parse_uuid(text: &str) -> (r: Option<u128>)
    ensures
        r == uuid_parse(text@),
{
    match uuid::Uuid::parse_str(text) {
        Ok(u) => Some(u.as_u128()),
        Err(_) => None,
    }
}

} // verus!
