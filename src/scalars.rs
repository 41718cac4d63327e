use vstd::prelude::*;

use vstd::arithmetic::div_mod::{lemma_breakdown, lemma_small_mod};

verus! {

/// Whether chrono can represent the instant `secs` seconds after the Unix
/// epoch, in UTC.
pub uninterp spec fn date_in_range(secs: int) -> bool;

/// Relies on chrono's `DateTime::<Utc>::from_timestamp`: `None` exactly for
/// the instants it cannot represent.
#[verifier::external_body]
pub(crate) fn date_representable(secs: i64) -> (r: bool)
    ensures
        r == date_in_range(secs as int),
{
    chrono::DateTime::<chrono::Utc>::from_timestamp(secs, 0).is_some()
}

pub open spec fn is_hex_char(c: char) -> bool {
    ('0' <= c && c <= '9') || ('a' <= c && c <= 'f') || ('A' <= c && c <= 'F')
}

pub open spec fn hex_char_value(c: char) -> nat {
    if '0' <= c && c <= '9' {
        (c as nat - '0' as nat) as nat
    } else if 'a' <= c && c <= 'f' {
        (c as nat - 'a' as nat + 10) as nat
    } else {
        (c as nat - 'A' as nat + 10) as nat
    }
}

pub open spec fn is_hyphen_position(i: int) -> bool {
    i == 8 || i == 13 || i == 18 || i == 23
}

/// The canonical 8-4-4-4-12 spelling of a UUID, in either case.
pub open spec fn is_hyphenated(s: Seq<char>) -> bool {
    s.len() == 36 && forall|i: int|
        0 <= i < 36 ==> if is_hyphen_position(i) {
            s[i] == '-'
        } else {
            is_hex_char(#[trigger] s[i])
        }
}

/// The number that a string of hex digits spells, most significant first.
pub open spec fn hex_number(d: Seq<char>) -> nat
    decreases d.len(),
{
    if d.len() == 0 {
        0
    } else {
        hex_number(d.drop_last()) * 16 + hex_char_value(d.last())
    }
}

/// The 128-bit value of a hyphenated UUID.
pub open spec fn hyphenated_value(s: Seq<char>) -> nat {
    hex_number(
        s.subrange(0, 8) + s.subrange(9, 13) + s.subrange(14, 18) + s.subrange(19, 23) + s.subrange(
            24,
            36,
        ),
    )
}

/// Relies on `uuid::Uuid::parse_str` and `Uuid::as_u128`: a hyphenated UUID
/// parses to the number its hex digits spell.
#[verifier::external_body]
fn parse_uuid(s: &str) -> (r: Option<u128>)
    ensures
        is_hyphenated(s@) ==> r is Some && r->0 as nat == hyphenated_value(s@),
{
    match uuid::Uuid::parse_str(s) {
        Ok(u) => Some(u.as_u128()),
        Err(_) => None,
    }
}

pub open spec fn hex_alphabet() -> Seq<char> {
    seq!['0', '1', '2', '3', '4', '5', '6', '7', '8', '9', 'a', 'b', 'c', 'd', 'e', 'f']
}

/// The last `n` hex digits of `u`, lower case, most significant first.
pub open spec fn hex_digits(u: nat, n: nat) -> Seq<char>
    decreases n,
{
    if n == 0 {
        Seq::empty()
    } else {
        hex_digits(u / 16, (n - 1) as nat).push(hex_alphabet()[(u % 16) as int])
    }
}

/// The lower-case 8-4-4-4-12 spelling of a 128-bit value.
pub open spec fn uuid_text_spec(u: nat) -> Seq<char> {
    let d = hex_digits(u, 32);
    d.subrange(0, 8) + seq!['-'] + d.subrange(8, 12) + seq!['-'] + d.subrange(12, 16) + seq!['-']
        + d.subrange(16, 20) + seq!['-'] + d.subrange(20, 32)
}

pub open spec fn pow16(n: nat) -> nat
    decreases n,
{
    if n == 0 {
        1
    } else {
        16 * pow16((n - 1) as nat)
    }
}

proof fn lemma_hex_digits(u: nat, n: nat)
    ensures
        hex_digits(u, n).len() == n,
        forall|i: int| 0 <= i < n ==> is_hex_char(#[trigger] hex_digits(u, n)[i]),
        hex_number(hex_digits(u, n)) == u % pow16(n),
    decreases n,
{
    if n > 0 {
        lemma_hex_digits(u / 16, (n - 1) as nat);
        let d = hex_digits(u, n);
        let k = (u % 16) as int;
        assert(0 <= k < 16);
        assert(d.drop_last() == hex_digits(u / 16, (n - 1) as nat));
        assert(is_hex_char(hex_alphabet()[k]) && hex_char_value(hex_alphabet()[k]) == k) by {
            assert(0 <= k < 16);
        }
        assert forall|i: int| 0 <= i < n implies is_hex_char(#[trigger] d[i]) by {
            if i < n - 1 {
                assert(d[i] == hex_digits(u / 16, (n - 1) as nat)[i]);
            }
        }
        assert(pow16(n) == 16 * pow16((n - 1) as nat));
        lemma_pow16_pos((n - 1) as nat);
        lemma_breakdown(u as int, 16, pow16((n - 1) as nat) as int);
    } else {
        lemma_small_mod(0, 1);
        assert(u % 1 == 0);
    }
}

proof fn lemma_pow16_pos(n: nat)
    ensures
        pow16(n) > 0,
    decreases n,
{
    if n > 0 {
        lemma_pow16_pos((n - 1) as nat);
    }
}

/// The canonical text of a value spells it back.
pub proof fn lemma_uuid_text(u: u128)
    ensures
        is_hyphenated(uuid_text_spec(u as nat)),
        hyphenated_value(uuid_text_spec(u as nat)) == u as nat,
{
    let d = hex_digits(u as nat, 32);
    lemma_hex_digits(u as nat, 32);
    let t = uuid_text_spec(u as nat);
    assert(t.len() == 36);
    assert forall|i: int| 0 <= i < 36 implies if is_hyphen_position(i) {
        t[i] == '-'
    } else {
        is_hex_char(#[trigger] t[i])
    } by {
        if i < 8 {
            assert(t[i] == d[i]);
        } else if 8 < i < 13 {
            assert(t[i] == d[i - 1]);
        } else if 13 < i < 18 {
            assert(t[i] == d[i - 2]);
        } else if 18 < i < 23 {
            assert(t[i] == d[i - 3]);
        } else if 23 < i {
            assert(t[i] == d[i - 4]);
        }
    }
    assert(t.subrange(0, 8) + t.subrange(9, 13) + t.subrange(14, 18) + t.subrange(19, 23)
        + t.subrange(24, 36) =~= d);
    assert(pow16(32) == 0x1_0000_0000_0000_0000_0000_0000_0000_0000) by {
        reveal_with_fuel(pow16, 33);
    }
    lemma_small_mod(u as nat, pow16(32));
}

/// Relies on `uuid::Uuid::from_u128` and its hyphenated `Display`: the
/// lower-case 8-4-4-4-12 spelling of the value, most significant digit first.
#[verifier::external_body]
pub(crate) fn uuid_text(u: u128) -> (r: String)
    ensures
        r@ == uuid_text_spec(u as nat),
{
    uuid::Uuid::from_u128(u).hyphenated().to_string()
}

/// Whether `s` spells a UUID in the canonical hyphenated form.
pub fn check_hyphenated(s: &str) -> (r: bool)
    ensures
        r == is_hyphenated(s@),
{
    if s.unicode_len() != 36 {
        return false;
    }
    let mut i: usize = 0;
    while i < 36
        invariant
            s@.len() == 36,
            i <= 36,
            forall|k: int|
                0 <= k < i ==> if is_hyphen_position(k) {
                    s@[k] == '-'
                } else {
                    is_hex_char(#[trigger] s@[k])
                },
        decreases 36 - i,
    {
        let c = s.get_char(i);
        if i == 8 || i == 13 || i == 18 || i == 23 {
            if c != '-' {
                return false;
            }
        } else if !(('0' <= c && c <= '9') || ('a' <= c && c <= 'f') || ('A' <= c && c <= 'F')) {
            return false;
        }
        i += 1;
    }
    true
}

/// The value of a UUID spelled in canonical form; `None` for any other
/// spelling.
pub fn parse_hyphenated(s: &str) -> (r: Option<u128>)
    ensures
        is_hyphenated(s@) ==> r is Some && r->0 as nat == hyphenated_value(s@),
        !is_hyphenated(s@) ==> r is None,
{
    if check_hyphenated(s) {
        parse_uuid(s)
    } else {
        None
    }
}

pub open spec fn digit_char(d: nat) -> char {
    if d == 0 { '0' } else if d == 1 { '1' } else if d == 2 { '2' } else if d == 3 { '3' }
    else if d == 4 { '4' } else if d == 5 { '5' } else if d == 6 { '6' } else if d == 7 { '7' }
    else if d == 8 { '8' } else { '9' }
}

/// The decimal digits of `n`, most significant first, without leading zeros.
pub open spec fn decimal_digits(n: nat) -> Seq<char>
    decreases n,
{
    if n < 10 {
        seq![digit_char(n)]
    } else {
        decimal_digits(n / 10).push(digit_char(n % 10))
    }
}

/// The decimal spelling of an integer, with a leading `-` when negative.
pub open spec fn decimal(n: int) -> Seq<char> {
    if n < 0 {
        seq!['-'] + decimal_digits((-n) as nat)
    } else {
        decimal_digits(n as nat)
    }
}

/// Relies on the `Display` of `i128`: its decimal spelling.
#[verifier::external_body]
pub(crate) fn decimal_text(n: i128) -> (r: String)
    ensures
        r@ == decimal(n as int),
{
    n.to_string()
}

} // verus!
