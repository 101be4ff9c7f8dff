//! The text forms of bytes and of 128-bit identifiers.

use vstd::prelude::*;
use crate::text::{hex_digit, hex_digits, lower, u128_hex, u128_hyphenated};

verus! {

/// The character of a six-bit value in the URL-safe alphabet.
pub open spec fn sextet_char(v: int) -> char {
    if v < 26 {
        (65 + v) as u8 as char
    } else if v < 52 {
        (71 + v) as u8 as char
    } else if v < 62 {
        (v - 4) as u8 as char
    } else if v == 62 {
        '-'
    } else {
        '_'
    }
}

/// Byte `k`, or zero past the end.
pub open spec fn byte_at(bytes: Seq<u8>, k: int) -> int {
    if 0 <= k < bytes.len() {
        bytes[k] as int
    } else {
        0
    }
}

/// The six bits from bit `6 * i` on, three bytes to four characters.
pub open spec fn sextet(bytes: Seq<u8>, i: int) -> int {
    let k = 3 * (i / 4);
    if i % 4 == 0 {
        byte_at(bytes, k) / 4
    } else if i % 4 == 1 {
        byte_at(bytes, k) % 4 * 16 + byte_at(bytes, k + 1) / 16
    } else if i % 4 == 2 {
        byte_at(bytes, k + 1) % 16 * 4 + byte_at(bytes, k + 2) / 64
    } else {
        byte_at(bytes, k + 2) % 64
    }
}

/// `bytes` in URL-safe Base64 without padding.
pub open spec fn base64url(bytes: Seq<u8>) -> Seq<char> {
    Seq::new((4 * bytes.len() + 2) as nat / 3, |i: int| sextet_char(sextet(bytes, i)))
}

proof fn lemma_sextet_char(v: int, w: int)
    requires
        0 <= v < 64,
        0 <= w < 64,
        sextet_char(v) == sextet_char(w),
    ensures
        v == w,
{
}

/// The characters stand for their values in the order of the URL-safe
/// alphabet.
pub proof fn the_sextets_stand_in_order(v: int)
    requires
        0 <= v < 64,
    ensures
        sextet_char(v)
            == "ABCDEFGHIJKLMNOPQRSTUVWXYZabcdefghijklmnopqrstuvwxyz0123456789-_"@[v],
{
    reveal_strlit("ABCDEFGHIJKLMNOPQRSTUVWXYZabcdefghijklmnopqrstuvwxyz0123456789-_");
}

/// Different bytes have different Base64 texts.
pub proof fn base64url_is_injective(a: Seq<u8>, b: Seq<u8>)
    requires
        base64url(a) == base64url(b),
    ensures
        a == b,
{
    let n = base64url(a).len();
    assert(n == (4 * a.len() + 2) / 3);
    assert(n == (4 * b.len() + 2) / 3);
    assert(a.len() == b.len());
    assert forall|i: int| 0 <= i < n implies sextet(a, i) == sextet(b, i) by {
        assert(base64url(a)[i] == sextet_char(sextet(a, i)));
        assert(base64url(b)[i] == sextet_char(sextet(b, i)));
        lemma_sextet_char(sextet(a, i), sextet(b, i));
    }
    assert forall|j: int| 0 <= j < a.len() implies a[j] == b[j] by {
        let q = j / 3;
        if j % 3 == 0 {
            assert(4 * q + 1 < n);
            assert(sextet(a, 4 * q) == sextet(b, 4 * q));
            assert(sextet(a, 4 * q + 1) == sextet(b, 4 * q + 1));
            assert((4 * q) / 4 == q && (4 * q + 1) / 4 == q);
        } else if j % 3 == 1 {
            assert(4 * q + 2 < n);
            assert(sextet(a, 4 * q + 1) == sextet(b, 4 * q + 1));
            assert(sextet(a, 4 * q + 2) == sextet(b, 4 * q + 2));
            assert((4 * q + 1) / 4 == q && (4 * q + 2) / 4 == q);
        } else {
            assert(4 * q + 3 < n);
            assert(sextet(a, 4 * q + 2) == sextet(b, 4 * q + 2));
            assert(sextet(a, 4 * q + 3) == sextet(b, 4 * q + 3));
            assert((4 * q + 2) / 4 == q && (4 * q + 3) / 4 == q);
        }
    }
    assert(a =~= b);
}

/// The value of a hexadecimal digit of either case.
pub open spec fn hex_digit_value(c: char) -> Option<nat> {
    if '0' <= c <= '9' {
        Some((c as nat - 48) as nat)
    } else if 'a' <= c <= 'f' {
        Some((c as nat - 87) as nat)
    } else if 'A' <= c <= 'F' {
        Some((c as nat - 55) as nat)
    } else {
        None
    }
}

/// The number that hexadecimal digits denote, most significant first.
pub open spec fn hex_number(digits: Seq<char>) -> Option<nat>
    decreases digits.len(),
{
    if digits.len() == 0 {
        Some(0)
    } else {
        match (hex_number(digits.drop_last()), hex_digit_value(digits.last())) {
            (Some(high), Some(low)) => Some(16 * high + low),
            _ => None,
        }
    }
}

/// The 32 digits of a hyphenated text, if its hyphens stand where they should.
pub open spec fn hyphenated_digits(t: Seq<char>) -> Option<Seq<char>> {
    if t.len() == 36 && t[8] == '-' && t[13] == '-' && t[18] == '-' && t[23] == '-' {
        Some(
            t.subrange(0, 8) + t.subrange(9, 13) + t.subrange(14, 18) + t.subrange(19, 23)
                + t.subrange(24, 36),
        )
    } else {
        None
    }
}

/// The 32 digits of an identifier's text: bare, hyphenated, hyphenated in
/// braces, or hyphenated after `urn:uuid:` in any case.
pub open spec fn uuid_digits(t: Seq<char>) -> Option<Seq<char>> {
    if t.len() == 32 {
        Some(t)
    } else if t.len() == 36 {
        hyphenated_digits(t)
    } else if t.len() == 38 && t[0] == '{' && t[37] == '}' {
        hyphenated_digits(t.subrange(1, 37))
    } else if t.len() == 45 && t.take(9).map_values(|c: char| lower(c)) == seq![
        'u',
        'r',
        'n',
        ':',
        'u',
        'u',
        'i',
        'd',
        ':',
    ] {
        hyphenated_digits(t.skip(9))
    } else {
        None
    }
}

/// The identifier that a text denotes.
pub open spec fn uuid_value(t: Seq<char>) -> Option<u128> {
    match uuid_digits(t) {
        Some(digits) => match hex_number(digits) {
            Some(v) => Some(v as u128),
            None => None,
        },
        None => None,
    }
}

/// `16` to the power of `n`.
pub open spec fn power16(n: nat) -> nat
    decreases n,
{
    if n == 0 {
        1
    } else {
        16 * power16((n - 1) as nat)
    }
}

proof fn lemma_hex_digits_read_back(v: nat, n: nat)
    requires
        v < power16(n),
    ensures
        hex_digits(v, n).len() == n,
        hex_number(hex_digits(v, n)) == Some(v),
    decreases n,
{
    if n > 0 {
        lemma_hex_digits_read_back(v / 16, (n - 1) as nat);
        let high = hex_digits(v / 16, (n - 1) as nat);
        let low = hex_digit((v % 16) as int);
        assert(hex_digits(v, n) == high.push(low));
        assert(high.push(low).drop_last() =~= high);
        assert(hex_digit_value(low) == Some((v % 16) as nat));
    }
}

/// The 32 digits of an identifier denote it.
pub proof fn identifier_text_round_trips(id: u128)
    ensures
        u128_hex(id).len() == 32,
        uuid_value(u128_hex(id)) == Some(id),
        uuid_value(u128_hyphenated(id)) == Some(id),
{
    assert(power16(32) == 0x1_0000_0000_0000_0000_0000_0000_0000_0000) by {
        reveal_with_fuel(power16, 33);
    }
    lemma_hex_digits_read_back(id as nat, 32);
    let h = u128_hex(id);
    let t = u128_hyphenated(id);
    assert(t.len() == 36);
    assert(hyphenated_digits(t) == Some(h)) by {
        assert(t.subrange(0, 8) + t.subrange(9, 13) + t.subrange(14, 18) + t.subrange(19, 23)
            + t.subrange(24, 36) =~= h);
    }
}

} // verus!
