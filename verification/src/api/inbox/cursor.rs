//! The opaque keyset cursor: an instant and an id, in URL-safe Base64.

use vstd::prelude::*;
use vstd::utf8::{encode_utf8, is_ascii_chars};
use crate::encoding::{base64url, base64url_is_injective, identifier_text_round_trips, uuid_value};
use crate::outside::{
    base64url_decode, base64url_encode, instant_exists, string_from_utf8, uuid_parse, uuid_simple,
    MAX_MICROS, MIN_MICROS,
};
use crate::text::{
    chars, decimal, find_from, first_index, integer_text_round_trips, integer_value, is_digit,
    lemma_decimal, lemma_first_index, parse_integer, push_integer, signed_decimal, u128_hex,
};

verus! {

/// What a cursor holds in plain text.
pub open spec fn cursor_text(ts: i64, id: u128) -> Seq<char> {
    signed_decimal(ts as int).push(':') + u128_hex(id)
}

/// The instant and id that a plain text holds, split at its first colon.
pub open spec fn keyset_value(raw: Seq<char>) -> Option<(i64, u128)> {
    let k = first_index(raw, ':');
    if k < raw.len() {
        match (integer_value(raw.take(k)), uuid_value(raw.skip(k + 1))) {
            (Some(ts), Some(id)) => if MIN_MICROS <= ts <= MAX_MICROS {
                Some((ts, id))
            } else {
                None
            },
            _ => None,
        }
    } else {
        None
    }
}

/// `raw` is the text inside the cursor.
pub open spec fn holds_text(cursor: Seq<char>, raw: Seq<char>) -> bool {
    cursor == base64url(encode_utf8(raw))
}

/// The instant and id that a cursor holds, if it is one.
pub open spec fn cursor_value(cursor: Seq<char>) -> Option<(i64, u128)> {
    if exists|raw: Seq<char>| holds_text(cursor, raw) {
        keyset_value(choose|raw: Seq<char>| holds_text(cursor, raw))
    } else {
        None
    }
}

proof fn lemma_text_is_unique(cursor: Seq<char>, a: Seq<char>, b: Seq<char>)
    requires
        holds_text(cursor, a),
        holds_text(cursor, b),
    ensures
        a == b,
{
    base64url_is_injective(encode_utf8(a), encode_utf8(b));
    vstd::utf8::encode_utf8_decode_utf8(a);
    vstd::utf8::encode_utf8_decode_utf8(b);
}

pub(crate) proof fn lemma_cursor_value(cursor: Seq<char>, raw: Seq<char>)
    requires
        holds_text(cursor, raw),
    ensures
        cursor_value(cursor) == keyset_value(raw),
{
    lemma_text_is_unique(cursor, raw, choose|raw: Seq<char>| holds_text(cursor, raw));
}

proof fn lemma_hex_digits_are_ascii(v: nat, n: nat)
    ensures
        is_ascii_chars(crate::text::hex_digits(v, n)),
    decreases n,
{
    if n > 0 {
        lemma_hex_digits_are_ascii(v / 16, (n - 1) as nat);
    }
}

proof fn lemma_cursor_text_is_short(ts: i64, id: u128)
    ensures
        is_ascii_chars(cursor_text(ts, id)),
        cursor_text(ts, id).len() <= 53,
{
    let m = if ts < 0 { (-(ts as int)) as nat } else { ts as nat };
    lemma_decimal(m);
    identifier_text_round_trips(id);
    lemma_hex_digits_are_ascii(id as nat, 32);
    let d = signed_decimal(ts as int);
    assert forall|i: int| 0 <= i < d.len() implies '\0' <= #[trigger] d[i] <= '\u{7f}' by {
        if ts < 0 {
            if i > 0 {
                assert(is_digit(decimal(m)[i - 1]));
            }
        } else {
            assert(is_digit(decimal(m)[i]));
        }
    }
}

/// The cursor after an item at `ts` with this id. Decoding it gives both back.
pub fn encode_cursor(ts: i64, id: u128) -> (r: String)
    ensures
        holds_text(r@, cursor_text(ts, id)),
        MIN_MICROS <= ts <= MAX_MICROS ==> cursor_value(r@) == Some((ts, id)),
{
    let mut raw: String = String::new();
    push_integer(&mut raw, ts);
    raw.push(':');
    let digits: String = uuid_simple(id);
    raw.append(digits.as_str());
    proof {
        assert(raw@ =~= cursor_text(ts, id));
        lemma_cursor_text_is_short(ts, id);
        vstd::utf8::is_ascii_chars_encode_utf8(raw@);
    }
    let r: String = base64url_encode(raw.as_str());
    proof {
        if MIN_MICROS <= ts <= MAX_MICROS {
            cursor_gives_back_the_keyset(ts, id, r@);
        }
    }
    r
}

/// The instant and id that the plain text of a cursor holds.
pub fn split_cursor(raw: &str) -> (r: Option<(i64, u128)>)
    ensures
        r == keyset_value(raw@),
{
    let c: Vec<char> = chars(raw);
    let k: usize = find_from(&c, 0, ':');
    proof {
        assert(raw@.skip(0) =~= raw@);
        lemma_first_index(raw@, ':');
    }
    if k == c.len() {
        return None;
    }
    let micros: &str = raw.substring_char(0, k);
    let id: &str = raw.substring_char(k + 1, c.len());
    proof {
        assert(micros@ =~= raw@.take(k as int));
        assert(id@ =~= raw@.skip(k + 1));
    }
    match (parse_integer(micros), uuid_parse(id)) {
        (Some(ts), Some(id)) => if instant_exists(ts) {
            Some((ts, id))
        } else {
            None
        },
        _ => None,
    }
}

/// The instant and id that a cursor holds. A text that is no cursor holds none.
pub fn decode_cursor(cursor: &str) -> (r: Option<(i64, u128)>)
    ensures
        r == cursor_value(cursor@),
{
    match base64url_decode(cursor) {
        None => {
            proof {
                assert forall|raw: Seq<char>| !holds_text(cursor@, raw) by {
                    assert(cursor@ != base64url(encode_utf8(raw)));
                }
            }
            None
        },
        Some(bytes) => {
            let ghost held = bytes@;
            match string_from_utf8(bytes) {
                None => {
                    proof {
                        assert forall|raw: Seq<char>| !holds_text(cursor@, raw) by {
                            if holds_text(cursor@, raw) {
                                base64url_is_injective(held, encode_utf8(raw));
                                vstd::utf8::encode_utf8_valid_utf8(raw);
                            }
                        }
                    }
                    None
                },
                Some(raw) => {
                    proof {
                        lemma_cursor_value(cursor@, raw@);
                    }
                    split_cursor(raw.as_str())
                },
            }
        },
    }
}

/// Decoding the cursor of an item gives back its instant and id.
pub proof fn cursor_gives_back_the_keyset(ts: i64, id: u128, cursor: Seq<char>)
    requires
        MIN_MICROS <= ts <= MAX_MICROS,
        holds_text(cursor, cursor_text(ts, id)),
    ensures
        cursor_value(cursor) == Some((ts, id)),
{
    let raw = cursor_text(ts, id);
    let d = signed_decimal(ts as int);
    lemma_cursor_value(cursor, raw);
    lemma_first_index(raw, ':');
    let m = if ts < 0 { (-(ts as int)) as nat } else { ts as nat };
    lemma_decimal(m);
    assert forall|i: int| 0 <= i < d.len() implies raw[i] != ':' by {
        if ts < 0 {
            if i > 0 {
                assert(is_digit(decimal(m)[i - 1]));
            }
        } else {
            assert(is_digit(decimal(m)[i]));
        }
    }
    assert(raw[d.len() as int] == ':');
    assert(first_index(raw, ':') == d.len());
    assert(raw.take(d.len() as int) =~= d);
    assert(raw.skip(d.len() as int + 1) =~= u128_hex(id));
    integer_text_round_trips(ts);
    identifier_text_round_trips(id);
}

} // verus!
