//! Which requests the list accepts, and when a client's page is still good.

use vstd::prelude::*;
use vstd::utf8::encode_utf8;
use super::cursor::{cursor_text, cursor_value, holds_text, lemma_cursor_value};
use super::etag::{
    id_text, instant_text, is_greatest, is_latest, key_at, key_id, later, quoted, EtagInputs,
};
use super::items::{
    a_named_validator_is_still_good, header_text, is_visible, names_etag, page_etag, page_message,
    stands_for, still_good, ListParams, CACHE_CONTROL,
};
use crate::encoding::{base64url, uuid_value};
use crate::outside::{sha256, MAX_MICROS, MIN_MICROS};
use crate::text::{
    blank, field, first_index, hex_digit, hex_text, integer_value, lemma_first_index, pieces,
    signed_decimal, trimmed, u128_hex, u128_hyphenated,
};

verus! {

/// A validator names one digest: two digests have two validators.
pub proof fn a_validator_names_one_digest(d: Seq<u8>, e: Seq<u8>)
    requires
        quoted(d) == quoted(e),
    ensures
        d == e,
{
    let (h, g) = (hex_text(d), hex_text(e));
    assert(quoted(d).len() == h.len() + 2 && quoted(e).len() == g.len() + 2);
    assert(h =~= quoted(d).subrange(1, 1 + h.len() as int));
    assert(g =~= quoted(e).subrange(1, 1 + g.len() as int));
    assert(h == g);
    assert forall|i: int| 0 <= i < d.len() implies d[i] == e[i] by {
        assert(h[2 * i] == hex_digit(d[i] as int / 16) && h[2 * i + 1] == hex_digit(
            d[i] as int % 16,
        ));
        assert(g[2 * i] == hex_digit(e[i] as int / 16) && g[2 * i + 1] == hex_digit(
            e[i] as int % 16,
        ));
    }
    assert(d =~= e);
}

/// A validator is the digest's bytes in hexadecimal between double quotes, two
/// digits for a byte.
pub proof fn a_validator_is_quoted_hexadecimal(d: Seq<u8>, i: int)
    ensures
        quoted(d).len() == 2 * d.len() + 2,
        quoted(d)[0] == '"' && quoted(d).last() == '"',
        0 <= i < d.len() ==> quoted(d)[1 + 2 * i] == "0123456789abcdef"@[d[i] as int / 16]
            && quoted(d)[2 + 2 * i] == "0123456789abcdef"@[d[i] as int % 16],
{
    reveal_strlit("0123456789abcdef");
    if 0 <= i < d.len() {
        let h = hex_text(d);
        assert(quoted(d)[1 + 2 * i] == h[2 * i] && quoted(d)[2 + 2 * i] == h[2 * i + 1]);
        assert(h[2 * i] == hex_digit(d[i] as int / 16) && h[2 * i + 1] == hex_digit(
            d[i] as int % 16,
        ));
    }
}

/// A header names a validator exactly when all of it is readable and one of
/// its candidates, between commas and without the blanks around it, is the
/// asterisk, the validator itself or the validator marked weak.
pub proof fn what_names_a_validator(value: Seq<u8>, text: Seq<char>, digest: Seq<u8>)
    requires
        text.len() == value.len(),
        forall|i: int| 0 <= i < value.len() ==> #[trigger] text[i] == value[i] as char,
    ensures
        names_etag(value, quoted(digest)) <==> (forall|i: int|
            0 <= i < value.len() ==> 32 <= #[trigger] value[i] <= 126 || value[i] == 9) && exists|
            i: int,
        |
            0 <= i < pieces(text, ',').len() && ({
                let candidate = trimmed(#[trigger] pieces(text, ',')[i]);
                ||| candidate == "*"@
                ||| candidate == quoted(digest)
                ||| candidate == "W/"@ + quoted(digest)
            }),
{
    reveal_strlit("*");
    reveal_strlit("W/");
    assert("*"@ =~= seq!['*']);
    assert("W/"@ =~= seq!['W', '/']);
    let all = pieces(text, ',');
    let q = quoted(digest);
    assert(header_text(value) =~= text);
    assert forall|c: Seq<char>| #[trigger] stands_for(c, q) == (c == "*"@ || c == q || c == "W/"@
        + q) by {
        assert(q[0] == '"');
        if c == "W/"@ + q {
            assert(c[0] == 'W' && c[1] == '/');
            assert(c.skip(2) =~= q);
        }
        if c.len() >= 2 && c[0] == 'W' && c[1] == '/' && c.skip(2) == q {
            assert(c =~= "W/"@ + c.skip(2));
        }
    }
    if names_etag(value, q) {
        assert forall|i: int| 0 <= i < value.len() implies 32 <= #[trigger] value[i] <= 126
            || value[i] == 9 by {
            assert(is_visible(value[i]));
        }
        let i = choose|i: int| 0 <= i < all.len() && stands_for(trimmed(#[trigger] all[i]), q);
        assert(stands_for(trimmed(all[i]), q));
    }
    if (forall|i: int|
        0 <= i < value.len() ==> 32 <= #[trigger] value[i] <= 126 || value[i] == 9) && exists|i: int|

        0 <= i < all.len() && ({
            let candidate = trimmed(#[trigger] all[i]);
            ||| candidate == "*"@
            ||| candidate == q
            ||| candidate == "W/"@ + q
        }) {
        let i = choose|i: int|
            0 <= i < all.len() && ({
                let candidate = trimmed(#[trigger] all[i]);
                ||| candidate == "*"@
                ||| candidate == q
                ||| candidate == "W/"@ + q
            });
        assert(stands_for(trimmed(all[i]), q));
    }
}

/// A client that names the validators of other pages only, weak or strong, is
/// sent the page.
pub proof fn another_validator_is_not_good(value: Seq<u8>, digest: Seq<u8>)
    requires
        forall|i: int|
            0 <= i < pieces(header_text(value), ',').len() ==> exists|other: Seq<u8>|
                other != digest && (trimmed(#[trigger] pieces(header_text(value), ',')[i])
                    == #[trigger] quoted(other) || trimmed(pieces(header_text(value), ',')[i])
                    == "W/"@ + quoted(other)),
    ensures
        !names_etag(value, quoted(digest)),
{
    what_names_a_validator(value, header_text(value), digest);
    reveal_strlit("*");
    reveal_strlit("W/");
    let all = pieces(header_text(value), ',');
    let q = quoted(digest);
    assert forall|i: int| 0 <= i < all.len() implies ({
        let candidate = trimmed(#[trigger] all[i]);
        &&& candidate != "*"@
        &&& candidate != q
        &&& candidate != "W/"@ + q
    }) by {
        let candidate = trimmed(all[i]);
        let other = choose|other: Seq<u8>|
            other != digest && (candidate == #[trigger] quoted(other) || candidate == "W/"@
                + quoted(other));
        let o = quoted(other);
        if o == q {
            a_validator_names_one_digest(other, digest);
        }
        assert(o[0] == '"' && q[0] == '"' && o.len() >= 2 && q.len() >= 2);
        assert(("W/"@ + o)[0] == 'W' && ("W/"@ + q)[0] == 'W');
        assert(("W/"@ + o).skip(2) =~= o);
        assert(("W/"@ + q).skip(2) =~= q);
    }
}

/// A client that names one validator alone, weak or strong, is told that its
/// page is still good exactly when it is this page's.
pub proof fn only_the_same_validator_is_good(value: Seq<u8>, named: Seq<u8>, digest: Seq<u8>)
    requires
        header_text(value) == quoted(named) || header_text(value) == "W/"@ + quoted(named),
    ensures
        names_etag(value, quoted(digest)) <==> named == digest,
{
    reveal_strlit("W/");
    assert("W/"@ =~= seq!['W', '/']);
    if named == digest {
        a_named_validator_is_still_good(value, digest);
    } else {
        let text = header_text(value);
        let q = quoted(named);
        assert forall|i: int| 0 <= i < text.len() implies #[trigger] text[i] != ',' && !blank(
            text[i],
        ) by {
            let k = if text == q { i } else { i - 2 };
            if k >= 0 {
                assert(text[i] == q[k]);
                if 0 < k < q.len() - 1 {
                    assert(q[k] == hex_text(named)[k - 1]);
                }
            }
        }
        lemma_first_index(text, ',');
        assert(pieces(text, ',') =~= seq![text]);
        assert(trimmed(text) == text);
        assert forall|i: int| 0 <= i < pieces(text, ',').len() implies exists|other: Seq<u8>|
            other != digest && (trimmed(#[trigger] pieces(text, ',')[i]) == #[trigger] quoted(other)
                || trimmed(pieces(text, ',')[i]) == "W/"@ + quoted(other)) by {
            assert(named != digest && (trimmed(pieces(text, ',')[i]) == quoted(named) || trimmed(
                pieces(text, ',')[i],
            ) == "W/"@ + quoted(named)));
        }
        another_validator_is_not_good(value, digest);
    }
}

/// A request without the header never finds its page still good; one with it
/// does when it names the page's validator.
pub proof fn when_a_page_is_still_good(value: &Vec<u8>, etag: Seq<char>)
    ensures
        !still_good(None, etag),
        still_good(Some(value), etag) <==> names_etag(value@, etag),
{
}

/// What the validator of a page is a digest of, spelled out.
pub proof fn what_a_validator_covers(params: ListParams, inputs: EtagInputs)
    requires
        params.fault() is None,
    ensures
        page_etag(params, inputs) == quoted(
            sha256(
                encode_utf8(
                    "chimely-inbox-v2|"@ + (match params.cursor {
                        Some(c) => c@,
                        None => Seq::empty(),
                    }) + "|"@ + signed_decimal(
                        match params.limit {
                            Some(n) => n as int,
                            None => 20,
                        },
                    ) + "|"@ + (match params.filter {
                        Some(f) => f@,
                        None => "default"@,
                    }) + "|"@ + signed_decimal(inputs.counters_updated_at as int) + "|"@
                        + instant_text(inputs.prefs_updated_at) + "|"@ + instant_text(
                        inputs.latest_direct_at,
                    ) + "/"@ + id_text(inputs.latest_direct_id) + "|"@ + instant_text(
                        inputs.latest_broadcast_at,
                    ) + "/"@ + id_text(inputs.latest_broadcast_id),
                ),
            ),
        ),
{
    reveal_strlit("|");
    reveal_strlit("/");
    assert("|"@ =~= seq!['|']);
    assert("/"@ =~= seq!['/']);
    let cursor = match params.cursor {
        Some(c) => c@,
        None => Seq::empty(),
    };
    let limit = signed_decimal(
        match params.limit {
            Some(n) => n as int,
            None => 20,
        },
    );
    let view = match params.filter {
        Some(f) => f@,
        None => "default"@,
    };
    assert(params.cursor_text() == cursor);
    assert(signed_decimal(params.page_size() as int) == limit);
    assert(params.view_named()->0.text() == view);
    let at = signed_decimal(inputs.counters_updated_at as int);
    let prefs = instant_text(inputs.prefs_updated_at);
    let (direct, direct_id) = (
        instant_text(inputs.latest_direct_at),
        id_text(inputs.latest_direct_id),
    );
    let (wide, wide_id) = (
        instant_text(inputs.latest_broadcast_at),
        id_text(inputs.latest_broadcast_id),
    );
    let f1 = field(wide, '/', wide_id);
    let f2 = field(direct_id, '|', f1);
    let f3 = field(direct, '/', f2);
    let f4 = field(prefs, '|', f3);
    let f5 = field(at, '|', f4);
    let f6 = field(view, '|', f5);
    let f7 = field(limit, '|', f6);
    let p0 = "chimely-inbox-v2|"@;
    assert(page_message(params, inputs) == p0 + field(cursor, '|', f7));
    lemma_field_flat(p0, cursor, '|', f7);
    let p1 = p0 + cursor + "|"@;
    lemma_field_flat(p1, limit, '|', f6);
    let p2 = p1 + limit + "|"@;
    lemma_field_flat(p2, view, '|', f5);
    let p3 = p2 + view + "|"@;
    lemma_field_flat(p3, at, '|', f4);
    let p4 = p3 + at + "|"@;
    lemma_field_flat(p4, prefs, '|', f3);
    let p5 = p4 + prefs + "|"@;
    lemma_field_flat(p5, direct, '/', f2);
    let p6 = p5 + direct + "/"@;
    lemma_field_flat(p6, direct_id, '|', f1);
    let p7 = p6 + direct_id + "|"@;
    lemma_field_flat(p7, wide, '/', wide_id);
}

proof fn lemma_field_flat(before: Seq<char>, head: Seq<char>, separator: char, rest: Seq<char>)
    ensures
        before + field(head, separator, rest) == before + head + seq![separator] + rest,
{
    assert(before + field(head, separator, rest) =~= before + head + seq![separator] + rest);
}

/// An optional value is covered as a debugger would print it.
pub proof fn how_an_optional_value_is_covered(t: i64, id: u128)
    ensures
        instant_text(None) == "None"@,
        instant_text(Some(t)) == "Some("@ + signed_decimal(t as int) + ")"@,
        id_text(None) == "None"@,
        id_text(Some(id)) == "Some("@ + u128_hyphenated(id) + ")"@,
{
}

/// The latest key up to an instant is one of the keys, and every other key up
/// to that instant is earlier or, at the same instant, of a lower id. There is
/// none exactly when every key is later.
pub proof fn what_the_latest_key_is(
    r: Option<(i64, u128)>,
    keys: Seq<(i64, u128)>,
    upto: i64,
    i: int,
)
    requires
        is_latest(r, keys, upto),
        0 <= i < keys.len(),
    ensures
        r matches Some(x) ==> keys.contains(x) && x.0 <= upto && (keys[i].0 <= upto ==> keys[i].0
            < x.0 || (keys[i].0 == x.0 && keys[i].1 <= x.1)),
        r is None ==> keys[i].0 > upto,
        r matches Some(x) ==> key_at(r) == Some(x.0) && key_id(r) == Some(x.1),
        r is None ==> key_at(r) is None && key_id(r) is None,
{
    if let Some(x) = r {
        if keys[i].0 <= upto {
            assert(!later(keys[i], x));
        }
    }
}

/// The greatest instant is one of the instants and no instant exceeds it.
/// There is none exactly when there are no instants.
pub proof fn what_the_greatest_instant_is(r: Option<i64>, instants: Seq<i64>, i: int)
    requires
        is_greatest(r, instants),
    ensures
        r is None <==> instants.len() == 0,
        r matches Some(x) ==> instants.contains(x),
        r is Some && 0 <= i < instants.len() ==> instants[i] <= r->0,
{
}

/// A list request is accepted exactly when its page size is from 1 to 100, its
/// view is unnamed, `unread` or `archived`, and its cursor, if it has one, is
/// one. It is refused for the first of these that fails.
pub proof fn what_list_request_is_accepted(p: ListParams)
    ensures
        p.fault() is None <==> (p.limit matches Some(n) ==> 1 <= n <= 100) && (
        p.filter matches Some(f) ==> f@ == "unread"@ || f@ == "archived"@) && (
        p.cursor matches Some(c) ==> cursor_value(c@) is Some),
        p.limit matches Some(n) ==> (n < 1 || n > 100) ==> p.fault() == Some(
            "limit must be between 1 and 100"@,
        ),
        (p.limit matches Some(n) ==> 1 <= n <= 100) && (p.filter matches Some(f) && f@
            != "unread"@ && f@ != "archived"@) ==> p.fault() == Some("unknown filter"@),
        (p.limit matches Some(n) ==> 1 <= n <= 100) && (p.filter matches Some(f) ==> f@
            == "unread"@ || f@ == "archived"@) && (p.cursor matches Some(c) && cursor_value(
            c@,
        ) is None) ==> p.fault() == Some("malformed cursor"@),
{
}

/// The window of an accepted request: 20 rows unless it says otherwise, the
/// default view unless it names another, from its cursor on or else from the
/// newest row on.
pub proof fn what_window_a_request_asks_for(p: ListParams, ts: i64, id: u128)
    requires
        p.fault() is None,
    ensures
        p.limit is None ==> p.window().limit == 20,
        p.limit matches Some(n) ==> p.window().limit == n,
        p.filter is None ==> p.window().filter is Default,
        p.filter matches Some(f) ==> (p.window().filter is Unread <==> f@ == "unread"@) && (
        p.window().filter is Archived <==> f@ == "archived"@),
        p.cursor matches Some(c) ==> cursor_value(c@) == Some(
            (p.window().cursor_ts, p.window().cursor_id),
        ),
        p.cursor is None && ts <= MAX_MICROS && id < u128::MAX ==> p.window().below(ts, id),
{
    reveal_strlit("unread");
    reveal_strlit("archived");
    assert("unread"@.len() != "archived"@.len());
}

/// How a page may be kept: by the client alone, and never without asking.
pub proof fn how_a_page_may_be_kept()
    ensures
        CACHE_CONTROL@ == "private, max-age=0"@,
{
}

/// A cursor is the Base64 of an integer, a colon and an identifier: it holds
/// an instant and an id exactly when what stands before its first colon reads
/// as an instant that the calendar has and what stands behind it as an
/// identifier.
pub proof fn what_a_cursor_holds(
    cursor: Seq<char>,
    before: Seq<char>,
    behind: Seq<char>,
    ts: i64,
    id: u128,
)
    requires
        forall|i: int| 0 <= i < before.len() ==> #[trigger] before[i] != ':',
        cursor == base64url(encode_utf8(before + ":"@ + behind)),
    ensures
        cursor_value(cursor) == Some((ts, id)) <==> integer_value(before) == Some(ts) && uuid_value(
            behind,
        ) == Some(id) && MIN_MICROS <= ts <= MAX_MICROS,
{
    reveal_strlit(":");
    assert(":"@ =~= seq![':']);
    let raw = before + ":"@ + behind;
    lemma_cursor_value(cursor, raw);
    lemma_first_index(raw, ':');
    let k = first_index(raw, ':');
    assert(raw[before.len() as int] == ':');
    if k < before.len() {
        assert(raw[k] == before[k]);
    }
    assert(k == before.len());
    assert(raw.take(k) =~= before);
    assert(raw.skip(k + 1) =~= behind);
}

/// A text without a colon, or one that is no Base64 of a text, is no cursor.
pub proof fn what_is_no_cursor(cursor: Seq<char>, raw: Seq<char>)
    ensures
        (forall|text: Seq<char>| cursor != base64url(#[trigger] encode_utf8(text))) ==> cursor_value(
            cursor,
        ) is None,
        cursor == base64url(encode_utf8(raw)) && (forall|i: int|
            0 <= i < raw.len() ==> #[trigger] raw[i] != ':') ==> cursor_value(cursor) is None,
{
    if forall|text: Seq<char>| cursor != base64url(#[trigger] encode_utf8(text)) {
        assert forall|text: Seq<char>| !holds_text(cursor, text) by {
            assert(cursor != base64url(encode_utf8(text)));
        }
    }
    if cursor == base64url(encode_utf8(raw)) && (forall|i: int|
        0 <= i < raw.len() ==> #[trigger] raw[i] != ':') {
        lemma_cursor_value(cursor, raw);
        lemma_first_index(raw, ':');
    }
}

/// The text inside the cursor after an item: its instant in microseconds, a
/// colon and the digits of its id.
pub proof fn what_a_cursor_is_made_of(ts: i64, id: u128)
    ensures
        cursor_text(ts, id) == signed_decimal(ts as int) + ":"@ + u128_hex(id),
{
    reveal_strlit(":");
    assert(cursor_text(ts, id) =~= signed_decimal(ts as int) + ":"@ + u128_hex(id));
}

} // verus!
