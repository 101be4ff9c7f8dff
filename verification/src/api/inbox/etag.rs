//! The strong validator of a page: everything that can change the page moves
//! at least one of its inputs.

use vstd::prelude::*;
use vstd::utf8::encode_utf8;
use super::list::InboxFilter;
use crate::encoding::identifier_text_round_trips;
use crate::outside::{hex_encode, sha256, sha256_digest, uuid_hyphenated};
use crate::text::{
    decimal, field, hex_text, integer_text_round_trips, is_digit, lemma_decimal, lemma_field,
    lemma_u128_hyphenated, push_integer, signed_decimal, u128_hyphenated,
};

verus! {

/// What a page depends on besides the request.
#[derive(Clone, Copy, Debug, PartialEq, Eq)]
pub struct EtagInputs {
    /// Moved by every change of read, seen or archive state.
    pub counters_updated_at: i64,
    /// The latest change of a preference.
    pub prefs_updated_at: Option<i64>,
    /// The latest visible direct item: a scheduled one moves it by becoming
    /// visible.
    pub latest_direct_at: Option<i64>,
    pub latest_direct_id: Option<u128>,
    /// The latest broadcast of the environment.
    pub latest_broadcast_at: Option<i64>,
    pub latest_broadcast_id: Option<u128>,
}

/// Later in the order of the list.
pub open spec fn later(a: (i64, u128), b: (i64, u128)) -> bool {
    a.0 > b.0 || (a.0 == b.0 && a.1 > b.1)
}

/// `r` is the latest key of `keys` that is no later than `upto`.
pub open spec fn is_latest(r: Option<(i64, u128)>, keys: Seq<(i64, u128)>, upto: i64) -> bool {
    match r {
        None => forall|i: int| 0 <= i < keys.len() ==> (#[trigger] keys[i]).0 > upto,
        Some(x) => {
            &&& keys.contains(x) && x.0 <= upto
            &&& forall|i: int|
                0 <= i < keys.len() && (#[trigger] keys[i]).0 <= upto ==> !later(keys[i], x)
        },
    }
}

fn latest(keys: &Vec<(i64, u128)>, upto: i64) -> (r: Option<(i64, u128)>)
    ensures
        is_latest(r, keys@, upto),
{
    let mut r: Option<(i64, u128)> = None;
    let mut i: usize = 0;
    while i < keys.len()
        invariant
            i <= keys.len(),
            is_latest(r, keys@.take(i as int), upto),
        decreases keys.len() - i,
    {
        let k: (i64, u128) = keys[i];
        let ghost t = keys@.take(i + 1);
        let ghost before = keys@.take(i as int);
        let better: bool = k.0 <= upto && match r {
            None => true,
            Some(x) => k.0 > x.0 || (k.0 == x.0 && k.1 > x.1),
        };
        proof {
            assert(t =~= before.push(k));
            assert(t[i as int] == k);
            assert(forall|j: int| 0 <= j < i ==> t[j] == before[j]);
            if r is Some {
                let j = choose|j: int| 0 <= j < before.len() && before[j] == r->0;
                assert(t[j] == r->0);
            }
        }
        if better {
            r = Some(k);
        }
        i = i + 1;
    }
    proof {
        assert(keys@.take(i as int) =~= keys@);
    }
    r
}

/// `r` is the greatest of `instants`.
pub open spec fn is_greatest(r: Option<i64>, instants: Seq<i64>) -> bool {
    match r {
        None => instants.len() == 0,
        Some(x) => instants.contains(x) && forall|i: int|
            0 <= i < instants.len() ==> #[trigger] instants[i] <= x,
    }
}

fn greatest(instants: &Vec<i64>) -> (r: Option<i64>)
    ensures
        is_greatest(r, instants@),
{
    let mut r: Option<i64> = None;
    let mut i: usize = 0;
    while i < instants.len()
        invariant
            i <= instants.len(),
            is_greatest(r, instants@.take(i as int)),
        decreases instants.len() - i,
    {
        let t: i64 = instants[i];
        let ghost before = instants@.take(i as int);
        let ghost now = instants@.take(i + 1);
        proof {
            assert(now =~= before.push(t));
            assert(now[i as int] == t);
            assert(forall|j: int| 0 <= j < i ==> now[j] == before[j]);
            if r is Some {
                let j = choose|j: int| 0 <= j < before.len() && before[j] == r->0;
                assert(now[j] == r->0);
            }
        }
        let better: bool = match r {
            None => true,
            Some(x) => t > x,
        };
        if better {
            r = Some(t);
        }
        i = i + 1;
    }
    proof {
        assert(instants@.take(i as int) =~= instants@);
    }
    r
}

/// The first part of a key.
pub open spec fn key_at(k: Option<(i64, u128)>) -> Option<i64> {
    match k {
        Some(x) => Some(x.0),
        None => None,
    }
}

/// The second part of a key.
pub open spec fn key_id(k: Option<(i64, u128)>) -> Option<u128> {
    match k {
        Some(x) => Some(x.1),
        None => None,
    }
}

/// What a page depends on, read from the rows: the instants at which the
/// subscriber's preferences changed, the keys `(visible_at, id)` of the
/// subscriber's notifications, and the keys `(created_at, id)` of the
/// environment's broadcasts. A notification later than `now` is not visible
/// yet.
pub fn etag_inputs(
    now: i64,
    counters_updated_at: i64,
    prefs_updated_at: &Vec<i64>,
    notifications: &Vec<(i64, u128)>,
    broadcasts: &Vec<(i64, u128)>,
) -> (r: EtagInputs)
    ensures
        r.counters_updated_at == counters_updated_at,
        is_greatest(r.prefs_updated_at, prefs_updated_at@),
        exists|d: Option<(i64, u128)>| #[trigger]
            is_latest(d, notifications@, now) && r.latest_direct_at == key_at(d)
                && r.latest_direct_id == key_id(d),
        exists|b: Option<(i64, u128)>| #[trigger]
            is_latest(b, broadcasts@, i64::MAX) && r.latest_broadcast_at == key_at(b)
                && r.latest_broadcast_id == key_id(b),
        r.latest_direct_at is Some <==> r.latest_direct_id is Some,
        r.latest_direct_at is Some ==> notifications@.contains(
            (r.latest_direct_at->0, r.latest_direct_id->0),
        ) && r.latest_direct_at->0 <= now,
        forall|i: int|
            0 <= i < notifications@.len() && (#[trigger] notifications@[i]).0 <= now
                ==> r.latest_direct_at is Some && (notifications@[i].0 < r.latest_direct_at->0 || (
            notifications@[i].0 == r.latest_direct_at->0 && notifications@[i].1
                <= r.latest_direct_id->0)),
        r.latest_broadcast_at is Some <==> r.latest_broadcast_id is Some,
        r.latest_broadcast_at is Some ==> broadcasts@.contains(
            (r.latest_broadcast_at->0, r.latest_broadcast_id->0),
        ),
        r.latest_broadcast_at is None <==> broadcasts@.len() == 0,
        forall|i: int|
            0 <= i < broadcasts@.len() ==> (#[trigger] broadcasts@[i]).0 < r.latest_broadcast_at->0
                || (broadcasts@[i].0 == r.latest_broadcast_at->0 && broadcasts@[i].1
                <= r.latest_broadcast_id->0),
        r.prefs_updated_at is None <==> prefs_updated_at@.len() == 0,
        r.prefs_updated_at matches Some(t) ==> prefs_updated_at@.contains(t) && forall|i: int|
            0 <= i < prefs_updated_at@.len() ==> #[trigger] prefs_updated_at@[i] <= t,
{
    let d: Option<(i64, u128)> = latest(notifications, now);
    let b: Option<(i64, u128)> = latest(broadcasts, i64::MAX);
    let prefs: Option<i64> = greatest(prefs_updated_at);
    let (latest_direct_at, latest_direct_id): (Option<i64>, Option<u128>) = match d {
        Some(k) => (Some(k.0), Some(k.1)),
        None => (None, None),
    };
    let (latest_broadcast_at, latest_broadcast_id): (Option<i64>, Option<u128>) = match b {
        Some(k) => (Some(k.0), Some(k.1)),
        None => (None, None),
    };
    proof {
        if broadcasts@.len() > 0 {
            assert(broadcasts@[0].0 <= i64::MAX);
        }
    }
    EtagInputs {
        counters_updated_at,
        prefs_updated_at: prefs,
        latest_direct_at,
        latest_direct_id,
        latest_broadcast_at,
        latest_broadcast_id,
    }
}

/// An optional instant, as it is hashed.
pub open spec fn instant_text(t: Option<i64>) -> Seq<char> {
    match t {
        Some(v) => "Some("@ + signed_decimal(v as int) + ")"@,
        None => "None"@,
    }
}

/// An optional identifier, as it is hashed.
pub open spec fn id_text(id: Option<u128>) -> Seq<char> {
    match id {
        Some(v) => "Some("@ + u128_hyphenated(v) + ")"@,
        None => "None"@,
    }
}

/// The cursor of the request, empty when there is none.
pub open spec fn cursor_part(cursor: Option<&str>) -> Seq<char> {
    match cursor {
        Some(c) => c@,
        None => Seq::empty(),
    }
}

/// The part of the message that covers the rows.
pub open spec fn rows_message(inputs: EtagInputs) -> Seq<char> {
    field(
        signed_decimal(inputs.counters_updated_at as int),
        '|',
        field(
            instant_text(inputs.prefs_updated_at),
            '|',
            field(
                instant_text(inputs.latest_direct_at),
                '/',
                field(
                    id_text(inputs.latest_direct_id),
                    '|',
                    field(
                        instant_text(inputs.latest_broadcast_at),
                        '/',
                        id_text(inputs.latest_broadcast_id),
                    ),
                ),
            ),
        ),
    )
}

/// The message that the validator is the digest of.
pub open spec fn etag_message(
    cursor: Seq<char>,
    limit: i64,
    filter: InboxFilter,
    inputs: EtagInputs,
) -> Seq<char> {
    "chimely-inbox-v2|"@ + field(
        cursor,
        '|',
        field(signed_decimal(limit as int), '|', field(filter.text(), '|', rows_message(inputs))),
    )
}

/// A digest as an entity tag: lower-case hexadecimal in double quotes.
pub open spec fn quoted(digest: Seq<u8>) -> Seq<char> {
    seq!['"'] + hex_text(digest) + seq!['"']
}

fn push_instant(out: &mut String, t: Option<i64>)
    ensures
        final(out)@ == old(out)@ + instant_text(t),
{
    match t {
        Some(v) => {
            out.append("Some(");
            push_integer(out, v);
            out.append(")");
            proof {
                assert(out@ =~= old(out)@ + instant_text(t));
            }
        },
        None => out.append("None"),
    }
}

fn push_id(out: &mut String, id: Option<u128>)
    ensures
        final(out)@ == old(out)@ + id_text(id),
{
    match id {
        Some(v) => {
            let text: String = uuid_hyphenated(v);
            out.append("Some(");
            out.append(text.as_str());
            out.append(")");
            proof {
                assert(out@ =~= old(out)@ + id_text(id));
            }
        },
        None => out.append("None"),
    }
}

proof fn lemma_field_written(
    before: Seq<char>,
    head: Seq<char>,
    separator: char,
    rest: Seq<char>,
)
    ensures
        before + field(head, separator, rest) == (before + head).push(separator) + rest,
{
    assert(before + field(head, separator, rest) =~= (before + head).push(separator) + rest);
}

fn push_rows(m: &mut String, inputs: &EtagInputs)
    ensures
        final(m)@ == old(m)@ + rows_message(*inputs),
{
    let ghost d4 = field(
        instant_text(inputs.latest_broadcast_at),
        '/',
        id_text(inputs.latest_broadcast_id),
    );
    let ghost d3 = field(id_text(inputs.latest_direct_id), '|', d4);
    let ghost d2 = field(instant_text(inputs.latest_direct_at), '/', d3);
    let ghost d1 = field(instant_text(inputs.prefs_updated_at), '|', d2);
    proof {
        lemma_field_written(m@, signed_decimal(inputs.counters_updated_at as int), '|', d1);
    }
    push_integer(m, inputs.counters_updated_at);
    m.push('|');
    proof {
        lemma_field_written(m@, instant_text(inputs.prefs_updated_at), '|', d2);
    }
    push_instant(m, inputs.prefs_updated_at);
    m.push('|');
    proof {
        lemma_field_written(m@, instant_text(inputs.latest_direct_at), '/', d3);
    }
    push_instant(m, inputs.latest_direct_at);
    m.push('/');
    proof {
        lemma_field_written(m@, id_text(inputs.latest_direct_id), '|', d4);
    }
    push_id(m, inputs.latest_direct_id);
    m.push('|');
    proof {
        lemma_field_written(
            m@,
            instant_text(inputs.latest_broadcast_at),
            '/',
            id_text(inputs.latest_broadcast_id),
        );
    }
    push_instant(m, inputs.latest_broadcast_at);
    m.push('/');
    push_id(m, inputs.latest_broadcast_id);
}

fn message(cursor: Option<&str>, limit: i64, filter: InboxFilter, inputs: &EtagInputs) -> (r:
    String)
    ensures
        r@ == etag_message(cursor_part(cursor), limit, filter, *inputs),
{
    let ghost d2 = field(filter.text(), '|', rows_message(*inputs));
    let ghost d1 = field(signed_decimal(limit as int), '|', d2);
    let mut m: String = String::new();
    m.append("chimely-inbox-v2|");
    proof {
        assert(m@ =~= "chimely-inbox-v2|"@);
        lemma_field_written(m@, cursor_part(cursor), '|', d1);
    }
    match cursor {
        Some(c) => m.append(c),
        None => {
            proof {
                assert(m@ =~= m@ + cursor_part(cursor));
            }
        },
    }
    m.push('|');
    proof {
        lemma_field_written(m@, signed_decimal(limit as int), '|', d2);
    }
    push_integer(&mut m, limit);
    m.push('|');
    proof {
        lemma_field_written(m@, filter.text(), '|', rows_message(*inputs));
    }
    m.append(filter.as_str());
    m.push('|');
    push_rows(&mut m, inputs);
    m
}

/// The digest as an entity tag.
pub fn quote_digest(digest: &Vec<u8>) -> (r: String)
    requires
        2 * digest@.len() <= isize::MAX,
    ensures
        r@ == quoted(digest@),
{
    let hex: String = hex_encode(digest);
    let mut r: String = String::new();
    r.push('"');
    r.append(hex.as_str());
    r.push('"');
    proof {
        assert(r@ =~= quoted(digest@));
    }
    r
}

/// The validator over the request and the rows that a page depends on.
pub fn compute_etag(
    cursor: Option<&str>,
    limit: i64,
    filter: InboxFilter,
    inputs: &EtagInputs,
) -> (r: String)
    ensures
        r@ == quoted(
            sha256(encode_utf8(etag_message(cursor_part(cursor), limit, filter, *inputs))),
        ),
        r@.len() == 66,
{
    let m: String = message(cursor, limit, filter, inputs);
    let digest: Vec<u8> = sha256_digest(m.as_str());
    quote_digest(&digest)
}

/// Holds no separator.
pub open spec fn is_plain(s: Seq<char>) -> bool {
    forall|i: int| 0 <= i < s.len() ==> #[trigger] s[i] != '|' && s[i] != '/'
}

proof fn lemma_signed_decimal_is_plain(v: i64)
    ensures
        is_plain(signed_decimal(v as int)),
{
    let m = if v < 0 { (-(v as int)) as nat } else { v as nat };
    let d = signed_decimal(v as int);
    lemma_decimal(m);
    assert forall|i: int| 0 <= i < d.len() implies #[trigger] d[i] != '|' && d[i] != '/' by {
        if v < 0 {
            if i > 0 {
                assert(is_digit(decimal(m)[i - 1]));
            }
        } else {
            assert(is_digit(decimal(m)[i]));
        }
    }
}

proof fn lemma_instant_text(a: Option<i64>)
    ensures
        is_plain(instant_text(a)),
{
    reveal_strlit("Some(");
    reveal_strlit(")");
    reveal_strlit("None");
    if let Some(v) = a {
        lemma_signed_decimal_is_plain(v);
        let d = signed_decimal(v as int);
        assert forall|i: int| 0 <= i < instant_text(a).len() implies #[trigger] instant_text(a)[i]
            != '|' && instant_text(a)[i] != '/' by {
            if 5 <= i < 5 + d.len() {
                assert(instant_text(a)[i] == d[i - 5]);
            }
        }
    }
}

proof fn lemma_instant_text_differs(a: Option<i64>, b: Option<i64>)
    requires
        instant_text(a) == instant_text(b),
    ensures
        a == b,
{
    reveal_strlit("Some(");
    reveal_strlit(")");
    reveal_strlit("None");
    match (a, b) {
        (Some(v), Some(w)) => {
            let d = signed_decimal(v as int);
            let e = signed_decimal(w as int);
            assert(instant_text(a) == "Some("@ + d + ")"@);
            assert(instant_text(b) == "Some("@ + e + ")"@);
            assert(d.len() == e.len());
            assert(d =~= instant_text(a).subrange(5, 5 + d.len() as int));
            assert(e =~= instant_text(b).subrange(5, 5 + e.len() as int));
            integer_text_round_trips(v);
            integer_text_round_trips(w);
        },
        (Some(v), None) => {
            assert(instant_text(a)[0] == 'S');
        },
        (None, Some(w)) => {
            assert(instant_text(b)[0] == 'S');
        },
        (None, None) => {},
    }
}

proof fn lemma_id_text(a: Option<u128>)
    ensures
        is_plain(id_text(a)),
{
    reveal_strlit("Some(");
    reveal_strlit(")");
    reveal_strlit("None");
    if let Some(v) = a {
        lemma_u128_hyphenated(v);
        let d = u128_hyphenated(v);
        assert forall|i: int| 0 <= i < id_text(a).len() implies #[trigger] id_text(a)[i] != '|'
            && id_text(a)[i] != '/' by {
            if 5 <= i < 5 + d.len() {
                assert(id_text(a)[i] == d[i - 5]);
            }
        }
    }
}

proof fn lemma_id_text_differs(a: Option<u128>, b: Option<u128>)
    requires
        id_text(a) == id_text(b),
    ensures
        a == b,
{
    reveal_strlit("Some(");
    reveal_strlit(")");
    reveal_strlit("None");
    match (a, b) {
        (Some(v), Some(w)) => {
            let d = u128_hyphenated(v);
            let e = u128_hyphenated(w);
            assert(d =~= id_text(a).subrange(5, 5 + d.len() as int));
            assert(e =~= id_text(b).subrange(5, 5 + e.len() as int));
            identifier_text_round_trips(v);
            identifier_text_round_trips(w);
        },
        (Some(v), None) => {
            assert(id_text(a)[0] == 'S');
        },
        (None, Some(w)) => {
            assert(id_text(b)[0] == 'S');
        },
        (None, None) => {},
    }
}

proof fn lemma_rows_message(a: EtagInputs, b: EtagInputs)
    requires
        rows_message(a) == rows_message(b),
    ensures
        a == b,
{
    let (a4, b4) = (
        field(instant_text(a.latest_broadcast_at), '/', id_text(a.latest_broadcast_id)),
        field(instant_text(b.latest_broadcast_at), '/', id_text(b.latest_broadcast_id)),
    );
    let (a3, b3) = (
        field(id_text(a.latest_direct_id), '|', a4),
        field(id_text(b.latest_direct_id), '|', b4),
    );
    let (a2, b2) = (
        field(instant_text(a.latest_direct_at), '/', a3),
        field(instant_text(b.latest_direct_at), '/', b3),
    );
    let (a1, b1) = (
        field(instant_text(a.prefs_updated_at), '|', a2),
        field(instant_text(b.prefs_updated_at), '|', b2),
    );
    lemma_signed_decimal_is_plain(a.counters_updated_at);
    lemma_signed_decimal_is_plain(b.counters_updated_at);
    lemma_field(
        signed_decimal(a.counters_updated_at as int),
        a1,
        signed_decimal(b.counters_updated_at as int),
        b1,
        '|',
    );
    integer_text_round_trips(a.counters_updated_at);
    integer_text_round_trips(b.counters_updated_at);
    lemma_instant_text(a.prefs_updated_at);
    lemma_instant_text(b.prefs_updated_at);
    lemma_field(instant_text(a.prefs_updated_at), a2, instant_text(b.prefs_updated_at), b2, '|');
    lemma_instant_text_differs(a.prefs_updated_at, b.prefs_updated_at);
    lemma_instant_text(a.latest_direct_at);
    lemma_instant_text(b.latest_direct_at);
    lemma_field(instant_text(a.latest_direct_at), a3, instant_text(b.latest_direct_at), b3, '/');
    lemma_instant_text_differs(a.latest_direct_at, b.latest_direct_at);
    lemma_id_text(a.latest_direct_id);
    lemma_id_text(b.latest_direct_id);
    lemma_field(id_text(a.latest_direct_id), a4, id_text(b.latest_direct_id), b4, '|');
    lemma_id_text_differs(a.latest_direct_id, b.latest_direct_id);
    lemma_instant_text(a.latest_broadcast_at);
    lemma_instant_text(b.latest_broadcast_at);
    lemma_field(
        instant_text(a.latest_broadcast_at),
        id_text(a.latest_broadcast_id),
        instant_text(b.latest_broadcast_at),
        id_text(b.latest_broadcast_id),
        '/',
    );
    lemma_instant_text_differs(a.latest_broadcast_at, b.latest_broadcast_at);
    lemma_id_text_differs(a.latest_broadcast_id, b.latest_broadcast_id);
}

proof fn lemma_filter_text(f: InboxFilter, g: InboxFilter)
    ensures
        is_plain(f.text()),
        f.text() == g.text() ==> f == g,
{
    reveal_strlit("default");
    reveal_strlit("unread");
    reveal_strlit("archived");
    assert("default"@[0] == 'd' && "unread"@[0] == 'u' && "archived"@[0] == 'a');
}

/// The message covers every input: two requests with the same message have the
/// same cursor, page size and view, and found the same rows. A cursor holds no
/// separator.
pub proof fn the_validator_covers_every_input(
    cursor_a: Seq<char>,
    limit_a: i64,
    filter_a: InboxFilter,
    a: EtagInputs,
    cursor_b: Seq<char>,
    limit_b: i64,
    filter_b: InboxFilter,
    b: EtagInputs,
)
    requires
        is_plain(cursor_a),
        is_plain(cursor_b),
        etag_message(cursor_a, limit_a, filter_a, a) == etag_message(
            cursor_b,
            limit_b,
            filter_b,
            b,
        ),
    ensures
        cursor_a == cursor_b,
        limit_a == limit_b,
        filter_a == filter_b,
        a == b,
{
    let n = "chimely-inbox-v2|"@.len() as int;
    let (a2, b2) = (
        field(filter_a.text(), '|', rows_message(a)),
        field(filter_b.text(), '|', rows_message(b)),
    );
    let (a1, b1) = (
        field(signed_decimal(limit_a as int), '|', a2),
        field(signed_decimal(limit_b as int), '|', b2),
    );
    assert(etag_message(cursor_a, limit_a, filter_a, a).skip(n) =~= field(cursor_a, '|', a1));
    assert(etag_message(cursor_b, limit_b, filter_b, b).skip(n) =~= field(cursor_b, '|', b1));
    lemma_field(cursor_a, a1, cursor_b, b1, '|');
    lemma_signed_decimal_is_plain(limit_a);
    lemma_signed_decimal_is_plain(limit_b);
    lemma_field(signed_decimal(limit_a as int), a2, signed_decimal(limit_b as int), b2, '|');
    integer_text_round_trips(limit_a);
    integer_text_round_trips(limit_b);
    lemma_filter_text(filter_a, filter_b);
    lemma_filter_text(filter_b, filter_a);
    lemma_field(filter_a.text(), rows_message(a), filter_b.text(), rows_message(b), '|');
    lemma_rows_message(a, b);
}

/// The latest key is determined.
pub proof fn the_latest_item_is_determined(
    a: Option<(i64, u128)>,
    b: Option<(i64, u128)>,
    keys: Seq<(i64, u128)>,
    upto: i64,
)
    requires
        is_latest(a, keys, upto),
        is_latest(b, keys, upto),
    ensures
        a == b,
{
    if let Some(x) = a {
        let i = choose|i: int| 0 <= i < keys.len() && keys[i] == x;
        assert(keys[i].0 <= upto);
        assert(b is Some);
        assert(!later(keys[i], b->0));
    }
    if let Some(y) = b {
        let j = choose|j: int| 0 <= j < keys.len() && keys[j] == y;
        assert(keys[j].0 <= upto);
        assert(a is Some);
        assert(!later(keys[j], a->0));
    }
}

/// A scheduled item that becomes visible moves the latest visible item without
/// any write.
pub proof fn becoming_visible_moves_the_latest_item(
    a: Option<(i64, u128)>,
    b: Option<(i64, u128)>,
    keys: Seq<(i64, u128)>,
    before: i64,
    after: i64,
    i: int,
)
    requires
        is_latest(a, keys, before),
        is_latest(b, keys, after),
        0 <= i < keys.len(),
        before < keys[i].0 <= after,
    ensures
        key_at(a) != key_at(b),
{
    assert(b is Some);
    assert(!later(keys[i], b->0));
}

/// A new item that is visible and later than all before it moves the latest
/// item.
pub proof fn a_new_latest_item_moves_the_latest_item(
    a: Option<(i64, u128)>,
    b: Option<(i64, u128)>,
    keys: Seq<(i64, u128)>,
    upto: i64,
    key: (i64, u128),
)
    requires
        is_latest(a, keys, upto),
        is_latest(b, keys.push(key), upto),
        key.0 <= upto,
        a matches Some(x) ==> later(key, x),
    ensures
        key_at(a) != key_at(b) || key_id(a) != key_id(b),
{
    assert(keys.push(key)[keys.len() as int] == key);
    assert(b is Some);
    assert(!later(key, b->0));
}

} // verus!
