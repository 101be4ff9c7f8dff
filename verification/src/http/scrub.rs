//! Query strings without credentials.
//!
//! `subscriber_hash` is a query-string credential on the live stream and must
//! never reach a log line.

use vstd::prelude::*;
use vstd::utf8::encode_utf8;
use crate::outside::{form_pairs, form_parse, form_serialize};
use crate::text::{lower, same_ignoring_case, same_letters};

verus! {

/// The name of the credential, in any case.
pub const CREDENTIAL: &'static str = "subscriber_hash";

/// What stands in a log line for the credential.
pub const MARKER: &'static str = "redacted";

/// The upper-case hexadecimal digit `d`.
pub open spec fn upper_hex_digit(d: int) -> char {
    if d < 10 {
        (48 + d) as u8 as char
    } else {
        (55 + d) as u8 as char
    }
}

/// A byte that stands for itself.
pub open spec fn stays(b: u8) -> bool {
    ||| 48 <= b <= 57
    ||| 65 <= b <= 90
    ||| 97 <= b <= 122
    ||| b == 42
    ||| b == 45
    ||| b == 46
    ||| b == 95
}

/// One byte of a form-encoded text.
pub open spec fn form_byte(b: u8) -> Seq<char> {
    if stays(b) {
        seq![b as char]
    } else if b == 32 {
        seq!['+']
    } else {
        seq!['%', upper_hex_digit(b as int / 16), upper_hex_digit(b as int % 16)]
    }
}

/// Bytes, form-encoded.
pub open spec fn form_text(bytes: Seq<u8>) -> Seq<char>
    decreases bytes.len(),
{
    if bytes.len() == 0 {
        Seq::empty()
    } else {
        form_text(bytes.drop_last()) + form_byte(bytes.last())
    }
}

/// Names and values.
pub open spec fn pair_views(pairs: Seq<(String, String)>) -> Seq<(Seq<char>, Seq<char>)> {
    pairs.map_values(|p: (String, String)| (p.0@, p.1@))
}

/// Whether a pair of this name carries the credential.
pub open spec fn is_credential(name: Seq<char>) -> bool {
    same_letters(name, CREDENTIAL@)
}

/// A pair, form-encoded.
pub open spec fn form_pair(pair: (Seq<char>, Seq<char>)) -> Seq<char> {
    form_text(encode_utf8(pair.0)).push('=') + form_text(encode_utf8(pair.1))
}

/// Pairs, form-encoded and joined by `&`.
pub open spec fn form_query(pairs: Seq<(Seq<char>, Seq<char>)>) -> Seq<char>
    decreases pairs.len(),
{
    if pairs.len() == 0 {
        Seq::empty()
    } else if pairs.len() == 1 {
        form_pair(pairs[0])
    } else {
        form_query(pairs.drop_last()).push('&') + form_pair(pairs.last())
    }
}

/// A pair with the credential replaced by the marker.
pub open spec fn scrubbed(pair: (Seq<char>, Seq<char>)) -> (Seq<char>, Seq<char>) {
    if is_credential(pair.0) {
        (pair.0, MARKER@)
    } else {
        pair
    }
}

/// The pairs with the credential replaced by the marker.
pub open spec fn scrubbed_pairs(pairs: Seq<(Seq<char>, Seq<char>)>) -> Seq<
    (Seq<char>, Seq<char>),
> {
    pairs.map_values(|pair: (Seq<char>, Seq<char>)| scrubbed(pair))
}

/// The pairs as they are logged: scrubbed and form-encoded.
pub open spec fn logged(pairs: Seq<(Seq<char>, Seq<char>)>) -> Seq<char> {
    form_query(scrubbed_pairs(pairs))
}

fn log_pair(name: &str, value: &str) -> (r: String)
    ensures
        r@ == form_pair(scrubbed((name@, value@))),
{
    let mut r: String = form_serialize(name);
    r.push('=');
    let text: String = if same_ignoring_case(name, CREDENTIAL) {
        form_serialize(MARKER)
    } else {
        form_serialize(value)
    };
    r.append(text.as_str());
    r
}

/// The pairs of a query string as they are logged.
pub fn scrub_pairs(pairs: &Vec<(String, String)>) -> (r: String)
    ensures
        r@ == logged(pair_views(pairs@)),
{
    let ghost all = scrubbed_pairs(pair_views(pairs@));
    let mut r: String = String::new();
    let mut i: usize = 0;
    proof {
        assert(all.take(0) =~= Seq::<(Seq<char>, Seq<char>)>::empty());
        assert(r@ =~= form_query(all.take(0)));
    }
    while i < pairs.len()
        invariant
            i <= pairs.len(),
            all == scrubbed_pairs(pair_views(pairs@)),
            r@ == form_query(all.take(i as int)),
        decreases pairs.len() - i,
    {
        if i > 0 {
            r.push('&');
        }
        let text: String = log_pair(pairs[i].0.as_str(), pairs[i].1.as_str());
        r.append(text.as_str());
        proof {
            let t = all.take(i + 1);
            assert(t.drop_last() =~= all.take(i as int));
            assert(t.last() == all[i as int]);
            if i == 0 {
                assert(t.len() == 1 && t[0] == all[0]);
            }
            assert(r@ =~= form_query(t));
        }
        i = i + 1;
    }
    proof {
        assert(all.take(i as int) =~= all);
    }
    r
}

/// Replaces the `subscriber_hash` value with a fixed marker. The match runs on
/// percent-decoded names and the output is re-encoded. What has been logged is
/// logged unchanged: scrubbing twice is scrubbing once.
pub fn scrub_query(query: &str) -> (r: String)
    ensures
        r@ == logged(form_pairs(query@)),
        forall|pairs: Seq<(Seq<char>, Seq<char>)>| query@ == #[trigger] logged(pairs) ==> r@ == query@,
{
    let pairs: Vec<(String, String)> = form_parse(query);
    proof {
        assert forall|before: Seq<(Seq<char>, Seq<char>)>| query@ == #[trigger] logged(
            before,
        ) implies logged(pair_views(pairs@)) == query@ by {
            assert(query@ == form_query(scrubbed_pairs(before)));
            scrubbing_pairs_twice_is_scrubbing_once(before);
        }
    }
    scrub_pairs(&pairs)
}

/// Pairs whose credential has been replaced are left as they are, and logged
/// as they were.
pub proof fn scrubbing_pairs_twice_is_scrubbing_once(pairs: Seq<(Seq<char>, Seq<char>)>)
    ensures
        scrubbed_pairs(scrubbed_pairs(pairs)) == scrubbed_pairs(pairs),
        logged(scrubbed_pairs(pairs)) == logged(pairs),
{
    assert(scrubbed_pairs(scrubbed_pairs(pairs)) =~= scrubbed_pairs(pairs));
}

/// The credential never reaches the log: queries that differ in nothing but
/// its value are logged alike.
pub proof fn the_credential_is_not_logged(
    a: Seq<(Seq<char>, Seq<char>)>,
    b: Seq<(Seq<char>, Seq<char>)>,
)
    requires
        a.len() == b.len(),
        forall|i: int|
            0 <= i < a.len() ==> (#[trigger] a[i]).0 == b[i].0 && (is_credential(a[i].0) || a[i].1
                == b[i].1),
    ensures
        logged(a) == logged(b),
{
    assert forall|i: int| 0 <= i < a.len() implies #[trigger] scrubbed_pairs(a)[i]
        == scrubbed_pairs(b)[i] by {
        assert(a[i].0 == b[i].0);
    }
    assert(scrubbed_pairs(a) =~= scrubbed_pairs(b));
}

/// A character that a logged query may hold: no blank, no control character,
/// nothing outside ASCII.
pub open spec fn is_safe(c: char) -> bool {
    (stays(c as u8) && c <= '\u{7f}') || c == '+' || c == '%' || c == '=' || c == '&'
}

/// Every character is safe.
pub open spec fn all_safe(s: Seq<char>) -> bool {
    forall|i: int| 0 <= i < s.len() ==> is_safe(#[trigger] s[i])
}

proof fn lemma_form_text_is_safe(bytes: Seq<u8>)
    ensures
        all_safe(form_text(bytes)),
    decreases bytes.len(),
{
    if bytes.len() > 0 {
        lemma_form_text_is_safe(bytes.drop_last());
        let b = bytes.last();
        assert(all_safe(form_byte(b))) by {
            assert forall|i: int| 0 <= i < form_byte(b).len() implies is_safe(
                #[trigger] form_byte(b)[i],
            ) by {
                if stays(b) {
                    assert((b as char) as u8 == b);
                }
            }
        }
    }
}

proof fn lemma_form_query_is_safe(pairs: Seq<(Seq<char>, Seq<char>)>)
    ensures
        all_safe(form_query(pairs)),
    decreases pairs.len(),
{
    if pairs.len() > 0 {
        let last = pairs.last();
        lemma_form_text_is_safe(encode_utf8(last.0));
        lemma_form_text_is_safe(encode_utf8(last.1));
        assert(all_safe(form_pair(last)));
        if pairs.len() > 1 {
            lemma_form_query_is_safe(pairs.drop_last());
        } else {
            assert(pairs[0] == last);
        }
    }
}

/// A logged query holds no raw byte of a name or a value: only letters,
/// digits and a few ASCII marks.
pub proof fn a_logged_query_is_safe(pairs: Seq<(Seq<char>, Seq<char>)>)
    ensures
        all_safe(logged(pairs)),
{
    lemma_form_query_is_safe(scrubbed_pairs(pairs));
}

/// A name is the credential's exactly when it spells it letter for letter,
/// upper or lower case.
pub proof fn what_names_the_credential(name: Seq<char>)
    ensures
        is_credential(name) <==> name.len() == 15 && forall|i: int|
            0 <= i < 15 ==> lower(#[trigger] name[i]) == "subscriber_hash"@[i],
{
    reveal_strlit("subscriber_hash");
    assert forall|i: int| 0 <= i < 15 implies lower(#[trigger] CREDENTIAL@[i]) == CREDENTIAL@[i] by {
    }
    if name.len() == 15 && forall|i: int|
        0 <= i < 15 ==> lower(#[trigger] name[i]) == "subscriber_hash"@[i] {
        assert forall|i: int| 0 <= i < name.len() implies lower(#[trigger] name[i]) == lower(
            CREDENTIAL@[i],
        ) by {
            assert(lower(CREDENTIAL@[i]) == CREDENTIAL@[i]);
        }
    }
    if is_credential(name) {
        assert forall|i: int| 0 <= i < 15 implies lower(#[trigger] name[i])
            == "subscriber_hash"@[i] by {
            assert(lower(CREDENTIAL@[i]) == CREDENTIAL@[i]);
        }
    }
}

/// Scrubbing keeps every pair in its place and every name, replaces the
/// credential's value by the marker and leaves every other value as it is.
pub proof fn what_scrubbing_touches(pairs: Seq<(Seq<char>, Seq<char>)>, i: int)
    requires
        0 <= i < pairs.len(),
    ensures
        scrubbed_pairs(pairs).len() == pairs.len(),
        scrubbed_pairs(pairs)[i].0 == pairs[i].0,
        is_credential(pairs[i].0) ==> scrubbed_pairs(pairs)[i].1 == "redacted"@,
        !is_credential(pairs[i].0) ==> scrubbed_pairs(pairs)[i].1 == pairs[i].1,
{
}

/// What is logged is the pairs themselves but for the credential, whose value
/// reads `redacted`: nothing is left out, added or moved.
pub proof fn what_is_logged(
    pairs: Seq<(Seq<char>, Seq<char>)>,
    shown: Seq<(Seq<char>, Seq<char>)>,
)
    requires
        shown.len() == pairs.len(),
        forall|i: int|
            0 <= i < pairs.len() ==> (#[trigger] shown[i]).0 == pairs[i].0 && (if is_credential(
                pairs[i].0,
            ) {
                shown[i].1 == "redacted"@
            } else {
                shown[i].1 == pairs[i].1
            }),
    ensures
        logged(pairs) == form_query(shown),
{
    assert forall|i: int| 0 <= i < pairs.len() implies #[trigger] scrubbed_pairs(pairs)[i]
        == shown[i] by {
        assert(shown[i].0 == pairs[i].0);
    }
    assert(scrubbed_pairs(pairs) =~= shown);
}

/// A query is its pairs, `name=value`, in order, with `&` between them.
pub proof fn how_a_query_is_written(
    pairs: Seq<(Seq<char>, Seq<char>)>,
    pair: (Seq<char>, Seq<char>),
)
    ensures
        form_query(Seq::empty()) == Seq::<char>::empty(),
        form_query(seq![pair]) == form_pair(pair),
        pairs.len() > 0 ==> form_query(pairs.push(pair)) == form_query(pairs) + "&"@ + form_pair(
            pair,
        ),
        form_pair(pair) == form_text(encode_utf8(pair.0)) + "="@ + form_text(encode_utf8(pair.1)),
{
    reveal_strlit("&");
    reveal_strlit("=");
    assert(pairs.push(pair).drop_last() =~= pairs);
    assert(form_query(pairs).push('&') + form_pair(pair) =~= form_query(pairs) + "&"@ + form_pair(
        pair,
    ));
    assert(form_pair(pair) =~= form_text(encode_utf8(pair.0)) + "="@ + form_text(
        encode_utf8(pair.1),
    ));
}

/// A text is written byte by byte: letters, digits and `*-._` as they are, a
/// space as `+`, every other byte as `%` and two upper-case digits.
pub proof fn how_a_text_is_written(bytes: Seq<u8>, b: u8)
    ensures
        form_text(Seq::empty()) == Seq::<char>::empty(),
        form_text(bytes.push(b)) == form_text(bytes) + form_byte(b),
        ('0' <= b as char <= '9' || 'A' <= b as char <= 'Z' || 'a' <= b as char <= 'z' || b as char
            == '*' || b as char == '-' || b as char == '.' || b as char == '_') ==> form_byte(b)
            == seq![b as char],
        b as char == ' ' ==> form_byte(b) == "+"@,
        !('0' <= b as char <= '9' || 'A' <= b as char <= 'Z' || 'a' <= b as char <= 'z' || b as char
            == '*' || b as char == '-' || b as char == '.' || b as char == '_' || b as char == ' ')
            ==> form_byte(b) == seq![
            '%',
            "0123456789ABCDEF"@[b as int / 16],
            "0123456789ABCDEF"@[b as int % 16],
        ],
{
    reveal_strlit("+");
    reveal_strlit("0123456789ABCDEF");
    assert(bytes.push(b).drop_last() =~= bytes);
    assert("+"@ =~= seq!['+']);
}

} // verus!
