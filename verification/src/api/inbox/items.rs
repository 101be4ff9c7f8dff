//! The list request: its parameters, the conditional answer and the page.

use vstd::prelude::*;
use vstd::utf8::encode_utf8;
use super::cursor::{
    cursor_gives_back_the_keyset, cursor_text, cursor_value, decode_cursor, encode_cursor,
    holds_text,
};
use super::etag::{
    compute_etag, etag_message, is_plain, quoted, the_validator_covers_every_input, EtagInputs,
};
use super::list::{
    is_page, list_items_for, InboxFilter, ListWindow, MergedRow, DEFAULT_PAGE_SIZE, MAX_PAGE_SIZE,
};
use super::pages::{
    a_shorter_page_is_the_head, instants_exist, lemma_listed_instants_exist, lemma_page_row_counts, listed_rows,
    next_window, the_page_size_is_no_part_of_the_view,
};
use super::rows::{Broadcast, Notification, Scope};
use super::shown::the_flags_of_an_item_agree_with_the_view;
use crate::encoding::{base64url, sextet, sextet_char};
use crate::error::{ApiError, ErrorCode};
use crate::ids::{typeid, typeid_text, BROADCAST, NOTIFICATION};
use crate::outside::{
    rfc3339_micros, rfc3339_text, sha256, uuid_hyphenated, MAX_MICROS, MIN_MICROS,
};
use crate::text::{
    blank, chars, find_from, first_index, hex_text, is_hex_digit, lemma_first_index, pieces, same,
    trimmed, u128_hyphenated,
};

verus! {

/// How a page may be cached.
pub const CACHE_CONTROL: &'static str = "private, max-age=0";

/// The query of a list request.
#[derive(Debug)]
pub struct ListParams {
    pub cursor: Option<String>,
    pub limit: Option<i64>,
    pub filter: Option<String>,
}

impl ListParams {
    /// The page size asked for.
    pub open spec fn page_size(self) -> i64 {
        match self.limit {
            Some(n) => n,
            None => DEFAULT_PAGE_SIZE,
        }
    }

    /// The view asked for, if there is one of that name.
    pub open spec fn view_named(self) -> Option<InboxFilter> {
        InboxFilter::named(
            match self.filter {
                Some(s) => Some(s@),
                None => None,
            },
        )
    }

    /// The cursor as it was sent, empty when there is none.
    pub open spec fn cursor_text(self) -> Seq<char> {
        match self.cursor {
            Some(c) => c@,
            None => Seq::empty(),
        }
    }

    /// Where the page starts: after every item when there is no cursor.
    pub open spec fn start(self) -> Option<(i64, u128)> {
        match self.cursor {
            Some(c) => cursor_value(c@),
            None => Some((MAX_MICROS, u128::MAX)),
        }
    }

    /// What is wrong with the request, if anything.
    pub open spec fn fault(self) -> Option<Seq<char>> {
        if !(1 <= self.page_size() <= MAX_PAGE_SIZE) {
            Some("limit must be between 1 and 100"@)
        } else if self.view_named() is None {
            Some("unknown filter"@)
        } else if self.start() is None {
            Some("malformed cursor"@)
        } else {
            None
        }
    }

    /// The window that a request without fault asks for.
    pub open spec fn window(self) -> ListWindow {
        let key = self.start()->0;
        ListWindow {
            cursor_ts: key.0,
            cursor_id: key.1,
            limit: self.page_size(),
            filter: self.view_named()->0,
        }
    }
}

/// The window that a request asks for: page size, view and cursor are checked
/// in this order.
pub fn list_window(params: &ListParams) -> (r: Result<ListWindow, ApiError>)
    ensures
        match r {
            Ok(w) => params.fault() is None && w == params.window(),
            Err(e) => params.fault() is Some && e.is(
                ErrorCode::InvalidRequest,
                params.fault()->0,
            ),
        },
        r matches Ok(w) ==> w.limit == (match params.limit {
            Some(n) => n,
            None => 20,
        }) && 1 <= w.limit <= 100,
        r matches Ok(w) ==> match params.filter {
            None => w.filter is Default,
            Some(f) => (w.filter is Unread && f@ == "unread"@) || (w.filter is Archived && f@
                == "archived"@),
        },
        r matches Ok(w) ==> match params.cursor {
            None => w.cursor_ts == MAX_MICROS && w.cursor_id == u128::MAX,
            Some(c) => cursor_value(c@) == Some((w.cursor_ts, w.cursor_id)),
        },
        r is Ok <==> (params.limit matches Some(n) ==> 1 <= n <= 100) && (
        params.filter matches Some(f) ==> f@ == "unread"@ || f@ == "archived"@) && (
        params.cursor matches Some(c) ==> cursor_value(c@) is Some),
{
    let limit: i64 = match params.limit {
        Some(n) => n,
        None => DEFAULT_PAGE_SIZE,
    };
    if limit < 1 || limit > MAX_PAGE_SIZE {
        return Err(ApiError::bad_request("limit must be between 1 and 100"));
    }
    let named: Option<InboxFilter> = match &params.filter {
        Some(s) => InboxFilter::parse(Some(s.as_str())),
        None => InboxFilter::parse(None),
    };
    let filter: InboxFilter = match named {
        Some(f) => f,
        None => {
            return Err(ApiError::bad_request("unknown filter"));
        },
    };
    let start: Option<(i64, u128)> = match &params.cursor {
        Some(c) => decode_cursor(c.as_str()),
        None => Some((MAX_MICROS, u128::MAX)),
    };
    match start {
        Some((cursor_ts, cursor_id)) => Ok(ListWindow { cursor_ts, cursor_id, limit, filter }),
        None => Err(ApiError::bad_request("malformed cursor")),
    }
}

/// The bucket that limits one subscriber's list requests, shared across
/// replicas.
pub fn rate_limit_key(environment_id: u128, subscriber_id: u128) -> (r: String)
    ensures
        r@ == "sub:"@ + u128_hyphenated(environment_id) + ":"@ + u128_hyphenated(subscriber_id),
{
    let environment: String = uuid_hyphenated(environment_id);
    let subscriber: String = uuid_hyphenated(subscriber_id);
    let mut r: String = "sub:".to_owned();
    r.append(environment.as_str());
    r.append(":");
    r.append(subscriber.as_str());
    r
}

/// A byte that a readable header value may hold.
pub open spec fn is_visible(b: u8) -> bool {
    32 <= b < 127 || b == 9
}

/// A candidate of `If-None-Match` without its weakness mark.
pub open spec fn strong_part(candidate: Seq<char>) -> Seq<char> {
    if candidate.len() >= 2 && candidate[0] == 'W' && candidate[1] == '/' {
        candidate.skip(2)
    } else {
        candidate
    }
}

/// Whether a candidate of `If-None-Match` stands for this validator. The
/// comparison is weak: proxies that recompress responses mark validators weak.
pub open spec fn stands_for(candidate: Seq<char>, etag: Seq<char>) -> bool {
    candidate == seq!['*'] || strong_part(candidate) == etag
}

/// The text of a header value.
pub open spec fn header_text(value: Seq<u8>) -> Seq<char> {
    value.map_values(|b: u8| b as char)
}

/// Whether a readable `If-None-Match` value names this validator among its
/// comma-separated candidates.
pub open spec fn names_etag(value: Seq<u8>, etag: Seq<char>) -> bool {
    &&& forall|i: int| 0 <= i < value.len() ==> is_visible(#[trigger] value[i])
    &&& exists|i: int|
        0 <= i < pieces(header_text(value), ',').len() && stands_for(
            trimmed(#[trigger] pieces(header_text(value), ',')[i]),
            etag,
        )
}

fn is_blank(c: char) -> (r: bool)
    ensures
        r == blank(c),
{
    c == ' ' || c == '\t'
}

fn equals(c: &Vec<char>, from: usize, to: usize, other: &Vec<char>) -> (r: bool)
    requires
        from <= to <= c.len(),
    ensures
        r == (c@.subrange(from as int, to as int) == other@),
{
    let ghost part = c@.subrange(from as int, to as int);
    if to - from != other.len() {
        return false;
    }
    let mut i: usize = 0;
    while i < other.len()
        invariant
            i <= other.len(),
            from <= to <= c.len(),
            to - from == other.len(),
            part == c@.subrange(from as int, to as int),
            forall|j: int| 0 <= j < i ==> part[j] == other[j],
        decreases other.len() - i,
    {
        if c[from + i] != other[i] {
            assert(part[i as int] != other@[i as int]);
            return false;
        }
        i = i + 1;
    }
    assert(part =~= other@);
    true
}

fn candidate_stands_for(c: &Vec<char>, from: usize, to: usize, etag: &Vec<char>) -> (r: bool)
    requires
        from <= to <= c.len(),
    ensures
        r == stands_for(trimmed(c@.subrange(from as int, to as int)), etag@),
{
    let mut a: usize = from;
    let mut b: usize = to;
    let ghost whole = trimmed(c@.subrange(from as int, to as int));
    while a < b && is_blank(c[a])
        invariant
            from <= a <= b <= to <= c.len(),
            b == to,
            trimmed(c@.subrange(a as int, b as int)) == whole,
        decreases b - a,
    {
        proof {
            let s = c@.subrange(a as int, b as int);
            assert(s[0] == c@[a as int]);
            assert(s.skip(1) =~= c@.subrange(a + 1, b as int));
        }
        a = a + 1;
    }
    while a < b && is_blank(c[b - 1])
        invariant
            from <= a <= b <= to <= c.len(),
            a < b ==> !blank(c@[a as int]),
            trimmed(c@.subrange(a as int, b as int)) == whole,
        decreases b - a,
    {
        proof {
            let s = c@.subrange(a as int, b as int);
            assert(s[0] == c@[a as int]);
            assert(s.last() == c@[b - 1]);
            assert(s.drop_last() =~= c@.subrange(a as int, b - 1));
        }
        b = b - 1;
    }
    let ghost s = c@.subrange(a as int, b as int);
    proof {
        if s.len() > 0 {
            assert(s[0] == c@[a as int]);
            assert(s.last() == c@[b - 1]);
        }
        assert(whole == s);
    }
    if b - a == 1 && c[a] == '*' {
        assert(s =~= seq!['*']);
        return true;
    }
    assert(s != seq!['*']) by {
        if s == seq!['*'] {
            assert(s[0] == '*');
        }
    }
    if b - a >= 2 && c[a] == 'W' && c[a + 1] == '/' {
        assert(s.skip(2) =~= c@.subrange(a + 2, b as int));
        assert(s[0] == 'W' && s[1] == '/');
        equals(c, a + 2, b, etag)
    } else {
        assert(s.len() >= 2 ==> s[0] == c@[a as int] && s[1] == c@[a + 1]);
        equals(c, a, b, etag)
    }
}

proof fn lemma_named(value: Seq<u8>, etag: Seq<char>)
    ensures
        names_etag(value, etag) ==> forall|i: int|
            0 <= i < value.len() ==> 32 <= #[trigger] value[i] <= 126 || value[i] == 9,
        names_etag(value, etag) ==> exists|i: int|
            0 <= i < pieces(header_text(value), ',').len() && ({
                let candidate = trimmed(#[trigger] pieces(header_text(value), ',')[i]);
                ||| candidate == seq!['*']
                ||| candidate == etag
                ||| candidate == seq!['W', '/'] + etag
            }),
{
    if names_etag(value, etag) {
        assert forall|i: int| 0 <= i < value.len() implies 32 <= #[trigger] value[i] <= 126
            || value[i] == 9 by {
            assert(is_visible(value[i]));
        }
        let all = pieces(header_text(value), ',');
        let i = choose|i: int| 0 <= i < all.len() && stands_for(trimmed(#[trigger] all[i]), etag);
        let candidate = trimmed(all[i]);
        if candidate != seq!['*'] && candidate != etag {
            assert(candidate =~= seq!['W', '/'] + candidate.skip(2));
        }
    }
}

/// Whether an `If-None-Match` value names this validator: the client's page is
/// still good.
pub fn none_match(value: &Vec<u8>, etag: &str) -> (r: bool)
    ensures
        r == names_etag(value@, etag@),
        r ==> forall|i: int|
            0 <= i < value@.len() ==> 32 <= #[trigger] value@[i] <= 126 || value@[i] == 9,
        r ==> exists|i: int|
            0 <= i < pieces(header_text(value@), ',').len() && ({
                let candidate = trimmed(#[trigger] pieces(header_text(value@), ',')[i]);
                ||| candidate == seq!['*']
                ||| candidate == etag@
                ||| candidate == seq!['W', '/'] + etag@
            }),
{
    proof {
        lemma_named(value@, etag@);
    }
    let e: Vec<char> = chars(etag);
    let mut c: Vec<char> = Vec::new();
    let mut i: usize = 0;
    while i < value.len()
        invariant
            i <= value.len(),
            c@ == header_text(value@.take(i as int)),
            forall|j: int| 0 <= j < i ==> is_visible(#[trigger] value@[j]),
        decreases value.len() - i,
    {
        let b: u8 = value[i];
        if !(32 <= b && b < 127) && b != 9 {
            return false;
        }
        c.push(b as char);
        proof {
            assert(c@ =~= header_text(value@.take(i + 1)));
        }
        i = i + 1;
    }
    proof {
        assert(value@.take(i as int) =~= value@);
    }
    let ghost text = header_text(value@);
    let ghost all = pieces(text, ',');
    let mut from: usize = 0;
    let ghost mut k: int = 0;
    proof {
        assert(text.skip(0) =~= text);
        assert(all.skip(0) =~= all);
    }
    loop
        invariant
            e@ == etag@,
            c@ == text,
            text == header_text(value@),
            all == pieces(text, ','),
            forall|j: int| 0 <= j < value.len() ==> is_visible(#[trigger] value@[j]),
            from <= c.len(),
            0 <= k <= all.len(),
            all.skip(k) == pieces(text.skip(from as int), ','),
            forall|j: int| 0 <= j < k ==> !stands_for(trimmed(#[trigger] all[j]), etag@),
        decreases c.len() - from,
    {
        let to: usize = find_from(&c, from, ',');
        let ghost rest = text.skip(from as int);
        proof {
            lemma_first_index(rest, ',');
            assert(c@.subrange(from as int, to as int) =~= rest.take(to - from));
            if to == c.len() {
                assert(rest.take(to - from) =~= rest);
            }
            assert(pieces(rest, ',').len() >= 1);
            assert(all.skip(k).len() == all.len() - k);
            assert(all.skip(k)[0] == rest.take(to - from));
            assert(all[k] == all.skip(k)[0]);
        }
        if candidate_stands_for(&c, from, to, &e) {
            assert(stands_for(trimmed(all[k]), etag@));
            return true;
        }
        if to == c.len() {
            proof {
                assert(all.skip(k).len() == 1);
            }
            return false;
        }
        proof {
            assert(rest.skip(to - from + 1) =~= text.skip(to + 1));
            assert(all.skip(k).skip(1) =~= all.skip(k + 1));
            assert(all.skip(k).skip(1) =~= pieces(text.skip(to + 1), ','));
            k = k + 1;
        }
        from = to + 1;
    }
}

/// What to do once the validator is known.
#[derive(Debug)]
pub enum ListStep {
    /// The client's page is still good.
    NotModified { etag: String },
    /// The page has to be fetched and sent with this validator.
    Fetch { etag: String },
}

/// What the validator of a page covers: the request and the rows.
pub open spec fn page_message(params: ListParams, inputs: EtagInputs) -> Seq<char> {
    etag_message(params.cursor_text(), params.page_size(), params.view_named()->0, inputs)
}

/// The validator of the page that a request asks for.
pub open spec fn page_etag(params: ListParams, inputs: EtagInputs) -> Seq<char> {
    quoted(sha256(encode_utf8(page_message(params, inputs))))
}

/// Whether the request names this validator.
pub open spec fn still_good(if_none_match: Option<&Vec<u8>>, etag: Seq<char>) -> bool {
    if_none_match matches Some(value) && names_etag(value@, etag)
}

/// Answers a list request without fault from what its page depends on: the
/// client's page is still good, or it has to be fetched.
pub fn list_items(
    params: &ListParams,
    window: &ListWindow,
    inputs: &EtagInputs,
    if_none_match: Option<&Vec<u8>>,
) -> (r: ListStep)
    requires
        params.fault() is None,
        *window == params.window(),
    ensures
        match r {
            ListStep::NotModified { etag } => etag@ == page_etag(*params, *inputs)
                && still_good(if_none_match, etag@),
            ListStep::Fetch { etag } => etag@ == page_etag(*params, *inputs)
                && !still_good(if_none_match, etag@),
        },
{
    let cursor: Option<&str> = match &params.cursor {
        Some(c) => Some(c.as_str()),
        None => None,
    };
    let etag: String = compute_etag(cursor, window.limit, window.filter, inputs);
    match if_none_match {
        Some(value) => if none_match(value, etag.as_str()) {
            ListStep::NotModified { etag }
        } else {
            ListStep::Fetch { etag }
        },
        None => ListStep::Fetch { etag },
    }
}

/// One item of a page, as clients see it.
#[derive(Debug)]
pub struct InboxItem {
    /// Typed id. The prefix already encodes the source.
    pub id: String,
    /// Routes mark-read to the right endpoint.
    pub source: &'static str,
    pub category: String,
    pub payload: serde_json::Value,
    /// Ordering timestamp. `visible_at` for direct, `created_at` for broadcast.
    pub occurred_at: String,
    /// Per-item exception OR at-or-below the read watermark.
    pub read: bool,
    /// Per-item override OR at-or-below the archive watermark.
    pub archived: bool,
}

impl InboxItem {
    /// Whether this item shows that row.
    pub open spec fn shows(self, row: MergedRow) -> bool {
        &&& self.id@ == typeid_text(
            if row.source@ == "notification"@ {
                NOTIFICATION@
            } else {
                BROADCAST@
            },
            row.id,
        )
        &&& self.source@ == row.source@
        &&& self.category == row.category
        &&& self.payload == row.payload
        &&& self.occurred_at@ == rfc3339_micros(row.occurred_at)
        &&& self.read == row.read
        &&& self.archived == row.archived
    }

    /// The item that shows a row.
    pub fn from(row: MergedRow) -> (r: InboxItem)
        requires
            MIN_MICROS <= row.occurred_at <= MAX_MICROS,
        ensures
            r.shows(row),
            r.read == row.read && r.archived == row.archived,
            r.category == row.category && r.payload == row.payload && r.source == row.source,
            r.occurred_at@ == rfc3339_micros(row.occurred_at),
            row.source@ == "notification"@ ==> r.id@ == typeid_text("notif"@, row.id),
            row.source@ != "notification"@ ==> r.id@ == typeid_text("bcast"@, row.id),
    {
        let prefix: &str = if same(row.source, "notification") {
            NOTIFICATION
        } else {
            BROADCAST
        };
        InboxItem {
            id: typeid(prefix, row.id),
            source: row.source,
            category: row.category,
            payload: row.payload,
            occurred_at: rfc3339_text(row.occurred_at),
            read: row.read,
            archived: row.archived,
        }
    }
}

/// A page of the inbox.
#[derive(Debug)]
pub struct InboxPage {
    pub items: Vec<InboxItem>,
    /// Opaque keyset token. `None` when the last page is reached.
    pub next_cursor: Option<String>,
}

impl InboxPage {
    /// Whether the items show these rows, one for one.
    pub open spec fn shows(self, rows: Seq<MergedRow>) -> bool {
        &&& self.items@.len() == rows.len()
        &&& forall|i: int| 0 <= i < rows.len() ==> (#[trigger] self.items@[i]).shows(rows[i])
    }

    /// Whether the cursor leads on from `last`.
    pub open spec fn leads_on_from(self, last: MergedRow) -> bool {
        self.next_cursor matches Some(c) && holds_text(c@, cursor_text(last.occurred_at, last.id))
    }

    /// Whether this is what a window is answered: the newest rows of the
    /// window, and a cursor exactly when there are more of them than fit.
    pub open spec fn answers(
        self,
        s: Scope,
        w: ListWindow,
        notifications: Seq<(Notification, serde_json::Value)>,
        broadcasts: Seq<(Broadcast, serde_json::Value)>,
    ) -> bool {
        let rows = listed_rows(s, w, notifications, broadcasts);
        &&& exists|page: Seq<MergedRow>|
            #[trigger] is_page(page, rows.to_multiset(), w.limit as int) && self.shows(page) && (
            self.next_cursor is Some ==> self.leads_on_from(page.last()))
        &&& self.next_cursor is Some <==> rows.len() > w.limit
    }
}

/// The page of the first `limit` rows. A row beyond them means that there is a
/// next page: only then does the page have a cursor, that of its last row.
pub fn inbox_page(rows: Vec<MergedRow>, limit: i64) -> (r: InboxPage)
    requires
        limit >= 1,
        forall|i: int|
            0 <= i < rows@.len() ==> MIN_MICROS <= (#[trigger] rows@[i]).occurred_at <= MAX_MICROS,
    ensures
        r.items@.len() == if rows@.len() < limit {
            rows@.len() as int
        } else {
            limit as int
        },
        forall|i: int| 0 <= i < r.items@.len() ==> (#[trigger] r.items@[i]).shows(rows@[i]),
        forall|i: int|
            0 <= i < r.items@.len() ==> (#[trigger] r.items@[i]).read == rows@[i].read
                && r.items@[i].archived == rows@[i].archived,
        r.next_cursor is Some <==> rows@.len() > limit,
        r.next_cursor is Some ==> r.leads_on_from(rows@[limit - 1]),
        r.next_cursor is Some ==> cursor_value(r.next_cursor->0@) == Some(
            (rows@[limit - 1].occurred_at, rows@[limit - 1].id),
        ),
{
    let mut n: usize = rows.len();
    let mut next_cursor: Option<String> = None;
    if n as u128 > limit as u128 {
        n = limit as usize;
        next_cursor = Some(encode_cursor(rows[n - 1].occurred_at, rows[n - 1].id));
    }
    let mut items: Vec<InboxItem> = Vec::new();
    for row in it: rows
        invariant
            it.seq() == rows@,
            n <= rows@.len(),
            items@.len() == if it.index() < n {
                it.index()
            } else {
                n as int
            },
            forall|i: int|
                0 <= i < rows@.len() ==> MIN_MICROS <= (#[trigger] rows@[i]).occurred_at
                    <= MAX_MICROS,
            forall|i: int| 0 <= i < items@.len() ==> (#[trigger] items@[i]).shows(rows@[i]),
    {
        if items.len() < n {
            items.push(InboxItem::from(row));
        }
    }
    InboxPage { items, next_cursor }
}

/// The page that a window asks for, over both sources. It is read one row
/// further than it shows, so that it has a cursor exactly when there is more.
pub fn list_page(
    scope: &Scope,
    notifications: Vec<(Notification, serde_json::Value)>,
    broadcasts: Vec<(Broadcast, serde_json::Value)>,
    window: ListWindow,
) -> (r: InboxPage)
    requires
        1 <= window.limit <= MAX_PAGE_SIZE,
        instants_exist(notifications@, broadcasts@),
    ensures
        r.answers(*scope, window, notifications@, broadcasts@),
        forall|i: int|
            0 <= i < r.items@.len() ==> ((#[trigger] r.items@[i]).archived
                <==> window.filter is Archived) && (window.filter is Unread ==> !r.items@[i].read),
{
    broadcast use vstd::seq_lib::group_to_multiset_ensures;

    let further: ListWindow = ListWindow { limit: window.limit + 1, ..window };
    let ghost rows = listed_rows(*scope, window, notifications@, broadcasts@);
    let found: Vec<MergedRow> = list_items_for(scope, notifications, broadcasts, further);
    let ghost page = found@.take(
        if found@.len() < window.limit {
            found@.len() as int
        } else {
            window.limit as int
        },
    );
    proof {
        the_page_size_is_no_part_of_the_view(*scope, further, window, notifications@, broadcasts@);
        lemma_listed_instants_exist(*scope, window, notifications@, broadcasts@);
        assert forall|i: int| 0 <= i < found@.len() implies MIN_MICROS <= (
        #[trigger] found@[i]).occurred_at <= MAX_MICROS by {
            lemma_page_row_counts(found@, rows, further.limit as int, i);
            let k = choose|k: int| 0 <= k < rows.len() && rows[k] == found@[i];
            assert(MIN_MICROS <= rows[k].occurred_at <= MAX_MICROS);
        }
        a_shorter_page_is_the_head(found@, rows, further.limit as int, window.limit as int);
    }
    let r: InboxPage = inbox_page(found, window.limit);
    proof {
        assert(is_page(page, rows.to_multiset(), window.limit as int) && r.shows(page));
        assert(r.answers(*scope, window, notifications@, broadcasts@));
        assert forall|i: int| 0 <= i < r.items@.len() implies ((#[trigger] r.items@[i]).archived
            <==> window.filter is Archived) && (window.filter is Unread ==> !r.items@[i].read) by {
            the_flags_of_an_item_agree_with_the_view(
                r,
                *scope,
                window,
                notifications@,
                broadcasts@,
                i,
            );
        }
    }
    r
}

/// The cursor of a full page asks for the window that starts after its last
/// row, in the same view and with the same page size.
pub proof fn the_cursor_asks_for_the_next_page(p: ListParams, q: ListParams, last: MergedRow)
    requires
        p.fault() is None,
        q.page_size() == p.page_size(),
        q.view_named() == p.view_named(),
        q.cursor is Some,
        holds_text(q.cursor->0@, cursor_text(last.occurred_at, last.id)),
        MIN_MICROS <= last.occurred_at <= MAX_MICROS,
    ensures
        q.fault() is None,
        q.window() == next_window(p.window(), last),
{
    cursor_gives_back_the_keyset(last.occurred_at, last.id, q.cursor->0@);
}

proof fn lemma_accepted_cursor_is_plain(p: ListParams)
    requires
        p.start() is Some,
    ensures
        is_plain(p.cursor_text()),
{
    if let Some(c) = p.cursor {
        let raw = choose|raw: Seq<char>| holds_text(c@, raw);
        let bytes = encode_utf8(raw);
        assert forall|i: int| 0 <= i < c@.len() implies #[trigger] c@[i] != '|' && c@[i] != '/' by {
            assert(c@[i] == base64url(bytes)[i]);
            assert(base64url(bytes)[i] == sextet_char(sextet(bytes, i)));
        }
    }
}

/// Two accepted requests whose validators cover the same ask for the same page
/// and found the same rows: whatever moves an input moves what is covered.
pub proof fn a_validator_covers_one_page(p: ListParams, a: EtagInputs, q: ListParams, b: EtagInputs)
    requires
        p.fault() is None,
        q.fault() is None,
        page_message(p, a) == page_message(q, b),
    ensures
        p.cursor_text() == q.cursor_text(),
        p.page_size() == q.page_size(),
        p.view_named() == q.view_named(),
        a == b,
{
    lemma_accepted_cursor_is_plain(p);
    lemma_accepted_cursor_is_plain(q);
    the_validator_covers_every_input(
        p.cursor_text(),
        p.page_size(),
        p.view_named()->0,
        a,
        q.cursor_text(),
        q.page_size(),
        q.view_named()->0,
        b,
    );
}

proof fn lemma_quoted(digest: Seq<u8>)
    ensures
        forall|i: int|
            0 <= i < quoted(digest).len() ==> #[trigger] quoted(digest)[i] == '"' || is_hex_digit(
                quoted(digest)[i],
            ),
{
    let q = quoted(digest);
    let h = hex_text(digest);
    assert forall|i: int| 0 <= i < q.len() implies #[trigger] q[i] == '"' || is_hex_digit(q[i]) by {
        if 0 < i < q.len() - 1 {
            assert(q[i] == h[i - 1]);
        }
    }
}

/// A client that names the validator it was given, weak or strong, or any
/// validator at all, is told that its page is still good.
pub proof fn a_named_validator_is_still_good(value: Seq<u8>, digest: Seq<u8>)
    requires
        header_text(value) == quoted(digest) || header_text(value) == seq!['W', '/'] + quoted(
            digest,
        ) || header_text(value) == seq!['*'],
    ensures
        names_etag(value, quoted(digest)),
{
    let text = header_text(value);
    let q = quoted(digest);
    lemma_quoted(digest);
    assert forall|i: int| 0 <= i < value.len() implies is_visible(#[trigger] value[i]) && text[i]
        != ',' && !blank(text[i]) by {
        assert(text[i] == value[i] as char);
        if text == seq!['W', '/'] + q && i >= 2 {
            assert(text[i] == q[i - 2]);
        }
    }
    lemma_first_index(text, ',');
    assert(text.len() == value.len());
    assert(first_index(text, ',') == text.len());
    assert(pieces(text, ',') =~= seq![text]);
    assert(text.len() > 0);
    assert(trimmed(text) == text);
    if text == seq!['W', '/'] + q {
        assert(text.skip(2) =~= q);
    } else if text == q {
        assert(q[0] == '"');
    }
    assert(stands_for(trimmed(pieces(text, ',')[0]), q));
}

} // verus!
