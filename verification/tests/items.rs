use chimely::api::inbox::cursor::encode_cursor;
use chimely::api::inbox::etag::{compute_etag, etag_inputs, quote_digest, EtagInputs};
use chimely::api::inbox::items::{
    inbox_page, list_items, list_window, none_match, rate_limit_key, InboxItem, ListParams,
    ListStep, CACHE_CONTROL,
};
use chimely::api::inbox::list::{InboxFilter, MergedRow, DEFAULT_PAGE_SIZE, MAX_PAGE_SIZE};
use chimely::error::ErrorCode;
use chimely::outside::MAX_MICROS;
use serde_json::Value;

const ID: u128 = 0x01890a5d_ac96_774b_bcce_b302099a8057;

fn params(cursor: Option<&str>, limit: Option<i64>, filter: Option<&str>) -> ListParams {
    ListParams {
        cursor: cursor.map(str::to_owned),
        limit,
        filter: filter.map(str::to_owned),
    }
}

fn inputs() -> EtagInputs {
    EtagInputs {
        counters_updated_at: 1700000000000000,
        prefs_updated_at: Some(-5),
        latest_direct_at: Some(7),
        latest_direct_id: Some(ID),
        latest_broadcast_at: None,
        latest_broadcast_id: None,
    }
}

fn row(source: &'static str, occurred_at: i64, id: u128) -> MergedRow {
    MergedRow {
        source,
        id,
        category: "billing".to_owned(),
        payload: Value::String("hello".to_owned()),
        occurred_at,
        read: true,
        archived: false,
    }
}

#[test]
fn list_requests_have_defaults() {
    let w = list_window(&params(None, None, None)).unwrap();
    assert_eq!((w.cursor_ts, w.cursor_id), (MAX_MICROS, u128::MAX));
    assert_eq!((w.limit, w.filter), (DEFAULT_PAGE_SIZE, InboxFilter::Default));
    assert_eq!(w.limit, 20);
}

#[test]
fn list_requests_are_validated_in_order() {
    for (p, message) in [
        (params(Some("!"), Some(0), Some("x")), "limit must be between 1 and 100"),
        (params(None, Some(MAX_PAGE_SIZE + 1), None), "limit must be between 1 and 100"),
        (params(None, Some(-1), None), "limit must be between 1 and 100"),
        (params(Some("!"), Some(1), Some("default")), "unknown filter"),
        (params(Some("!"), Some(100), Some("unread")), "malformed cursor"),
        (params(Some(""), None, Some("archived")), "malformed cursor"),
    ] {
        let e = list_window(&p).unwrap_err();
        assert_eq!((e.code, e.message.as_str()), (ErrorCode::InvalidRequest, message));
    }
}

#[test]
fn views_have_names() {
    assert_eq!(InboxFilter::parse(None), Some(InboxFilter::Default));
    assert_eq!(InboxFilter::parse(Some("unread")), Some(InboxFilter::Unread));
    assert_eq!(InboxFilter::parse(Some("archived")), Some(InboxFilter::Archived));
    assert_eq!(InboxFilter::parse(Some("Unread")), None);
    assert_eq!(InboxFilter::Default.as_str(), "default");
    assert_eq!(InboxFilter::Unread.as_str(), "unread");
    assert_eq!(InboxFilter::Archived.as_str(), "archived");
}

#[test]
fn a_cursor_leads_to_the_next_page() {
    let rows = vec![
        row("notification", 9, 4),
        row("broadcast", 5, ID),
        row("notification", 3, 7),
    ];
    let page = inbox_page(rows, 2);
    assert_eq!(page.items.len(), 2);
    let cursor = page.next_cursor.unwrap();
    let w = list_window(&params(Some(&cursor), Some(2), Some("unread"))).unwrap();
    assert_eq!((w.cursor_ts, w.cursor_id, w.limit), (5, ID, 2));
    assert_eq!(w.filter, InboxFilter::Unread);
    assert_eq!(cursor, encode_cursor(5, ID));
}

#[test]
fn the_last_page_has_no_cursor() {
    let full = inbox_page(vec![row("notification", 9, 4), row("broadcast", 5, ID)], 2);
    assert_eq!((full.items.len(), full.next_cursor), (2, None));
    assert_eq!(inbox_page(vec![row("broadcast", 5, ID)], 2).next_cursor, None);
    let none = inbox_page(vec![], 1);
    assert_eq!((none.items.len(), none.next_cursor), (0, None));
}

#[test]
fn items_show_their_rows() {
    let item = InboxItem::from(row("notification", 1700000000123456, ID));
    assert_eq!(item.id, "notif_01h455vb4pex5vsknk084sn02q");
    assert_eq!(item.source, "notification");
    assert_eq!(item.category, "billing");
    assert_eq!(item.payload, Value::String("hello".to_owned()));
    assert_eq!(item.occurred_at, "2023-11-14T22:13:20.123456Z");
    assert!(item.read && !item.archived);
    let item = InboxItem::from(row("broadcast", 0, ID));
    assert_eq!(item.id, "bcast_01h455vb4pex5vsknk084sn02q");
    assert_eq!(item.occurred_at, "1970-01-01T00:00:00.000000Z");
}

#[test]
fn validator_of_known_inputs() {
    assert_eq!(
        compute_etag(None, 20, InboxFilter::Default, &inputs()),
        "\"9f79efcff29e7ad1a1f424b9af8e7548ba6c7abfc70c9d0941bb01fa29181a9f\""
    );
    assert_eq!(
        compute_etag(Some("abc"), 100, InboxFilter::Unread, &inputs()),
        "\"b1517fc1cf29deb54f73ef8d0cfcca783cd0df70abcc43b1c2a3bf51c75fe325\""
    );
}

#[test]
fn every_input_moves_the_validator() {
    let base = compute_etag(Some("abc"), 20, InboxFilter::Default, &inputs());
    let mut seen = vec![base];
    let i = inputs();
    for changed in [
        EtagInputs { counters_updated_at: 1700000000000001, ..i },
        EtagInputs { prefs_updated_at: None, ..i },
        EtagInputs { prefs_updated_at: Some(5), ..i },
        EtagInputs { latest_direct_at: Some(8), ..i },
        EtagInputs { latest_direct_id: Some(ID + 1), ..i },
        EtagInputs { latest_broadcast_at: Some(7), ..i },
        EtagInputs { latest_broadcast_id: Some(ID), ..i },
    ] {
        seen.push(compute_etag(Some("abc"), 20, InboxFilter::Default, &changed));
    }
    seen.push(compute_etag(Some("abd"), 20, InboxFilter::Default, &i));
    seen.push(compute_etag(Some("abc"), 21, InboxFilter::Default, &i));
    seen.push(compute_etag(Some("abc"), 20, InboxFilter::Archived, &i));
    for (k, a) in seen.iter().enumerate() {
        assert!(!seen[k + 1..].contains(a));
    }
}

#[test]
fn digests_are_quoted_in_hexadecimal() {
    assert_eq!(quote_digest(&vec![0, 1, 0xab, 0xff]), "\"0001abff\"");
}

#[test]
fn validator_inputs_are_the_latest_visible_rows() {
    let i = etag_inputs(
        100,
        42,
        &vec![3, 9, 4],
        &vec![(50, 1), (101, 9), (100, 2), (100, 7), (99, 8)],
        &vec![(500, 3), (400, 9)],
    );
    assert_eq!(i.counters_updated_at, 42);
    assert_eq!(i.prefs_updated_at, Some(9));
    assert_eq!((i.latest_direct_at, i.latest_direct_id), (Some(100), Some(7)));
    assert_eq!((i.latest_broadcast_at, i.latest_broadcast_id), (Some(500), Some(3)));
    let i = etag_inputs(100, 42, &vec![], &vec![(101, 1)], &vec![]);
    assert_eq!((i.prefs_updated_at, i.latest_direct_at, i.latest_direct_id), (None, None, None));
    assert_eq!((i.latest_broadcast_at, i.latest_broadcast_id), (None, None));
}

#[test]
fn if_none_match_compares_weakly() {
    let etag = "\"abc\"";
    for value in [
        "\"abc\"",
        "W/\"abc\"",
        "*",
        " * ",
        "\"x\", \"abc\"",
        "\"x\",\t W/\"abc\" ,\"y\"",
        "\"abc\",",
    ] {
        assert!(none_match(&value.as_bytes().to_vec(), etag), "{value}");
    }
    for value in ["", "abc", "\"ab\"", "w/\"abc\"", "W/ \"abc\"", "W/W/\"abc\"", "**", "\"x\" \"abc\""] {
        assert!(!none_match(&value.as_bytes().to_vec(), etag), "{value}");
    }
    // A value that is no readable header is not looked at.
    assert!(!none_match(&b"*,\x80".to_vec(), etag));
    assert!(!none_match(&b"*\x7f".to_vec(), etag));
    assert!(!none_match(&b"\n*".to_vec(), etag));
}

#[test]
fn a_named_validator_saves_the_page() {
    let p = params(None, None, None);
    let w = list_window(&p).unwrap();
    let etag = match list_items(&p, &w, &inputs(), None) {
        ListStep::Fetch { etag } => etag,
        ListStep::NotModified { .. } => panic!("no validator was named"),
    };
    assert_eq!(etag, compute_etag(None, 20, InboxFilter::Default, &inputs()));
    let named = etag.as_bytes().to_vec();
    match list_items(&p, &w, &inputs(), Some(&named)) {
        ListStep::NotModified { etag: again } => assert_eq!(again, etag),
        ListStep::Fetch { .. } => panic!("the validator was named"),
    }
    let moved = EtagInputs { counters_updated_at: 1, ..inputs() };
    assert!(matches!(
        list_items(&p, &w, &moved, Some(&named)),
        ListStep::Fetch { .. }
    ));
    assert_eq!(CACHE_CONTROL, "private, max-age=0");
}

#[test]
fn one_bucket_per_subscriber() {
    assert_eq!(
        rate_limit_key(ID, 1),
        "sub:01890a5d-ac96-774b-bcce-b302099a8057:00000000-0000-0000-0000-000000000001"
    );
}
