use base64::engine::general_purpose::URL_SAFE_NO_PAD;
use base64::Engine;
use chimely::api::inbox::cursor::{decode_cursor, encode_cursor, split_cursor};
use chimely::outside::{MAX_MICROS, MIN_MICROS};

#[test]
fn cursor_round_trips() {
    let ts = chrono::Utc::now().timestamp_micros();
    let id = uuid::Uuid::from_u128(0x01890a5d_ac96_774b_bcce_b302099a8057).as_u128();
    let enc = encode_cursor(ts, id);
    let (ts2, id2) = decode_cursor(&enc).unwrap();
    assert_eq!(ts2, ts);
    assert_eq!(id2, id);
}

#[test]
fn malformed_cursors_are_rejected() {
    assert!(decode_cursor("not-base64!").is_none());
    assert!(decode_cursor("").is_none());
    let bogus = URL_SAFE_NO_PAD.encode("hello world");
    assert!(decode_cursor(&bogus).is_none());
}

#[test]
fn cursor_holds_micros_and_simple_id() {
    let id = 0x01890a5d_ac96_774b_bcce_b302099a8057;
    assert_eq!(
        encode_cursor(1700000000000001, id),
        "MTcwMDAwMDAwMDAwMDAwMTowMTg5MGE1ZGFjOTY3NzRiYmNjZWIzMDIwOTlhODA1Nw"
    );
    let raw = URL_SAFE_NO_PAD.decode(encode_cursor(-7, id)).unwrap();
    assert_eq!(raw, b"-7:01890a5dac96774bbcceb302099a8057");
}

#[test]
fn cursor_round_trips_at_the_ends() {
    for ts in [MIN_MICROS, -1, 0, 1, MAX_MICROS] {
        for id in [0, 1, u128::MAX] {
            assert_eq!(decode_cursor(&encode_cursor(ts, id)), Some((ts, id)));
        }
    }
}

#[test]
fn cursor_of_no_instant_is_rejected() {
    assert_eq!(decode_cursor(&encode_cursor(MAX_MICROS + 1, 1)), None);
    assert_eq!(decode_cursor(&encode_cursor(MIN_MICROS - 1, 1)), None);
    assert_eq!(decode_cursor(&encode_cursor(i64::MAX, 1)), None);
    assert_eq!(decode_cursor(&encode_cursor(i64::MIN, 1)), None);
}

#[test]
fn cursor_text_is_split_at_the_first_colon() {
    let id = 0x01890a5d_ac96_774b_bcce_b302099a8057;
    assert_eq!(split_cursor("5:01890a5dac96774bbcceb302099a8057"), Some((5, id)));
    assert_eq!(split_cursor("+5:01890A5DAC96774BBCCEB302099A8057"), Some((5, id)));
    assert_eq!(split_cursor("-5:01890a5d-ac96-774b-bcce-b302099a8057"), Some((-5, id)));
    assert_eq!(split_cursor("5:{01890a5d-ac96-774b-bcce-b302099a8057}"), Some((5, id)));
    assert_eq!(split_cursor("5:urn:uuid:01890a5d-ac96-774b-bcce-b302099a8057"), Some((5, id)));
    assert_eq!(split_cursor("5:URN:Uuid:01890a5d-ac96-774b-bcce-b302099a8057"), Some((5, id)));
    for raw in [
        "5",
        ":",
        ":01890a5dac96774bbcceb302099a8057",
        "5:",
        "5x:01890a5dac96774bbcceb302099a8057",
        "+:01890a5dac96774bbcceb302099a8057",
        "-:01890a5dac96774bbcceb302099a8057",
        " 5:01890a5dac96774bbcceb302099a8057",
        "9223372036854775808:01890a5dac96774bbcceb302099a8057",
        "5:01890a5dac96774bbcceb302099a805",
        "5:01890a5dac96774bbcceb302099a805g",
        "5:01890a5d+ac96-774b-bcce-b302099a8057",
        "5:01890a5dac96774bbcceb302099a8057:",
        "5:{01890a5d-ac96-774b-bcce-b302099a8057",
    ] {
        assert_eq!(split_cursor(raw), None, "{raw}");
    }
}

#[test]
fn cursor_text_must_be_canonical() {
    let good = encode_cursor(5, 7);
    assert!(decode_cursor(&good).is_some());
    assert!(decode_cursor(&format!("{good}=")).is_none());
    assert!(decode_cursor(&format!("{good}\n")).is_none());
    assert!(decode_cursor(&good[..good.len() - 1]).is_none());
    // Not UTF-8.
    assert!(decode_cursor(&URL_SAFE_NO_PAD.encode([0xff, 0xfe])).is_none());
}
