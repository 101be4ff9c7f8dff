use chimely::api::inbox::actions::{broadcast_id, notification_id};
use chimely::error::ErrorCode;
use chimely::ids::{parse_typeid, typeid, BROADCAST, NOTIFICATION};

const ID: u128 = 0x01890a5d_ac96_774b_bcce_b302099a8057;

#[test]
fn typed_form_of_a_known_identifier() {
    assert_eq!(typeid(NOTIFICATION, ID), "notif_01h455vb4pex5vsknk084sn02q");
    assert_eq!(typeid(BROADCAST, ID), "bcast_01h455vb4pex5vsknk084sn02q");
    assert_eq!(parse_typeid(NOTIFICATION, "notif_01h455vb4pex5vsknk084sn02q"), Some(ID));
}

#[test]
fn typed_forms_round_trip() {
    for id in [0, 1, 31, 32, ID, u128::MAX - 1, u128::MAX] {
        assert_eq!(parse_typeid(BROADCAST, &typeid(BROADCAST, id)), Some(id));
    }
    assert_eq!(typeid(NOTIFICATION, 0), "notif_00000000000000000000000000");
    assert_eq!(typeid(NOTIFICATION, u128::MAX), "notif_7zzzzzzzzzzzzzzzzzzzzzzzzz");
}

#[test]
fn other_texts_name_nothing() {
    for raw in [
        "",
        "notif",
        "notif_",
        "bcast_01h455vb4pex5vsknk084sn02q",
        "notif-01h455vb4pex5vsknk084sn02q",
        "notif_81h455vb4pex5vsknk084sn02q",
        "notif_01h455vb4pex5vsknk084sn02",
        "notif_01h455vb4pex5vsknk084sn02qq",
        "notif_01H455vb4pex5vsknk084sn02q",
        "notif_01h455vb4pex5vsknk084sn02i",
        "notif_01h455vb4pex5vsknk084sn02l",
        "notif_01h455vb4pex5vsknk084sn02o",
        "notif_01h455vb4pex5vsknk084sn02u",
        "notif_01h455vb4pex5vsknk084sn02é",
        "01890a5d-ac96-774b-bcce-b302099a8057",
    ] {
        assert_eq!(parse_typeid(NOTIFICATION, raw), None, "{raw}");
    }
}

#[test]
fn paths_name_items_of_their_kind() {
    assert_eq!(notification_id("notif_01h455vb4pex5vsknk084sn02q").unwrap(), ID);
    assert_eq!(broadcast_id("bcast_01h455vb4pex5vsknk084sn02q").unwrap(), ID);
    let e = notification_id("bcast_01h455vb4pex5vsknk084sn02q").unwrap_err();
    assert_eq!((e.code, e.message.as_str()), (ErrorCode::NotFound, "no such notification"));
    let e = broadcast_id("x").unwrap_err();
    assert_eq!((e.code, e.message.as_str()), (ErrorCode::NotFound, "no such broadcast"));
}

#[test]
fn typed_forms_tell_sources_apart() {
    for id in [0, ID, u128::MAX] {
        assert_ne!(typeid(NOTIFICATION, id), typeid(BROADCAST, id));
        assert_eq!(parse_typeid(BROADCAST, &typeid(NOTIFICATION, id)), None);
    }
}
