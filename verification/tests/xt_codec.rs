use xt_gateway::pkt::xt::{deserialize, serialize, XTError, XTPacket, XTVariant};

fn packet(handler: Option<&str>, packet_id: &str, internal_id: isize, data: &[&str]) -> XTPacket {
    XTPacket {
        handler_id: handler.map(|h| h.to_owned()),
        packet_id: packet_id.to_owned(),
        internal_id,
        data: data.iter().map(|d| d.to_string()).collect(),
    }
}

#[test]
fn mod_basic_deserialize() {
    let raw_pkg = "%xt%s%u#sp%1%395%384%";
    let xt = deserialize(raw_pkg, XTVariant::Client).expect("failed to parse");
    assert!(matches!(xt, XTPacket { handler_id: Some(handler_id), packet_id, internal_id, data }
        if
        handler_id == "s" &&
        packet_id == "u#sp" &&
        internal_id == 1 &&
        data == ["395", "384"]
    ));
}

#[test]
fn basic_serialize_client() {
    let xt = XTPacket {
        handler_id: Some("s".to_owned()),
        packet_id: "u#sp".to_owned(),
        internal_id: 1,
        data: vec!["395".to_owned(), "384".to_owned()],
    };
    assert_eq!(serialize(xt), "%xt%s%u#sp%1%395%384%");
}

#[test]
fn basic_serialize_server() {
    let xt = XTPacket {
        handler_id: None,
        packet_id: "sp".to_owned(),
        internal_id: 1,
        data: vec!["5".to_owned(), "395".to_owned(), "384".to_owned()],
    };
    assert_eq!(serialize(xt), "%xt%sp%1%5%395%384%");
}

#[test]
fn round_trip_client_packet() {
    let p = packet(Some("s"), "u#sp", 1, &["395", "384"]);
    let wire = serialize(p.clone());
    assert_eq!(wire, "%xt%s%u#sp%1%395%384%");
    assert_eq!(deserialize(&wire, XTVariant::Client), Ok(p));
}

#[test]
fn round_trip_server_packet_with_empty_arguments() {
    let p = packet(None, "l", -1, &["102", "", "3100,0|3101,0", ""]);
    let wire = serialize(p.clone());
    assert_eq!(wire, "%xt%l%-1%102%%3100,0|3101,0%%");
    assert_eq!(deserialize(&wire, XTVariant::Server), Ok(p));
}

#[test]
fn round_trip_extreme_correlation_ids() {
    for id in [isize::MIN, -10, -1, 0, 9, 10, 1234567890, isize::MAX] {
        let p = packet(None, "e", id, &[]);
        let wire = serialize(p.clone());
        assert_eq!(wire, format!("%xt%e%{}%", id));
        assert_eq!(deserialize(&wire, XTVariant::Server), Ok(p));
    }
}

#[test]
fn round_trip_non_ascii_fields() {
    let p = packet(Some("ß"), "m#sm", 7, &["héllo wörld", "日本語"]);
    let wire = serialize(p.clone());
    assert_eq!(wire, "%xt%ß%m#sm%7%héllo wörld%日本語%");
    assert_eq!(deserialize(&wire, XTVariant::Client), Ok(p));
}

#[test]
fn packet_without_arguments() {
    assert_eq!(
        deserialize("%xt%s%i#gi%-1%", XTVariant::Client),
        Ok(packet(Some("s"), "i#gi", -1, &[]))
    );
    assert_eq!(deserialize("%xt%gi%-1%", XTVariant::Server), Ok(packet(None, "gi", -1, &[])));
}

#[test]
fn server_direction_reads_no_handler_id() {
    assert_eq!(
        deserialize("%xt%s%u#sp%1%395%384%", XTVariant::Server),
        Err(XTError::BadInternalId)
    );
    assert_eq!(
        deserialize("%xt%sp%1%5%395%384%", XTVariant::Server),
        Ok(packet(None, "sp", 1, &["5", "395", "384"]))
    );
}

#[test]
fn correlation_id_accepts_sign_and_leading_zeros() {
    assert_eq!(deserialize("%xt%e%+7%", XTVariant::Server), Ok(packet(None, "e", 7, &[])));
    assert_eq!(deserialize("%xt%e%007%", XTVariant::Server), Ok(packet(None, "e", 7, &[])));
    assert_eq!(deserialize("%xt%e%-0%", XTVariant::Server), Ok(packet(None, "e", 0, &[])));
}

#[test]
fn bad_leading_delimiter() {
    assert_eq!(deserialize("", XTVariant::Client), Err(XTError::BadLeading));
    assert_eq!(deserialize("xt%s%u#sp%1%", XTVariant::Client), Err(XTError::BadLeading));
}

#[test]
fn bad_trailing_delimiter() {
    assert_eq!(deserialize("%", XTVariant::Client), Err(XTError::BadTrailing));
    assert_eq!(deserialize("%xt%s%u#sp%1", XTVariant::Client), Err(XTError::BadTrailing));
}

#[test]
fn bad_prefix() {
    assert_eq!(deserialize("%%", XTVariant::Client), Err(XTError::BadPrefix));
    assert_eq!(deserialize("%xml%s%u#sp%1%", XTVariant::Client), Err(XTError::BadPrefix));
    assert_eq!(deserialize("%x%s%u#sp%1%", XTVariant::Client), Err(XTError::BadPrefix));
}

#[test]
fn bad_handler_id() {
    assert_eq!(deserialize("%xt%", XTVariant::Client), Err(XTError::BadHandlerId));
    assert_eq!(deserialize("%xt%%u#sp%1%", XTVariant::Client), Err(XTError::BadHandlerId));
}

#[test]
fn bad_packet_id() {
    assert_eq!(deserialize("%xt%s%", XTVariant::Client), Err(XTError::BadPacketId));
    assert_eq!(deserialize("%xt%s%%1%", XTVariant::Client), Err(XTError::BadPacketId));
    assert_eq!(deserialize("%xt%", XTVariant::Server), Err(XTError::BadPacketId));
}

#[test]
fn bad_internal_id() {
    assert_eq!(deserialize("%xt%s%u#sp%", XTVariant::Client), Err(XTError::BadInternalId));
    assert_eq!(deserialize("%xt%s%u#sp%%", XTVariant::Client), Err(XTError::BadInternalId));
    assert_eq!(deserialize("%xt%s%u#sp%one%", XTVariant::Client), Err(XTError::BadInternalId));
    assert_eq!(deserialize("%xt%s%u#sp%-%", XTVariant::Client), Err(XTError::BadInternalId));
    assert_eq!(deserialize("%xt%s%u#sp% 1%", XTVariant::Client), Err(XTError::BadInternalId));
    assert_eq!(
        deserialize("%xt%s%u#sp%99999999999999999999999%", XTVariant::Client),
        Err(XTError::BadInternalId)
    );
}

#[test]
fn errors_in_words() {
    assert_eq!(XTError::BadLeading.message(), "bad leading %");
    assert_eq!(XTError::BadTrailing.message(), "bad trailing %");
    assert_eq!(XTError::BadPrefix.message(), "bad xt prefix");
    assert_eq!(XTError::BadHandlerId.message(), "bad extension");
    assert_eq!(XTError::BadPacketId.message(), "bad packet id");
    assert_eq!(XTError::BadInternalId.message(), "bad internal id");
}
