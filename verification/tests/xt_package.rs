use xt_gateway::pkg::xt::{deserialize, serialize, PackageError, XTPackage, XT_MAX_ARG_LEN};
use xt_gateway::pkt::xt::XTError;

#[test]
fn basic_deserialize() {
    let raw_pkg = "%xt%s%u#sp%1%395%384%";
    let xt_pkg = deserialize(raw_pkg).expect("failed to parse");
    assert!(matches!(
        xt_pkg,
        XTPackage {
            handler_id: "s",
            packet_id: "u#sp",
            internal_id: 1,
            data_len: 2,
            data: ["395", "384", ..],
            ..
        }
    ));
}

#[test]
fn basic_serialize() {
    let mut data = [""; XT_MAX_ARG_LEN];
    data[0] = "395";
    data[1] = "384";
    let xt = XTPackage {
        handler_id: "s",
        packet_id: "u#sp",
        internal_id: 1,
        data_len: 2,
        data,
    };
    assert_eq!(serialize(xt), "%xt%s%u#sp%1%395%384%");
}

#[test]
fn package_data_slice_holds_the_arguments_only() {
    let xt = deserialize("%xt%s%j#js%-1%102%key%en%").expect("failed to parse");
    assert_eq!(xt.data_slice(), ["102", "key", "en"]);
    let none = deserialize("%xt%s%i#gi%-1%").expect("failed to parse");
    assert!(none.data_slice().is_empty());
}

#[test]
fn package_round_trip() {
    let raw = "%xt%z%gw%-1%a%%b%";
    let xt = deserialize(raw).expect("failed to parse");
    assert_eq!(xt.data_slice(), ["a", "", "b"]);
    assert_eq!(serialize(xt), raw);
}

#[test]
fn package_borrows_non_ascii_fields() {
    let xt = deserialize("%xt%s%m#sm%3%héllo%日本語%").expect("failed to parse");
    assert_eq!(xt.handler_id, "s");
    assert_eq!(xt.data_slice(), ["héllo", "日本語"]);
}

#[test]
fn package_holds_at_most_the_maximum_of_arguments() {
    let mut raw = String::from("%xt%s%p%1%");
    for i in 0..XT_MAX_ARG_LEN {
        raw.push_str(&format!("{}%", i));
    }
    let full = deserialize(&raw).expect("failed to parse");
    assert_eq!(full.data_len, XT_MAX_ARG_LEN);
    assert_eq!(full.data_slice()[XT_MAX_ARG_LEN - 1], "31");
    raw.push_str("one more%");
    assert_eq!(deserialize(&raw).err(), Some(PackageError::ArgLimit));
}

#[test]
fn package_errors_name_the_field() {
    assert_eq!(deserialize("xt%").err(), Some(PackageError::Malformed(XTError::BadLeading)));
    assert_eq!(deserialize("%xt%s%p%1").err(), Some(PackageError::Malformed(XTError::BadTrailing)));
    assert_eq!(deserialize("%tx%s%p%1%").err(), Some(PackageError::Malformed(XTError::BadPrefix)));
    assert_eq!(deserialize("%xt%%p%1%").err(), Some(PackageError::Malformed(XTError::BadHandlerId)));
    assert_eq!(deserialize("%xt%s%%1%").err(), Some(PackageError::Malformed(XTError::BadPacketId)));
    assert_eq!(deserialize("%xt%s%p%x%").err(), Some(PackageError::Malformed(XTError::BadInternalId)));
}
