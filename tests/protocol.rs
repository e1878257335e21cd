use lib_udp_server::protocol::{BellMessage, DecodeError, MessageKind, Point};

fn all_messages() -> Vec<BellMessage> {
    let p = Point { x: 1.5f32.to_bits(), y: (-3.25f32).to_bits(), id: 9 };
    vec![
        BellMessage::PositionChangeMessage(p),
        BellMessage::DeferMessage,
        BellMessage::PlayerInsertionMessage(p),
        BellMessage::PlayerRegistrationMessage(p),
    ]
}

#[test]
fn tagged_record_round_trip() {
    for m in all_messages() {
        let kind = m.kind();
        let back = BellMessage::decode_record(kind.name(), m.payload());
        assert_eq!(back, Ok(m));
    }
}

#[test]
fn kind_names() {
    assert_eq!(MessageKind::PositionChange.name(), "PositionChangeMessage");
    assert_eq!(MessageKind::Defer.name(), "DeferMessage");
    assert_eq!(MessageKind::PlayerInsertion.name(), "PlayerInsertionMessage");
    assert_eq!(MessageKind::PlayerRegistration.name(), "PlayerRegistrationMessage");
    assert_eq!(MessageKind::from_name("PlayerInsertionMessage"), Some(MessageKind::PlayerInsertion));
    assert_eq!(MessageKind::from_name("positionchangemessage"), None);
    assert_eq!(MessageKind::from_name(""), None);
}

#[test]
fn decode_errors() {
    let p = Point { x: 0, y: 0, id: 0 };
    assert_eq!(BellMessage::decode_record("Teleport", Some(p)), Err(DecodeError::UnknownTag));
    assert_eq!(BellMessage::decode_record("PositionChangeMessage", None), Err(DecodeError::MissingPayload));
    assert_eq!(BellMessage::decode_record("DeferMessage", Some(p)), Err(DecodeError::UnexpectedPayload));
    assert_eq!(BellMessage::decode_record("DeferMessage", None), Ok(BellMessage::DeferMessage));
}

#[test]
fn payload_and_kind() {
    let p = Point { x: 10f32.to_bits(), y: 5f32.to_bits(), id: 0 };
    let m = BellMessage::PlayerRegistrationMessage(p);
    assert_eq!(m.kind(), MessageKind::PlayerRegistration);
    assert_eq!(m.payload(), Some(p));
    assert_eq!(BellMessage::DeferMessage.payload(), None);
    assert_eq!(Point::default(), Point { x: 0, y: 0, id: 0 });
}
