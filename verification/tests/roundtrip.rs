use mqtt_codec::decode::decode;
use mqtt_codec::encode::encode;
use mqtt_codec::fields::{ConnectReturnCode, QoS, QoSWithPacketIdentifier, SubscribeReturnCode};
use mqtt_codec::packets::{
    ConnackPacket, ConnectPacket, DisconnectPacket, Packet, PingreqPacket, PingrespPacket,
    PubackPacket, PubcompPacket, PublishPacket, PubrecPacket, PubrelPacket, SubackPacket,
    SubscribePacket, UnsubackPacket, UnsubscribePacket,
};
use mqtt_codec::topic::{TopicFilter, TopicName};

fn roundtrip(p: Packet) {
    let bytes = encode(&p).unwrap();
    let (q, n) = decode(&bytes).unwrap();
    assert_eq!(q, p);
    assert_eq!(n, bytes.len());
}

#[test]
fn roundtrip_connack() {
    roundtrip(Packet::Connack(ConnackPacket::new(true, ConnectReturnCode::ConnectionAccepted)));
    roundtrip(Packet::Connack(ConnackPacket::new(false, ConnectReturnCode::ConnectionAccepted)));
    roundtrip(Packet::Connack(ConnackPacket::new(
        false,
        ConnectReturnCode::UnacceptableProtocolVersion,
    )));
    roundtrip(Packet::Connack(ConnackPacket::new(false, ConnectReturnCode::IdentifierRejected)));
    roundtrip(Packet::Connack(ConnackPacket::new(false, ConnectReturnCode::ServiceUnavailable)));
    roundtrip(Packet::Connack(ConnackPacket::new(
        false,
        ConnectReturnCode::BadUserNameOrPassword,
    )));
    roundtrip(Packet::Connack(ConnackPacket::new(false, ConnectReturnCode::NotAuthorized)));
    roundtrip(Packet::Connack(ConnackPacket::new(false, ConnectReturnCode::Reserved(128))));
}

#[test]
fn roundtrip_connect_variations() {
    let mut packet = ConnectPacket::new(b"client-id".to_vec());
    roundtrip(Packet::Connect(packet.clone()));
    packet.set_keep_alive(1000);
    roundtrip(Packet::Connect(packet.clone()));
    packet.set_user_name(Some(b"user-name".to_vec()));
    roundtrip(Packet::Connect(packet.clone()));
    packet.set_will(Some((TopicName::new(b"topic".to_vec()).unwrap(), Vec::new())));
    roundtrip(Packet::Connect(packet.clone()));
    packet.set_client_identifier(b"other client id".to_vec());
    roundtrip(Packet::Connect(packet.clone()));
    packet.set_will_retain(true).unwrap();
    roundtrip(Packet::Connect(packet.clone()));
    packet.set_will_qos(2).unwrap();
    roundtrip(Packet::Connect(packet.clone()));
    packet.set_clean_session(true);
    roundtrip(Packet::Connect(packet.clone()));
    packet.set_password(Some(b"secret".to_vec())).unwrap();
    roundtrip(Packet::Connect(packet.clone()));
}

#[test]
fn connect_exact_bytes() {
    let packet = ConnectPacket::new(b"client-id".to_vec());
    let bytes = encode(&Packet::Connect(packet)).unwrap();
    let mut expect: Vec<u8> = vec![0x10, 21, 0, 4, 77, 81, 84, 84, 4, 0, 0, 0, 0, 9];
    expect.extend_from_slice(b"client-id");
    assert_eq!(bytes, expect);
}

#[test]
fn roundtrip_publish_variations() {
    let mut packet = PublishPacket::new(
        TopicName::new(b"topic".to_vec()).unwrap(),
        QoSWithPacketIdentifier::Level0,
        Vec::new(),
    );
    roundtrip(Packet::Publish(packet.clone()));
    packet.set_dup(true);
    roundtrip(Packet::Publish(packet.clone()));
    packet.set_qos(QoSWithPacketIdentifier::Level1(1));
    roundtrip(Packet::Publish(packet.clone()));
    packet.set_qos(QoSWithPacketIdentifier::Level2(1));
    roundtrip(Packet::Publish(packet.clone()));
    packet.set_payload(
        "Lorem ipsum dolor sit amet, consectetur adipiscing elit, sed do
        eiusmod tempor incididunt ut labore et dolore magna aliqua."
            .repeat(10)
            .as_bytes()
            .to_vec(),
    );
    roundtrip(Packet::Publish(packet.clone()));
    packet.set_retain(true);
    roundtrip(Packet::Publish(packet));
}

#[test]
fn publish_level0_has_no_identifier_field() {
    let packet = PublishPacket::new(
        TopicName::new(b"t".to_vec()).unwrap(),
        QoSWithPacketIdentifier::Level0,
        vec![9],
    );
    let bytes = encode(&Packet::Publish(packet)).unwrap();
    assert_eq!(bytes, vec![0x30, 4, 0, 1, 116, 9]);
}

#[test]
fn publish_level1_has_identifier_field() {
    let packet = PublishPacket::new(
        TopicName::new(b"t".to_vec()).unwrap(),
        QoSWithPacketIdentifier::Level1(258),
        vec![9],
    );
    let bytes = encode(&Packet::Publish(packet)).unwrap();
    assert_eq!(bytes, vec![0x32, 6, 0, 1, 116, 1, 2, 9]);
}

#[test]
fn publish_level2_has_identifier_field() {
    let packet = PublishPacket::new(
        TopicName::new(b"t".to_vec()).unwrap(),
        QoSWithPacketIdentifier::Level2(65535),
        Vec::new(),
    );
    let bytes = encode(&Packet::Publish(packet)).unwrap();
    assert_eq!(bytes, vec![0x34, 5, 0, 1, 116, 255, 255]);
}

#[test]
fn roundtrip_identifier_packets() {
    let step = u16::MAX / 4;
    for i in 0..4u16 {
        let pid = i * step;
        roundtrip(Packet::Puback(PubackPacket::new(pid)));
        roundtrip(Packet::Pubrec(PubrecPacket::new(pid)));
        roundtrip(Packet::Pubrel(PubrelPacket::new(pid)));
        roundtrip(Packet::Pubcomp(PubcompPacket::new(pid)));
        roundtrip(Packet::Unsuback(UnsubackPacket::new(pid)));
    }
}

#[test]
fn roundtrip_suback_variations() {
    roundtrip(Packet::Suback(SubackPacket::new(1, Vec::new())));
    roundtrip(Packet::Suback(SubackPacket::new(
        2,
        vec![SubscribeReturnCode::MaximumQoSLevel0],
    )));
    roundtrip(Packet::Suback(SubackPacket::new(
        5,
        vec![
            SubscribeReturnCode::MaximumQoSLevel0,
            SubscribeReturnCode::MaximumQoSLevel1,
            SubscribeReturnCode::MaximumQoSLevel2,
            SubscribeReturnCode::Failure,
        ],
    )));
    roundtrip(Packet::Suback(SubackPacket::new(6, vec![SubscribeReturnCode::Reserved(7)])));
}

#[test]
fn subscribe_scenario_keeps_order() {
    let packet = SubscribePacket::new(
        3,
        vec![
            (TopicFilter::new(b"#".to_vec()).unwrap(), QoS::Level0),
            (TopicFilter::new(b"topic/filter".to_vec()).unwrap(), QoS::Level1),
        ],
    );
    let bytes = encode(&Packet::Subscribe(packet)).unwrap();
    let (decoded, n) = decode(&bytes).unwrap();
    assert_eq!(n, bytes.len());
    match decoded {
        Packet::Subscribe(s) => {
            assert_eq!(s.packet_identifier(), 3);
            let subs = s.subscribes();
            assert_eq!(subs.len(), 2);
            assert_eq!(subs[0].0.as_bytes(), b"#");
            assert_eq!(subs[0].1, QoS::Level0);
            assert_eq!(subs[1].0.as_bytes(), b"topic/filter");
            assert_eq!(subs[1].1, QoS::Level1);
        },
        other => panic!("expected a subscribe, got {:?}", other),
    }
}

#[test]
fn roundtrip_subscribe_variations() {
    roundtrip(Packet::Subscribe(SubscribePacket::new(1, Vec::new())));
    roundtrip(Packet::Subscribe(SubscribePacket::new(
        5,
        vec![
            (TopicFilter::new(b"#".to_vec()).unwrap(), QoS::Level0),
            (TopicFilter::new(b"topic/filter".to_vec()).unwrap(), QoS::Level1),
            (TopicFilter::new(b"topic/+/filter".to_vec()).unwrap(), QoS::Level2),
            (TopicFilter::new(b"topic/+/filter/#".to_vec()).unwrap(), QoS::Level2),
        ],
    )));
}

#[test]
fn roundtrip_unsubscribe_variations() {
    roundtrip(Packet::Unsubscribe(UnsubscribePacket::new(1, Vec::new())));
    roundtrip(Packet::Unsubscribe(UnsubscribePacket::new(
        5,
        vec![
            TopicFilter::new(b"#".to_vec()).unwrap(),
            TopicFilter::new(b"topic/filter".to_vec()).unwrap(),
            TopicFilter::new(b"topic/+/filter".to_vec()).unwrap(),
            TopicFilter::new(b"topic/+/filter/#".to_vec()).unwrap(),
        ],
    )));
}

#[test]
fn roundtrip_empty_body_packets() {
    roundtrip(Packet::Pingreq(PingreqPacket::new()));
    roundtrip(Packet::Pingresp(PingrespPacket::new()));
    roundtrip(Packet::Disconnect(DisconnectPacket::new()));
    assert_eq!(encode(&Packet::Pingreq(PingreqPacket::new())).unwrap(), vec![0xC0, 0]);
    assert_eq!(encode(&Packet::Pingresp(PingrespPacket::new())).unwrap(), vec![0xD0, 0]);
    assert_eq!(encode(&Packet::Disconnect(DisconnectPacket::new())).unwrap(), vec![0xE0, 0]);
}

#[test]
fn remaining_length_matches_body() {
    let packets = vec![
        Packet::Connect(ConnectPacket::new(b"client-id".to_vec())),
        Packet::Connack(ConnackPacket::new(true, ConnectReturnCode::ConnectionAccepted)),
        Packet::Publish(PublishPacket::new(
            TopicName::new(b"topic".to_vec()).unwrap(),
            QoSWithPacketIdentifier::Level1(7),
            vec![1, 2, 3],
        )),
        Packet::Puback(PubackPacket::new(9)),
        Packet::Subscribe(SubscribePacket::new(
            3,
            vec![(TopicFilter::new(b"#".to_vec()).unwrap(), QoS::Level0)],
        )),
        Packet::Pingreq(PingreqPacket::new()),
    ];
    for p in packets {
        let bytes = encode(&p).unwrap();
        let (rl, vlen) = mqtt_codec::decode::decode_varint(&bytes[1..]).unwrap();
        assert_eq!(1 + vlen + rl as usize, bytes.len());
    }
}

#[test]
fn decode_leaves_trailing_bytes_unread() {
    let mut bytes = encode(&Packet::Puback(PubackPacket::new(5))).unwrap();
    let len = bytes.len();
    bytes.extend_from_slice(&[0xAA, 0xBB]);
    let (p, n) = decode(&bytes).unwrap();
    assert_eq!(p, Packet::Puback(PubackPacket::new(5)));
    assert_eq!(n, len);
}
