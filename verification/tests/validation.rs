use mqtt_codec::decode::decode;
use mqtt_codec::encode::encode;
use mqtt_codec::errors::{DecodingError, EncodingError, ValidationError};
use mqtt_codec::fields::{ConnectReturnCode, QoS, QoSWithPacketIdentifier, SubscribeReturnCode};
use mqtt_codec::packets::{ConnackPacket, ConnectPacket, Packet, PublishPacket, SubackPacket};
use mqtt_codec::topic::{TopicFilter, TopicName};

#[test]
fn topic_name_rejects_wildcards() {
    assert_eq!(TopicName::new(b"a/#".to_vec()).unwrap_err(), ValidationError::InvalidTopic);
    assert_eq!(TopicName::new(b"a/+/b".to_vec()).unwrap_err(), ValidationError::InvalidTopic);
    assert_eq!(TopicName::new(b"".to_vec()).unwrap_err(), ValidationError::InvalidTopic);
    assert_eq!(TopicName::new(b"a\0b".to_vec()).unwrap_err(), ValidationError::InvalidTopic);
    assert!(TopicName::new(b"a/b/c".to_vec()).is_ok());
}

#[test]
fn topic_filter_wildcard_grammar() {
    assert!(TopicFilter::new(b"a/#".to_vec()).is_ok());
    assert_eq!(TopicFilter::new(b"a/#/b".to_vec()).unwrap_err(), ValidationError::InvalidTopic);
    assert!(TopicFilter::new(b"#".to_vec()).is_ok());
    assert!(TopicFilter::new(b"+".to_vec()).is_ok());
    assert!(TopicFilter::new(b"a/+/b".to_vec()).is_ok());
    assert_eq!(TopicFilter::new(b"a+b".to_vec()).unwrap_err(), ValidationError::InvalidTopic);
    assert_eq!(TopicFilter::new(b"a#".to_vec()).unwrap_err(), ValidationError::InvalidTopic);
    assert_eq!(TopicFilter::new(b"".to_vec()).unwrap_err(), ValidationError::InvalidTopic);
    assert_eq!(TopicFilter::new(b"a\0b".to_vec()).unwrap_err(), ValidationError::InvalidTopic);
}

#[test]
fn qos_three_is_an_error() {
    assert_eq!(QoS::from_byte(3).unwrap_err(), ValidationError::InvalidQoS);
    assert_eq!(QoS::from_byte(2).unwrap(), QoS::Level2);
}

#[test]
fn connect_flag_consistency() {
    let mut packet = ConnectPacket::new(b"c".to_vec());
    assert_eq!(
        packet.set_password(Some(b"pw".to_vec())).unwrap_err(),
        ValidationError::InconsistentFlags
    );
    assert_eq!(packet.set_will_qos(1).unwrap_err(), ValidationError::InconsistentFlags);
    assert_eq!(packet.set_will_retain(true).unwrap_err(), ValidationError::InconsistentFlags);
    packet.set_will(Some((TopicName::new(b"t".to_vec()).unwrap(), Vec::new())));
    assert_eq!(packet.set_will_qos(3).unwrap_err(), ValidationError::InvalidQoS);
    assert!(packet.set_will_qos(2).is_ok());
    packet.set_user_name(Some(b"u".to_vec()));
    assert!(packet.set_password(Some(b"pw".to_vec())).is_ok());
    // Clearing the user name drops the password with it.
    packet.set_user_name(None);
    assert!(packet.password().is_none());
}

#[test]
fn return_codes_are_canonicalized() {
    let connack = ConnackPacket::new(false, ConnectReturnCode::Reserved(0));
    assert_eq!(connack.connect_return_code(), ConnectReturnCode::ConnectionAccepted);
    let connack = ConnackPacket::new(false, ConnectReturnCode::Reserved(200));
    assert_eq!(connack.connect_return_code(), ConnectReturnCode::Reserved(200));
    let suback = SubackPacket::new(1, vec![SubscribeReturnCode::Reserved(128)]);
    assert_eq!(suback.return_codes()[0], SubscribeReturnCode::Failure);
}

#[test]
fn truncated_header_fails() {
    // Only a fixed-header type byte, no remaining-length byte at all.
    assert_eq!(decode(&[0x30]), Err(DecodingError::MalformedVarint));
    assert_eq!(decode(&[]), Err(DecodingError::UnexpectedEof));
}

#[test]
fn truncated_body_fails() {
    // Puback promising two body bytes but carrying one.
    assert_eq!(decode(&[0x40, 0x02, 0x00]), Err(DecodingError::UnexpectedEof));
}

#[test]
fn trailing_bytes_within_bound_fail() {
    // Puback whose remaining length says three bytes: one too many for its
    // fields.
    assert_eq!(decode(&[0x40, 0x03, 0x00, 0x01, 0x02]), Err(DecodingError::LengthMismatch));
    // Pingreq with a non-empty body.
    assert_eq!(decode(&[0xC0, 0x01, 0x00]), Err(DecodingError::LengthMismatch));
}

#[test]
fn unknown_packet_type_fails() {
    assert_eq!(decode(&[0x00, 0x00]), Err(DecodingError::UnknownPacketType));
    assert_eq!(decode(&[0xF0, 0x00]), Err(DecodingError::UnknownPacketType));
}

#[test]
fn reserved_flag_bits_fail() {
    // Connack header flags must be 0.
    assert_eq!(decode(&[0x21, 0x02, 0x00, 0x00]), Err(DecodingError::InvalidFlags));
    // Subscribe header flags must be 2.
    assert_eq!(decode(&[0x80, 0x02, 0x00, 0x01]), Err(DecodingError::InvalidFlags));
    // Connack body: the seven high bits of the first byte must be 0; a
    // non-zero value is rejected.
    assert_eq!(decode(&[0x20, 0x02, 0x02, 0x00]), Err(DecodingError::InvalidFlags));
}

#[test]
fn publish_qos_bits_three_fail() {
    assert_eq!(decode(&[0x36, 0x04, 0x00, 0x01, 0x74, 0x09]), Err(DecodingError::InvalidQoS));
}

#[test]
fn publish_wildcard_topic_fails_on_decode() {
    // A publish whose topic bytes hold `#`.
    assert_eq!(decode(&[0x30, 0x03, 0x00, 0x01, 0x23]), Err(DecodingError::InvalidTopic));
}

#[test]
fn connect_wrong_protocol_fails() {
    // Protocol name `MQTX` instead of `MQTT`.
    let bytes = [0x10, 0x08, 0x00, 0x04, 77, 81, 84, 88, 4, 0];
    assert_eq!(decode(&bytes), Err(DecodingError::InvalidProtocol));
    // Right name, wrong level.
    let bytes = [0x10, 0x0C, 0x00, 0x04, 77, 81, 84, 84, 3, 0, 0, 0, 0, 0];
    assert_eq!(decode(&bytes), Err(DecodingError::InvalidProtocol));
}

#[test]
fn connect_inconsistent_flags_fail_on_decode() {
    // Password flag without user-name flag.
    let bytes = [0x10, 0x0C, 0x00, 0x04, 77, 81, 84, 84, 4, 0x40, 0, 0, 0, 0];
    assert_eq!(decode(&bytes), Err(DecodingError::InvalidFlags));
    // Reserved bit set.
    let bytes = [0x10, 0x0C, 0x00, 0x04, 77, 81, 84, 84, 4, 0x01, 0, 0, 0, 0];
    assert_eq!(decode(&bytes), Err(DecodingError::InvalidFlags));
    // Will options without a will.
    let bytes = [0x10, 0x0C, 0x00, 0x04, 77, 81, 84, 84, 4, 0x20, 0, 0, 0, 0];
    assert_eq!(decode(&bytes), Err(DecodingError::InvalidFlags));
    // Will level 3.
    let bytes = [0x10, 0x0C, 0x00, 0x04, 77, 81, 84, 84, 4, 0x1C, 0, 0, 0, 0];
    assert_eq!(decode(&bytes), Err(DecodingError::InvalidQoS));
}

#[test]
fn overlong_string_fails_to_encode() {
    let topic = TopicName::new(vec![0x61; 70000]).unwrap();
    let packet = PublishPacket::new(topic, QoSWithPacketIdentifier::Level0, Vec::new());
    assert_eq!(encode(&Packet::Publish(packet)), Err(EncodingError::StringTooLong));
}

#[test]
fn level0_flagged_publish_with_identifier_bytes_takes_them_as_payload() {
    // With level 0 no identifier field exists; any bytes after the topic
    // are payload by definition of the wire format.
    let bytes = [0x30, 0x05, 0x00, 0x01, 0x74, 0x00, 0x07];
    let (p, n) = decode(&bytes).unwrap();
    assert_eq!(n, bytes.len());
    match p {
        Packet::Publish(v) => {
            assert_eq!(v.qos(), QoSWithPacketIdentifier::Level0);
            assert_eq!(v.payload(), &vec![0x00, 0x07]);
        },
        other => panic!("expected a publish, got {:?}", other),
    }
}

#[test]
fn suback_unknown_code_roundtrips() {
    let bytes = [0x90, 0x03, 0x00, 0x01, 0x55];
    let (p, n) = decode(&bytes).unwrap();
    assert_eq!(n, bytes.len());
    match p {
        Packet::Suback(s) => {
            assert_eq!(s.return_codes()[0], SubscribeReturnCode::Reserved(0x55));
            assert_eq!(encode(&Packet::Suback(s)).unwrap(), bytes.to_vec());
        },
        other => panic!("expected a suback, got {:?}", other),
    }
}

#[test]
fn connack_unknown_code_roundtrips() {
    let bytes = [0x20, 0x02, 0x00, 0x80];
    let (p, n) = decode(&bytes).unwrap();
    assert_eq!(n, bytes.len());
    match p {
        Packet::Connack(c) => {
            assert_eq!(c.connect_return_code(), ConnectReturnCode::Reserved(0x80));
            assert_eq!(encode(&Packet::Connack(c)).unwrap(), bytes.to_vec());
        },
        other => panic!("expected a connack, got {:?}", other),
    }
}
