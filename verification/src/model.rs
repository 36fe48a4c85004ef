//! Mathematical model of control packets and of the wire format.
//!
//! Every packet kind has a ghost mirror built from sequences and plain
//! values. `encoded` gives the exact wire bytes of a packet, `spec_decode`
//! reads a packet back from wire bytes; the executable codec is specified
//! against these two functions, and the laws module proves them inverse to
//! each other.

use vstd::prelude::*;

use crate::errors::DecodingError;
use crate::fields::{
    crc_byte, crc_canonical, crc_of_byte, qos_byte, qos_of_byte, qos_pid_bits, src_byte,
    src_canonical, src_of_byte, ConnectReturnCode, QoS, QoSWithPacketIdentifier,
    SubscribeReturnCode,
};
use crate::topic::{valid_topic_filter, valid_topic_name};
use crate::wire::{dec_lp, dec_u16, dec_varint, enc_lp, enc_u16, enc_varint};

verus! {

/// Model of a connect packet's will message.
pub struct WillV {
    pub topic: Seq<u8>,
    pub message: Seq<u8>,
    pub qos: u8,
    pub retain: bool,
}

/// Model of a connect packet.
pub struct ConnectV {
    pub client_id: Seq<u8>,
    pub keep_alive: u16,
    pub clean_session: bool,
    pub will: Option<WillV>,
    pub user_name: Option<Seq<u8>>,
    pub password: Option<Seq<u8>>,
}

/// Model of a connack packet.
pub struct ConnackV {
    pub session_present: bool,
    pub code: ConnectReturnCode,
}

/// Model of a publish packet.
pub struct PublishV {
    pub topic: Seq<u8>,
    pub qos: QoSWithPacketIdentifier,
    pub dup: bool,
    pub retain: bool,
    pub payload: Seq<u8>,
}

/// Model of a subscribe packet: identifier and ordered filter/level pairs.
pub struct SubscribeV {
    pub pid: u16,
    pub subs: Seq<(Seq<u8>, QoS)>,
}

/// Model of a suback packet: identifier and ordered return codes.
pub struct SubackV {
    pub pid: u16,
    pub codes: Seq<SubscribeReturnCode>,
}

/// Model of an unsubscribe packet: identifier and ordered filters.
pub struct UnsubscribeV {
    pub pid: u16,
    pub filters: Seq<Seq<u8>>,
}

/// Model of a control packet: one variant per kind, carrying exactly the
/// fields valid for that kind.
pub enum PacketV {
    Connect(ConnectV),
    Connack(ConnackV),
    Publish(PublishV),
    Puback(u16),
    Pubrec(u16),
    Pubrel(u16),
    Pubcomp(u16),
    Subscribe(SubscribeV),
    Suback(SubackV),
    Unsubscribe(UnsubscribeV),
    Unsuback(u16),
    Pingreq,
    Pingresp,
    Disconnect,
}

/// Well-formed will: a grammatical topic name and a level in range.
pub open spec fn wf_will(w: WillV) -> bool {
    valid_topic_name(w.topic) && w.qos <= 2
}

/// Well-formed connect: a well-formed will if any, and a password only
/// beside a user name.
pub open spec fn wf_connect(c: ConnectV) -> bool {
    &&& match c.will {
        Some(w) => wf_will(w),
        None => true,
    }
    &&& c.password is Some ==> c.user_name is Some
}

/// Well-formed packet: every invariant the constructors establish. These are
/// exactly the packet values that can be built through the library.
pub open spec fn wf_packet(p: PacketV) -> bool {
    match p {
        PacketV::Connect(c) => wf_connect(c),
        PacketV::Connack(c) => crc_canonical(c.code),
        PacketV::Publish(v) => valid_topic_name(v.topic),
        PacketV::Subscribe(s) => forall|i: int|
            0 <= i < s.subs.len() ==> #[trigger] valid_topic_filter(s.subs[i].0),
        PacketV::Suback(s) => forall|i: int|
            0 <= i < s.codes.len() ==> #[trigger] src_canonical(s.codes[i]),
        PacketV::Unsubscribe(u) => forall|i: int|
            0 <= i < u.filters.len() ==> #[trigger] valid_topic_filter(u.filters[i]),
        _ => true,
    }
}

/// A byte string short enough for a 16-bit length prefix.
pub open spec fn fits_lp(s: Seq<u8>) -> bool {
    s.len() <= 65535
}

/// Every length-prefixed field of the packet fits its prefix.
pub open spec fn strings_fit(p: PacketV) -> bool {
    match p {
        PacketV::Connect(c) => {
            &&& fits_lp(c.client_id)
            &&& match c.will {
                Some(w) => fits_lp(w.topic) && fits_lp(w.message),
                None => true,
            }
            &&& match c.user_name {
                Some(u) => fits_lp(u),
                None => true,
            }
            &&& match c.password {
                Some(pw) => fits_lp(pw),
                None => true,
            }
        },
        PacketV::Publish(v) => fits_lp(v.topic),
        PacketV::Subscribe(s) => forall|i: int|
            0 <= i < s.subs.len() ==> #[trigger] fits_lp(s.subs[i].0),
        PacketV::Unsubscribe(u) => forall|i: int|
            0 <= i < u.filters.len() ==> #[trigger] fits_lp(u.filters[i]),
        _ => true,
    }
}

/// The connect flags byte: user name (bit 7), password (bit 6), will retain
/// (bit 5), will level (bits 4-3), will present (bit 2), clean session
/// (bit 1); bit 0 is reserved as zero.
pub open spec fn connect_flags_byte(c: ConnectV) -> u8 {
    ((if c.user_name is Some {
        128int
    } else {
        0int
    }) + (if c.password is Some {
        64int
    } else {
        0int
    }) + (match c.will {
        Some(w) => (if w.retain {
            32int
        } else {
            0int
        }) + (w.qos as int) * 8 + 4,
        None => 0int,
    }) + (if c.clean_session {
        2int
    } else {
        0int
    })) as u8
}

/// The protocol name bytes, `MQTT`.
pub open spec fn protocol_name() -> Seq<u8> {
    seq![77u8, 81u8, 84u8, 84u8]
}

/// Body of a connect packet: protocol name and level, flags byte,
/// keep-alive, then client identifier, will topic and message, user name and
/// password, each present as its flag says.
#[verifier::opaque]
pub open spec fn enc_connect_body(c: ConnectV) -> Seq<u8> {
    enc_lp(protocol_name()) + seq![4u8, connect_flags_byte(c)] + enc_u16(c.keep_alive) + enc_lp(
        c.client_id,
    ) + (match c.will {
        Some(w) => enc_lp(w.topic) + enc_lp(w.message),
        None => seq![],
    }) + (match c.user_name {
        Some(u) => enc_lp(u),
        None => seq![],
    }) + (match c.password {
        Some(pw) => enc_lp(pw),
        None => seq![],
    })
}

/// Body of a connack packet: the session-present byte and the return code.
pub open spec fn enc_connack_body(c: ConnackV) -> Seq<u8> {
    seq![
        if c.session_present {
            1u8
        } else {
            0u8
        },
        crc_byte(c.code),
    ]
}

/// Body of a publish packet: topic name, an identifier exactly when the
/// level is above 0, then the raw payload with no length prefix.
pub open spec fn enc_publish_body(v: PublishV) -> Seq<u8> {
    enc_lp(v.topic) + (match v.qos {
        QoSWithPacketIdentifier::Level0 => seq![],
        QoSWithPacketIdentifier::Level1(pid) => enc_u16(pid),
        QoSWithPacketIdentifier::Level2(pid) => enc_u16(pid),
    }) + v.payload
}

/// Subscribe entries in order: each a length-prefixed filter and a level
/// byte. The list carries no count of its own; its end is the body's end.
pub open spec fn enc_subs(subs: Seq<(Seq<u8>, QoS)>) -> Seq<u8>
    decreases subs.len(),
{
    if subs.len() == 0 {
        seq![]
    } else {
        enc_lp(subs[0].0) + seq![qos_byte(subs[0].1)] + enc_subs(subs.skip(1))
    }
}

/// Suback return codes in order, one byte each.
pub open spec fn enc_codes(codes: Seq<SubscribeReturnCode>) -> Seq<u8>
    decreases codes.len(),
{
    if codes.len() == 0 {
        seq![]
    } else {
        seq![src_byte(codes[0])] + enc_codes(codes.skip(1))
    }
}

/// Unsubscribe filters in order, each length-prefixed.
pub open spec fn enc_filters(fs: Seq<Seq<u8>>) -> Seq<u8>
    decreases fs.len(),
{
    if fs.len() == 0 {
        seq![]
    } else {
        enc_lp(fs[0]) + enc_filters(fs.skip(1))
    }
}

/// Body of a packet: variable header and payload, everything after the
/// fixed header.
pub open spec fn enc_body(p: PacketV) -> Seq<u8> {
    match p {
        PacketV::Connect(c) => enc_connect_body(c),
        PacketV::Connack(c) => enc_connack_body(c),
        PacketV::Publish(v) => enc_publish_body(v),
        PacketV::Puback(pid) => enc_u16(pid),
        PacketV::Pubrec(pid) => enc_u16(pid),
        PacketV::Pubrel(pid) => enc_u16(pid),
        PacketV::Pubcomp(pid) => enc_u16(pid),
        PacketV::Subscribe(s) => enc_u16(s.pid) + enc_subs(s.subs),
        PacketV::Suback(s) => enc_u16(s.pid) + enc_codes(s.codes),
        PacketV::Unsubscribe(u) => enc_u16(u.pid) + enc_filters(u.filters),
        PacketV::Unsuback(pid) => enc_u16(pid),
        PacketV::Pingreq => seq![],
        PacketV::Pingresp => seq![],
        PacketV::Disconnect => seq![],
    }
}

/// The packet-type nibble of the fixed header.
pub open spec fn packet_type(p: PacketV) -> u8 {
    match p {
        PacketV::Connect(_) => 1,
        PacketV::Connack(_) => 2,
        PacketV::Publish(_) => 3,
        PacketV::Puback(_) => 4,
        PacketV::Pubrec(_) => 5,
        PacketV::Pubrel(_) => 6,
        PacketV::Pubcomp(_) => 7,
        PacketV::Subscribe(_) => 8,
        PacketV::Suback(_) => 9,
        PacketV::Unsubscribe(_) => 10,
        PacketV::Unsuback(_) => 11,
        PacketV::Pingreq => 12,
        PacketV::Pingresp => 13,
        PacketV::Disconnect => 14,
    }
}

/// The flags nibble of the fixed header: for a publish, DUP (bit 3), level
/// (bits 2-1) and RETAIN (bit 0); fixed at 2 for pubrel, subscribe and
/// unsubscribe; 0 everywhere else.
pub open spec fn packet_flags(p: PacketV) -> u8 {
    match p {
        PacketV::Publish(v) => ((if v.dup {
            8int
        } else {
            0int
        }) + (qos_pid_bits(v.qos) as int) * 2 + (if v.retain {
            1int
        } else {
            0int
        })) as u8,
        PacketV::Pubrel(_) => 2,
        PacketV::Subscribe(_) => 2,
        PacketV::Unsubscribe(_) => 2,
        _ => 0,
    }
}

/// Byte length of the body; what the remaining-length field must carry.
pub open spec fn body_len(p: PacketV) -> int {
    enc_body(p).len() as int
}

/// A packet the wire format can carry: well-formed, every prefixed field
/// fits 16 bits, and the body fits the remaining-length field.
pub open spec fn encodable(p: PacketV) -> bool {
    wf_packet(p) && strings_fit(p) && body_len(p) <= 268435455
}

/// The wire bytes of a packet: type and flags nibbles packed into one byte,
/// the body length as a remaining-length field, then the body.
pub open spec fn encoded(p: PacketV) -> Seq<u8> {
    seq![((packet_type(p) as int) * 16 + (packet_flags(p) as int)) as u8] + enc_varint(body_len(p))
        + enc_body(p)
}

/// Reads a connect body. Checks the protocol name and level, the reserved
/// flag bit, flag consistency (a password only beside a user name, will
/// options only beside a will), the will topic grammar and the will level,
/// and demands the body end exactly after the promised fields.
#[verifier::opaque]
pub open spec fn dec_connect_body(b: Seq<u8>) -> Result<ConnectV, DecodingError> {
    match dec_lp(b) {
        Err(e) => Err(e),
        Ok((pname, c0)) => {
            if pname != protocol_name() {
                Err(DecodingError::InvalidProtocol)
            } else {
                let b1 = b.skip(c0);
                if b1.len() < 2 {
                    Err(DecodingError::UnexpectedEof)
                } else if b1[0] != 4 {
                    Err(DecodingError::InvalidProtocol)
                } else {
                    let f = b1[1] as int;
                    let user_flag = f / 128 % 2 == 1;
                    let pass_flag = f / 64 % 2 == 1;
                    let wretain = f / 32 % 2 == 1;
                    let wqos = f / 8 % 4;
                    let will_flag = f / 4 % 2 == 1;
                    let clean = f / 2 % 2 == 1;
                    if f % 2 != 0 {
                        Err(DecodingError::InvalidFlags)
                    } else if pass_flag && !user_flag {
                        Err(DecodingError::InvalidFlags)
                    } else if !will_flag && (wretain || wqos != 0) {
                        Err(DecodingError::InvalidFlags)
                    } else if will_flag && wqos == 3 {
                        Err(DecodingError::InvalidQoS)
                    } else {
                        match dec_u16(b1.skip(2)) {
                            Err(e) => Err(e),
                            Ok((keep_alive, _)) => {
                                let b2 = b1.skip(4);
                                match dec_lp(b2) {
                                    Err(e) => Err(e),
                                    Ok((client_id, c1)) => dec_connect_tail(
                                        b2.skip(c1),
                                        ConnectV {
                                            client_id,
                                            keep_alive,
                                            clean_session: clean,
                                            will: None,
                                            user_name: None,
                                            password: None,
                                        },
                                        will_flag,
                                        wqos as u8,
                                        wretain,
                                        user_flag,
                                        pass_flag,
                                    ),
                                }
                            },
                        }
                    }
                }
            }
        },
    }
}

/// Reads the connect payload after the client identifier: will topic and
/// message, user name and password, each present as its flag says, with
/// nothing after them.
#[verifier::opaque]
pub open spec fn dec_connect_tail(
    b: Seq<u8>,
    base: ConnectV,
    will_flag: bool,
    wqos: u8,
    wretain: bool,
    user_flag: bool,
    pass_flag: bool,
) -> Result<ConnectV, DecodingError> {
    if will_flag {
        match dec_lp(b) {
            Err(e) => Err(e),
            Ok((wtopic, c0)) => {
                if !valid_topic_name(wtopic) {
                    Err(DecodingError::InvalidTopic)
                } else {
                    match dec_lp(b.skip(c0)) {
                        Err(e) => Err(e),
                        Ok((wmsg, c1)) => dec_connect_users(
                            b.skip(c0).skip(c1),
                            ConnectV {
                                will: Some(
                                    WillV { topic: wtopic, message: wmsg, qos: wqos, retain: wretain },
                                ),
                                ..base
                            },
                            user_flag,
                            pass_flag,
                        ),
                    }
                }
            },
        }
    } else {
        dec_connect_users(b, base, user_flag, pass_flag)
    }
}

/// Reads the user name and password fields of a connect payload, each
/// present as its flag says, with nothing after them.
#[verifier::opaque]
pub open spec fn dec_connect_users(b: Seq<u8>, base: ConnectV, user_flag: bool, pass_flag: bool) -> Result<
    ConnectV,
    DecodingError,
> {
    if user_flag {
        match dec_lp(b) {
            Err(e) => Err(e),
            Ok((user, c0)) => dec_connect_pass(b.skip(c0), ConnectV { user_name: Some(user), ..base }, pass_flag),
        }
    } else {
        dec_connect_pass(b, base, pass_flag)
    }
}

/// Reads the password field of a connect payload if its flag says so, with
/// nothing after it.
#[verifier::opaque]
pub open spec fn dec_connect_pass(b: Seq<u8>, base: ConnectV, pass_flag: bool) -> Result<
    ConnectV,
    DecodingError,
> {
    if pass_flag {
        match dec_lp(b) {
            Err(e) => Err(e),
            Ok((pw, c0)) => {
                if b.skip(c0).len() != 0 {
                    Err(DecodingError::LengthMismatch)
                } else {
                    Ok(ConnectV { password: Some(pw), ..base })
                }
            },
        }
    } else if b.len() != 0 {
        Err(DecodingError::LengthMismatch)
    } else {
        Ok(base)
    }
}

/// Reads a connack body: exactly two bytes, the upper seven bits of the
/// first reserved as zero (non-zero is rejected), every return-code byte
/// accepted.
pub open spec fn dec_connack_body(b: Seq<u8>) -> Result<ConnackV, DecodingError> {
    if b.len() < 2 {
        Err(DecodingError::UnexpectedEof)
    } else if b.len() > 2 {
        Err(DecodingError::LengthMismatch)
    } else if b[0] > 1 {
        Err(DecodingError::InvalidFlags)
    } else {
        Ok(ConnackV { session_present: b[0] == 1, code: crc_of_byte(b[1]) })
    }
}

/// Reads a publish body under the given flags nibble: level bits of 3 are
/// rejected, the topic must be a grammatical name, an identifier follows
/// exactly when the level is above 0, and all bytes after it are the
/// payload.
pub open spec fn dec_publish_body(flags: u8, b: Seq<u8>) -> Result<PublishV, DecodingError> {
    let f = flags as int;
    let dup = f / 8 % 2 == 1;
    let qbits = f / 2 % 4;
    let retain = f % 2 == 1;
    if qbits == 3 {
        Err(DecodingError::InvalidQoS)
    } else {
        match dec_lp(b) {
            Err(e) => Err(e),
            Ok((topic, c0)) => {
                if !valid_topic_name(topic) {
                    Err(DecodingError::InvalidTopic)
                } else {
                    let b1 = b.skip(c0);
                    if qbits == 0 {
                        Ok(
                            PublishV {
                                topic,
                                qos: QoSWithPacketIdentifier::Level0,
                                dup,
                                retain,
                                payload: b1,
                            },
                        )
                    } else {
                        match dec_u16(b1) {
                            Err(e) => Err(e),
                            Ok((pid, _)) => Ok(
                                PublishV {
                                    topic,
                                    qos: if qbits == 1 {
                                        QoSWithPacketIdentifier::Level1(pid)
                                    } else {
                                        QoSWithPacketIdentifier::Level2(pid)
                                    },
                                    dup,
                                    retain,
                                    payload: b1.skip(2),
                                },
                            ),
                        }
                    }
                }
            },
        }
    }
}

/// Reads a body that is exactly one packet identifier.
pub open spec fn dec_pid_body(b: Seq<u8>) -> Result<u16, DecodingError> {
    if b.len() < 2 {
        Err(DecodingError::UnexpectedEof)
    } else if b.len() > 2 {
        Err(DecodingError::LengthMismatch)
    } else {
        match dec_u16(b) {
            Err(e) => Err(e),
            Ok((pid, _)) => Ok(pid),
        }
    }
}

/// Reads subscribe entries until the body is exhausted: each a
/// length-prefixed grammatical filter and a level byte below 3.
pub open spec fn dec_subs(b: Seq<u8>) -> Result<Seq<(Seq<u8>, QoS)>, DecodingError>
    decreases b.len(),
{
    if b.len() == 0 {
        Ok(seq![])
    } else {
        match dec_lp(b) {
            Err(e) => Err(e),
            Ok((filter, c0)) => {
                if !valid_topic_filter(filter) {
                    Err(DecodingError::InvalidTopic)
                } else if b.skip(c0).len() == 0 {
                    Err(DecodingError::UnexpectedEof)
                } else if b[c0] > 2 {
                    Err(DecodingError::InvalidQoS)
                } else {
                    match dec_subs(b.skip(c0 + 1)) {
                        Err(e) => Err(e),
                        Ok(rest) => Ok(seq![(filter, qos_of_byte(b[c0]))] + rest),
                    }
                }
            },
        }
    }
}

/// Reads suback return codes until the body is exhausted; every byte is a
/// code.
pub open spec fn dec_codes(b: Seq<u8>) -> Seq<SubscribeReturnCode>
    decreases b.len(),
{
    if b.len() == 0 {
        seq![]
    } else {
        seq![src_of_byte(b[0])] + dec_codes(b.skip(1))
    }
}

/// Reads unsubscribe filters until the body is exhausted: each
/// length-prefixed and grammatical.
pub open spec fn dec_filters(b: Seq<u8>) -> Result<Seq<Seq<u8>>, DecodingError>
    decreases b.len(),
{
    if b.len() == 0 {
        Ok(seq![])
    } else {
        match dec_lp(b) {
            Err(e) => Err(e),
            Ok((filter, c0)) => {
                if !valid_topic_filter(filter) {
                    Err(DecodingError::InvalidTopic)
                } else {
                    match dec_filters(b.skip(c0)) {
                        Err(e) => Err(e),
                        Ok(rest) => Ok(seq![filter] + rest),
                    }
                }
            },
        }
    }
}

/// Reads a subscribe body: the identifier, then entries to the body's end.
pub open spec fn dec_subscribe_body(b: Seq<u8>) -> Result<SubscribeV, DecodingError> {
    match dec_u16(b) {
        Err(e) => Err(e),
        Ok((pid, _)) => match dec_subs(b.skip(2)) {
            Err(e) => Err(e),
            Ok(subs) => Ok(SubscribeV { pid, subs }),
        },
    }
}

/// Reads a suback body: the identifier, then codes to the body's end.
pub open spec fn dec_suback_body(b: Seq<u8>) -> Result<SubackV, DecodingError> {
    match dec_u16(b) {
        Err(e) => Err(e),
        Ok((pid, _)) => Ok(SubackV { pid, codes: dec_codes(b.skip(2)) }),
    }
}

/// Reads an unsubscribe body: the identifier, then filters to the body's
/// end.
pub open spec fn dec_unsubscribe_body(b: Seq<u8>) -> Result<UnsubscribeV, DecodingError> {
    match dec_u16(b) {
        Err(e) => Err(e),
        Ok((pid, _)) => match dec_filters(b.skip(2)) {
            Err(e) => Err(e),
            Ok(filters) => Ok(UnsubscribeV { pid, filters }),
        },
    }
}

/// Reads a body that must be empty.
pub open spec fn dec_empty_body(p: PacketV, b: Seq<u8>) -> Result<PacketV, DecodingError> {
    if b.len() != 0 {
        Err(DecodingError::LengthMismatch)
    } else {
        Ok(p)
    }
}

/// Dispatches a body to its kind's reader. The flags nibble must be 2 for
/// pubrel, subscribe and unsubscribe, is the publish bit field for publish,
/// and must be 0 everywhere else; a type nibble outside the fourteen kinds
/// is rejected.
pub open spec fn dec_packet_body(ptype: u8, flags: u8, b: Seq<u8>) -> Result<
    PacketV,
    DecodingError,
> {
    if ptype == 3 {
        match dec_publish_body(flags, b) {
            Err(e) => Err(e),
            Ok(v) => Ok(PacketV::Publish(v)),
        }
    } else if ptype == 6 || ptype == 8 || ptype == 10 {
        if flags != 2 {
            Err(DecodingError::InvalidFlags)
        } else if ptype == 6 {
            match dec_pid_body(b) {
                Err(e) => Err(e),
                Ok(pid) => Ok(PacketV::Pubrel(pid)),
            }
        } else if ptype == 8 {
            match dec_subscribe_body(b) {
                Err(e) => Err(e),
                Ok(s) => Ok(PacketV::Subscribe(s)),
            }
        } else {
            match dec_unsubscribe_body(b) {
                Err(e) => Err(e),
                Ok(u) => Ok(PacketV::Unsubscribe(u)),
            }
        }
    } else if flags != 0 {
        if 1 <= ptype <= 14 {
            Err(DecodingError::InvalidFlags)
        } else {
            Err(DecodingError::UnknownPacketType)
        }
    } else if ptype == 1 {
        match dec_connect_body(b) {
            Err(e) => Err(e),
            Ok(c) => Ok(PacketV::Connect(c)),
        }
    } else if ptype == 2 {
        match dec_connack_body(b) {
            Err(e) => Err(e),
            Ok(c) => Ok(PacketV::Connack(c)),
        }
    } else if ptype == 4 {
        match dec_pid_body(b) {
            Err(e) => Err(e),
            Ok(pid) => Ok(PacketV::Puback(pid)),
        }
    } else if ptype == 5 {
        match dec_pid_body(b) {
            Err(e) => Err(e),
            Ok(pid) => Ok(PacketV::Pubrec(pid)),
        }
    } else if ptype == 7 {
        match dec_pid_body(b) {
            Err(e) => Err(e),
            Ok(pid) => Ok(PacketV::Pubcomp(pid)),
        }
    } else if ptype == 9 {
        match dec_suback_body(b) {
            Err(e) => Err(e),
            Ok(s) => Ok(PacketV::Suback(s)),
        }
    } else if ptype == 11 {
        match dec_pid_body(b) {
            Err(e) => Err(e),
            Ok(pid) => Ok(PacketV::Unsuback(pid)),
        }
    } else if ptype == 12 {
        dec_empty_body(PacketV::Pingreq, b)
    } else if ptype == 13 {
        dec_empty_body(PacketV::Pingresp, b)
    } else if ptype == 14 {
        dec_empty_body(PacketV::Disconnect, b)
    } else {
        Err(DecodingError::UnknownPacketType)
    }
}

/// Reads one packet from the front of `b`: the type and flags byte, the
/// remaining length, then a body of exactly that many bytes handed to the
/// kind's reader. Yields the packet and the bytes consumed.
pub open spec fn spec_decode(b: Seq<u8>) -> Result<(PacketV, int), DecodingError> {
    if b.len() < 1 {
        Err(DecodingError::UnexpectedEof)
    } else {
        let ptype = b[0] / 16;
        let flags = b[0] % 16;
        match dec_varint(b.skip(1)) {
            Err(e) => Err(e),
            Ok((rl, vlen)) => {
                if b.len() < 1 + vlen + rl {
                    Err(DecodingError::UnexpectedEof)
                } else {
                    match dec_packet_body(ptype, flags, b.subrange(1 + vlen, 1 + vlen + rl)) {
                        Err(e) => Err(e),
                        Ok(p) => Ok((p, 1 + vlen + rl)),
                    }
                }
            },
        }
    }
}

} // verus!
