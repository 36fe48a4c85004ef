//! The executable decoder: reads one packet from the front of a byte
//! buffer, exactly as `spec_decode` in the model defines it.

use vstd::prelude::*;
use vstd::slice::{slice_index_get, slice_subrange, slice_to_vec};

use crate::errors::DecodingError;
use crate::fields::{ConnectReturnCode, QoS, QoSWithPacketIdentifier, SubscribeReturnCode};
use crate::model::{
    dec_codes, dec_connack_body, dec_connect_body, dec_connect_pass, dec_connect_tail,
    dec_connect_users, dec_filters, dec_packet_body, dec_pid_body, dec_publish_body,
    dec_suback_body, dec_subs, dec_subscribe_body, dec_unsubscribe_body, spec_decode, ConnectV,
    PacketV, PublishV, SubackV, SubscribeV, UnsubscribeV,
};
use crate::packets::{
    ConnackPacket, ConnectPacket, DisconnectPacket, Packet, PingreqPacket, PingrespPacket,
    PubackPacket, PubcompPacket, PublishPacket, PubrecPacket, PubrelPacket, SubackPacket,
    SubscribePacket, UnsubackPacket, UnsubscribePacket, Will,
};

use crate::topic::{TopicFilter, TopicName};
use crate::wire::{dec_lp, dec_u16, dec_varint, dec_varint_rec};

verus! {

/// Reads a remaining-length field after `depth` bytes of it were already
/// consumed.
fn read_varint_rec(b: &[u8], depth: u8) -> (r: Result<(u32, usize), DecodingError>)
    requires
        depth <= 3,
    ensures
        match r {
            Ok((v, c)) => dec_varint_rec(b@, depth as int) == Ok::<(int, int), DecodingError>(
                (v as int, c as int),
            ) && 1 <= c <= b@.len() && v < (if depth == 0 {
                268435456u32
            } else if depth == 1 {
                2097152u32
            } else if depth == 2 {
                16384u32
            } else {
                128u32
            }),
            Err(e) => dec_varint_rec(b@, depth as int) == Err::<(int, int), DecodingError>(e),
        },
    decreases 3 - depth,
{
    if b.len() == 0 {
        return Err(DecodingError::MalformedVarint);
    }
    let b0 = *slice_index_get(b, 0);
    if b0 < 128 {
        return Ok((b0 as u32, 1));
    }
    if depth >= 3 {
        return Err(DecodingError::MalformedVarint);
    }
    let rest = slice_subrange(b, 1, b.len());
    proof {
        assert(rest@ =~= b@.skip(1));
    }
    match read_varint_rec(rest, depth + 1) {
        Ok((v, c)) => Ok(((b0 - 128) as u32 + 128 * v, c + 1)),
        Err(e) => Err(e),
    }
}

/// Reads a remaining-length field from the front of `b`.
fn read_varint(b: &[u8]) -> (r: Result<(u32, usize), DecodingError>)
    ensures
        match r {
            Ok((v, c)) => dec_varint(b@) == Ok::<(int, int), DecodingError>((v as int, c as int))
                && 1 <= c <= b@.len() && v <= 268435455,
            Err(e) => dec_varint(b@) == Err::<(int, int), DecodingError>(e),
        },
{
    read_varint_rec(b, 0)
}

/// Decodes a remaining-length field on its own from the front of `buf`,
/// yielding the value and the bytes consumed. A fourth byte with its
/// continuation bit set, or input that ends mid-field, is malformed.
pub fn decode_varint(buf: &[u8]) -> (r: Result<(u32, usize), DecodingError>)
    ensures
        match r {
            Ok((v, c)) => dec_varint(buf@) == Ok::<(int, int), DecodingError>(
                (v as int, c as int),
            ) && 1 <= c <= buf@.len() && v <= 268435455,
            Err(e) => dec_varint(buf@) == Err::<(int, int), DecodingError>(e),
        },
{
    read_varint(buf)
}

/// Reads a big-endian 16-bit integer from the front of `b`.
fn read_u16(b: &[u8]) -> (r: Result<(u16, usize), DecodingError>)
    ensures
        match r {
            Ok((v, c)) => dec_u16(b@) == Ok::<(u16, int), DecodingError>((v, c as int)) && c == 2
                && b@.len() >= 2,
            Err(e) => dec_u16(b@) == Err::<(u16, int), DecodingError>(e),
        },
{
    if b.len() < 2 {
        return Err(DecodingError::UnexpectedEof);
    }
    let hi = *slice_index_get(b, 0);
    let lo = *slice_index_get(b, 1);
    Ok(((hi as u16) * 256 + (lo as u16), 2))
}

/// Reads a length-prefixed byte string from the front of `b`.
fn read_lp(b: &[u8]) -> (r: Result<(Vec<u8>, usize), DecodingError>)
    ensures
        match r {
            Ok((d, c)) => dec_lp(b@) == Ok::<(Seq<u8>, int), DecodingError>((d@, c as int)) && 2
                <= c <= b@.len(),
            Err(e) => dec_lp(b@) == Err::<(Seq<u8>, int), DecodingError>(e),
        },
{
    if b.len() < 2 {
        return Err(DecodingError::UnexpectedEof);
    }
    let hi = *slice_index_get(b, 0);
    let lo = *slice_index_get(b, 1);
    let l = (hi as usize) * 256 + (lo as usize);
    if b.len() - 2 < l {
        return Err(DecodingError::UnexpectedEof);
    }
    let data = slice_to_vec(slice_subrange(b, 2, 2 + l));
    Ok((data, 2 + l))
}

/// Reads a body that is exactly one packet identifier.
fn read_pid_body(b: &[u8]) -> (r: Result<u16, DecodingError>)
    ensures
        match r {
            Ok(pid) => dec_pid_body(b@) == Ok::<u16, DecodingError>(pid),
            Err(e) => dec_pid_body(b@) == Err::<u16, DecodingError>(e),
        },
{
    if b.len() < 2 {
        return Err(DecodingError::UnexpectedEof);
    }
    if b.len() > 2 {
        return Err(DecodingError::LengthMismatch);
    }
    match read_u16(b) {
        Ok((pid, _)) => Ok(pid),
        Err(e) => Err(e),
    }
}

/// Reads a connack body.
fn read_connack_body(b: &[u8]) -> (r: Result<ConnackPacket, DecodingError>)
    ensures
        match r {
            Ok(p) => dec_connack_body(b@) matches Ok(c) && p@ == c,
            Err(e) => dec_connack_body(b@) == Err::<crate::model::ConnackV, DecodingError>(e),
        },
{
    if b.len() < 2 {
        return Err(DecodingError::UnexpectedEof);
    }
    if b.len() > 2 {
        return Err(DecodingError::LengthMismatch);
    }
    let f = *slice_index_get(b, 0);
    if f > 1 {
        return Err(DecodingError::InvalidFlags);
    }
    let code = ConnectReturnCode::from_byte(*slice_index_get(b, 1));
    Ok(ConnackPacket::new(f == 1, code))
}

/// Reads a publish body under the given flags nibble.
fn read_publish_body(flags: u8, b: &[u8]) -> (r: Result<PublishPacket, DecodingError>)
    ensures
        match r {
            Ok(p) => dec_publish_body(flags, b@) matches Ok(v) && p@ == v,
            Err(e) => dec_publish_body(flags, b@) == Err::<PublishV, DecodingError>(e),
        },
{
    let dup = flags / 8 % 2 == 1;
    let qbits = flags / 2 % 4;
    let retain = flags % 2 == 1;
    if qbits == 3 {
        return Err(DecodingError::InvalidQoS);
    }
    let (topic_bytes, c0) = match read_lp(b) {
        Ok(x) => x,
        Err(e) => {
            return Err(e);
        },
    };
    let topic = match TopicName::new(topic_bytes) {
        Ok(t) => t,
        Err(_) => {
            return Err(DecodingError::InvalidTopic);
        },
    };
    let b1 = slice_subrange(b, c0, b.len());
    proof {
        assert(b1@ =~= b@.skip(c0 as int));
    }
    if qbits == 0 {
        let payload = slice_to_vec(b1);
        let mut p = PublishPacket::new(topic, QoSWithPacketIdentifier::Level0, payload);
        p.set_dup(dup);
        p.set_retain(retain);
        Ok(p)
    } else {
        let (pid, _) = match read_u16(b1) {
            Ok(x) => x,
            Err(e) => {
                return Err(e);
            },
        };
        let payload = slice_to_vec(slice_subrange(b1, 2, b1.len()));
        proof {
            assert(payload@ =~= b1@.skip(2));
        }
        let q = if qbits == 1 {
            QoSWithPacketIdentifier::Level1(pid)
        } else {
            QoSWithPacketIdentifier::Level2(pid)
        };
        let mut p = PublishPacket::new(topic, q, payload);
        p.set_dup(dup);
        p.set_retain(retain);
        Ok(p)
    }
}

/// Reads the password field of a connect payload.
fn read_connect_pass(b: &[u8], pass_flag: bool) -> (r: Result<Option<Vec<u8>>, DecodingError>)
    ensures
        match r {
            Ok(pw) => forall|base: ConnectV|
                base.password is None ==> #[trigger] dec_connect_pass(b@, base, pass_flag)
                    == Ok::<ConnectV, DecodingError>(
                    ConnectV {
                        password: match pw {
                            Some(x) => Some(x@),
                            None => None,
                        },
                        ..base
                    },
                ),
            Err(e) => forall|base: ConnectV| #[trigger]
                dec_connect_pass(b@, base, pass_flag) == Err::<ConnectV, DecodingError>(e),
        },
        (r matches Ok(pw) ==> (pw is Some <==> pass_flag)),
{
    proof {
        reveal(dec_connect_pass);
    }
    if pass_flag {
        let (pw, c0) = match read_lp(b) {
            Ok(x) => x,
            Err(e) => {
                return Err(e);
            },
        };
        if b.len() - c0 != 0 {
            return Err(DecodingError::LengthMismatch);
        }
        proof {
            assert(b@.skip(c0 as int).len() == 0);
        }
        Ok(Some(pw))
    } else {
        if b.len() != 0 {
            return Err(DecodingError::LengthMismatch);
        }
        Ok(None)
    }
}

/// Reads the user name and password fields of a connect payload.
fn read_connect_users(b: &[u8], user_flag: bool, pass_flag: bool) -> (r: Result<
    (Option<Vec<u8>>, Option<Vec<u8>>),
    DecodingError,
>)
    ensures
        match r {
            Ok(up) => forall|base: ConnectV|
                base.user_name is None && base.password is None ==> #[trigger] dec_connect_users(
                    b@,
                    base,
                    user_flag,
                    pass_flag,
                ) == Ok::<ConnectV, DecodingError>(
                    ConnectV {
                        user_name: match up.0 {
                            Some(x) => Some(x@),
                            None => None,
                        },
                        password: match up.1 {
                            Some(x) => Some(x@),
                            None => None,
                        },
                        ..base
                    },
                ),
            Err(e) => forall|base: ConnectV| #[trigger]
                dec_connect_users(b@, base, user_flag, pass_flag) == Err::<ConnectV, DecodingError>(
                    e,
                ),
        },
        (r matches Ok(up) ==> (up.0 is Some <==> user_flag) && (up.1 is Some <==> pass_flag)),
{
    proof {
        reveal(dec_connect_users);
    }
    if user_flag {
        let (user, c0) = match read_lp(b) {
            Ok(x) => x,
            Err(e) => {
                return Err(e);
            },
        };
        let rest = slice_subrange(b, c0, b.len());
        proof {
            assert(rest@ =~= b@.skip(c0 as int));
        }
        match read_connect_pass(rest, pass_flag) {
            Ok(pw) => Ok((Some(user), pw)),
            Err(e) => Err(e),
        }
    } else {
        match read_connect_pass(b, pass_flag) {
            Ok(pw) => Ok((None, pw)),
            Err(e) => Err(e),
        }
    }
}

/// Reads the will, user name and password fields of a connect payload.
fn read_connect_tail(b: &[u8], will_flag: bool, wqos: u8, wretain: bool, user_flag: bool, pass_flag: bool) -> (r:
    Result<(Option<Will>, Option<Vec<u8>>, Option<Vec<u8>>), DecodingError>)
    requires
        wqos <= 2,
    ensures
        match r {
            Ok(parts) => forall|base: ConnectV|
                base.will is None && base.user_name is None && base.password is None
                    ==> #[trigger] dec_connect_tail(
                    b@,
                    base,
                    will_flag,
                    wqos,
                    wretain,
                    user_flag,
                    pass_flag,
                ) == Ok::<ConnectV, DecodingError>(
                    ConnectV {
                        will: match parts.0 {
                            Some(w) => Some(w@),
                            None => None,
                        },
                        user_name: match parts.1 {
                            Some(x) => Some(x@),
                            None => None,
                        },
                        password: match parts.2 {
                            Some(x) => Some(x@),
                            None => None,
                        },
                        ..base
                    },
                ),
            Err(e) => forall|base: ConnectV| #[trigger]
                dec_connect_tail(b@, base, will_flag, wqos, wretain, user_flag, pass_flag) == Err::<
                    ConnectV,
                    DecodingError,
                >(e),
        },
        (r matches Ok(parts) ==> (parts.1 is Some <==> user_flag) && (parts.2 is Some
            <==> pass_flag)),
{
    proof {
        reveal(dec_connect_tail);
    }
    if will_flag {
        let (wt_bytes, c0) = match read_lp(b) {
            Ok(x) => x,
            Err(e) => {
                return Err(e);
            },
        };
        let wtopic = match TopicName::new(wt_bytes) {
            Ok(t) => t,
            Err(_) => {
                return Err(DecodingError::InvalidTopic);
            },
        };
        let rest0 = slice_subrange(b, c0, b.len());
        proof {
            assert(rest0@ =~= b@.skip(c0 as int));
        }
        let (wmsg, c1) = match read_lp(rest0) {
            Ok(x) => x,
            Err(e) => {
                return Err(e);
            },
        };
        let rest1 = slice_subrange(rest0, c1, rest0.len());
        proof {
            assert(rest1@ =~= b@.skip(c0 as int).skip(c1 as int));
        }
        let will = Will::from_parts(wtopic, wmsg, wqos, wretain);
        match read_connect_users(rest1, user_flag, pass_flag) {
            Ok((user, pw)) => Ok((Some(will), user, pw)),
            Err(e) => Err(e),
        }
    } else {
        match read_connect_users(b, user_flag, pass_flag) {
            Ok((user, pw)) => Ok((None, user, pw)),
            Err(e) => Err(e),
        }
    }
}

/// Reads a connect body.
#[verifier::rlimit(100)]
#[verifier::spinoff_prover]
fn read_connect_body(b: &[u8]) -> (r: Result<ConnectPacket, DecodingError>)
    ensures
        match r {
            Ok(p) => dec_connect_body(b@) matches Ok(c) && p@ == c,
            Err(e) => dec_connect_body(b@) == Err::<ConnectV, DecodingError>(e),
        },
{
    proof {
        reveal(dec_connect_body);
    }
    let (pname, c0) = match read_lp(b) {
        Ok(x) => x,
        Err(e) => {
            return Err(e);
        },
    };
    if !(pname.len() == 4 && pname[0] == 77 && pname[1] == 81 && pname[2] == 84 && pname[3] == 84) {
        proof {
            assert(pname@ != crate::model::protocol_name());
        }
        return Err(DecodingError::InvalidProtocol);
    }
    proof {
        assert(pname@ =~= crate::model::protocol_name());
    }
    let b1 = slice_subrange(b, c0, b.len());
    proof {
        assert(b1@ =~= b@.skip(c0 as int));
    }
    if b1.len() < 2 {
        return Err(DecodingError::UnexpectedEof);
    }
    if *slice_index_get(b1, 0) != 4 {
        return Err(DecodingError::InvalidProtocol);
    }
    let f = *slice_index_get(b1, 1);
    let user_flag = f / 128 % 2 == 1;
    let pass_flag = f / 64 % 2 == 1;
    let wretain = f / 32 % 2 == 1;
    let wqos = f / 8 % 4;
    let will_flag = f / 4 % 2 == 1;
    let clean = f / 2 % 2 == 1;
    if f % 2 != 0 {
        return Err(DecodingError::InvalidFlags);
    }
    if pass_flag && !user_flag {
        return Err(DecodingError::InvalidFlags);
    }
    if !will_flag && (wretain || wqos != 0) {
        return Err(DecodingError::InvalidFlags);
    }
    if will_flag && wqos == 3 {
        return Err(DecodingError::InvalidQoS);
    }
    let after_flags = slice_subrange(b1, 2, b1.len());
    proof {
        assert(after_flags@ =~= b1@.skip(2));
    }
    let (keep_alive, _) = match read_u16(after_flags) {
        Ok(x) => x,
        Err(e) => {
            return Err(e);
        },
    };
    let b2 = slice_subrange(b1, 4, b1.len());
    proof {
        assert(b2@ =~= b1@.skip(4));
    }
    let (client_id, c1) = match read_lp(b2) {
        Ok(x) => x,
        Err(e) => {
            return Err(e);
        },
    };
    let b3 = slice_subrange(b2, c1, b2.len());
    proof {
        assert(b3@ =~= b2@.skip(c1 as int));
    }
    let (will, user, pw) = match read_connect_tail(b3, will_flag, wqos, wretain, user_flag, pass_flag) {
        Ok(x) => x,
        Err(e) => {
            return Err(e);
        },
    };
    let p = ConnectPacket::from_parts(client_id, keep_alive, clean, will, user, pw);
    Ok(p)
}

/// Reads subscribe entries until the body is exhausted.
#[verifier::rlimit(100)]
#[verifier::spinoff_prover]
fn read_subs(b: &[u8]) -> (r: Result<Vec<(TopicFilter, QoS)>, DecodingError>)
    ensures
        match r {
            Ok(v) => dec_subs(b@) == Ok::<Seq<(Seq<u8>, QoS)>, DecodingError>(
                v@.map_values(|e: (TopicFilter, QoS)| (e.0@, e.1)),
            ),
            Err(e) => dec_subs(b@) == Err::<Seq<(Seq<u8>, QoS)>, DecodingError>(e),
        },
{
    let ghost f = |e: (TopicFilter, QoS)| (e.0@, e.1);
    let mut acc: Vec<(TopicFilter, QoS)> = Vec::new();
    let mut cur: usize = 0;
    proof {
        assert(b@.skip(0) =~= b@);
        match dec_subs(b@) {
            Ok(t) => {
                assert(acc@.map_values(f) + t =~= t);
            },
            Err(_) => {},
        }
    }
    while cur < b.len()
        invariant
            cur <= b@.len(),
            f == (|e: (TopicFilter, QoS)| (e.0@, e.1)),
            (dec_subs(b@.skip(cur as int)) matches Ok(t) ==> dec_subs(b@) == Ok::<
                Seq<(Seq<u8>, QoS)>,
                DecodingError,
            >(acc@.map_values(f) + t)),
            (dec_subs(b@.skip(cur as int)) is Err ==> dec_subs(b@) == dec_subs(
                b@.skip(cur as int),
            )),
        decreases b@.len() - cur,
    {
        let ghost pre = acc@;
        let sub = slice_subrange(b, cur, b.len());
        proof {
            assert(sub@ =~= b@.skip(cur as int));
        }
        let (fbytes, c0) = match read_lp(sub) {
            Ok(x) => x,
            Err(e) => {
                return Err(e);
            },
        };
        let filter = match TopicFilter::new(fbytes) {
            Ok(t) => t,
            Err(_) => {
                return Err(DecodingError::InvalidTopic);
            },
        };
        if sub.len() - c0 == 0 {
            return Err(DecodingError::UnexpectedEof);
        }
        let qb = *slice_index_get(sub, c0);
        if qb > 2 {
            return Err(DecodingError::InvalidQoS);
        }
        let qos = match QoS::from_byte(qb) {
            Ok(q) => q,
            Err(_) => {
                return Err(DecodingError::InvalidQoS);
            },
        };
        acc.push((filter, qos));
        proof {
            assert(sub@.skip(c0 as int).len() > 0);
            assert(sub@[c0 as int] == qb);
            assert(b@.skip(cur as int).skip(c0 as int + 1) =~= b@.skip(cur as int + c0 as int + 1));
            assert(acc@.map_values(f) =~= pre.map_values(f) + seq![(filter@, qos)]);
            match dec_subs(b@.skip(cur as int + c0 as int + 1)) {
                Ok(t) => {
                    assert(dec_subs(b@.skip(cur as int)) == Ok::<
                        Seq<(Seq<u8>, QoS)>,
                        DecodingError,
                    >(seq![(filter@, qos)] + t));
                    assert(acc@.map_values(f) + t =~= pre.map_values(f) + (seq![(filter@, qos)]
                        + t));
                },
                Err(_) => {},
            }
        }
        cur = cur + c0 + 1;
    }
    proof {
        assert(b@.skip(cur as int).len() == 0);
        assert(dec_subs(b@.skip(cur as int)) == Ok::<Seq<(Seq<u8>, QoS)>, DecodingError>(seq![]));
        assert(acc@.map_values(f) + seq![] =~= acc@.map_values(f));
        assert(acc@.map_values(|e: (TopicFilter, QoS)| (e.0@, e.1)) == acc@.map_values(f));
    }
    Ok(acc)
}

/// Reads unsubscribe filters until the body is exhausted.
#[verifier::rlimit(100)]
#[verifier::spinoff_prover]
fn read_filters(b: &[u8]) -> (r: Result<Vec<TopicFilter>, DecodingError>)
    ensures
        match r {
            Ok(v) => dec_filters(b@) == Ok::<Seq<Seq<u8>>, DecodingError>(
                v@.map_values(|t: TopicFilter| t@),
            ),
            Err(e) => dec_filters(b@) == Err::<Seq<Seq<u8>>, DecodingError>(e),
        },
{
    let ghost f = |t: TopicFilter| t@;
    let mut acc: Vec<TopicFilter> = Vec::new();
    let mut cur: usize = 0;
    proof {
        assert(b@.skip(0) =~= b@);
        match dec_filters(b@) {
            Ok(t) => {
                assert(acc@.map_values(f) + t =~= t);
            },
            Err(_) => {},
        }
    }
    while cur < b.len()
        invariant
            cur <= b@.len(),
            f == (|t: TopicFilter| t@),
            (dec_filters(b@.skip(cur as int)) matches Ok(t) ==> dec_filters(b@) == Ok::<
                Seq<Seq<u8>>,
                DecodingError,
            >(acc@.map_values(f) + t)),
            (dec_filters(b@.skip(cur as int)) is Err ==> dec_filters(b@) == dec_filters(
                b@.skip(cur as int),
            )),
        decreases b@.len() - cur,
    {
        let ghost pre = acc@;
        let sub = slice_subrange(b, cur, b.len());
        proof {
            assert(sub@ =~= b@.skip(cur as int));
        }
        let (fbytes, c0) = match read_lp(sub) {
            Ok(x) => x,
            Err(e) => {
                return Err(e);
            },
        };
        let filter = match TopicFilter::new(fbytes) {
            Ok(t) => t,
            Err(_) => {
                return Err(DecodingError::InvalidTopic);
            },
        };
        acc.push(filter);
        proof {
            assert(b@.skip(cur as int).skip(c0 as int) =~= b@.skip(cur as int + c0 as int));
            assert(acc@.map_values(f) =~= pre.map_values(f) + seq![filter@]);
            match dec_filters(b@.skip(cur as int + c0 as int)) {
                Ok(t) => {
                    assert(dec_filters(b@.skip(cur as int)) == Ok::<Seq<Seq<u8>>, DecodingError>(
                        seq![filter@] + t,
                    ));
                    assert(acc@.map_values(f) + t =~= pre.map_values(f) + (seq![filter@] + t));
                },
                Err(_) => {},
            }
        }
        cur = cur + c0;
    }
    proof {
        assert(b@.skip(cur as int).len() == 0);
        assert(dec_filters(b@.skip(cur as int)) == Ok::<Seq<Seq<u8>>, DecodingError>(seq![]));
        assert(acc@.map_values(f) + seq![] =~= acc@.map_values(f));
        assert(acc@.map_values(|t: TopicFilter| t@) == acc@.map_values(f));
    }
    Ok(acc)
}

/// Reads suback return codes until the body is exhausted; every byte is a
/// code.
fn read_codes(b: &[u8]) -> (r: Vec<SubscribeReturnCode>)
    ensures
        r@ == dec_codes(b@),
        forall|i: int|
            0 <= i < r@.len() ==> crate::fields::src_canonical(#[trigger] r@[i]),
{
    let mut acc: Vec<SubscribeReturnCode> = Vec::new();
    let mut cur: usize = 0;
    proof {
        assert(b@.skip(0) =~= b@);
        assert(acc@ + dec_codes(b@) =~= dec_codes(b@));
    }
    while cur < b.len()
        invariant
            cur <= b@.len(),
            dec_codes(b@) == acc@ + dec_codes(b@.skip(cur as int)),
            forall|i: int|
                0 <= i < acc@.len() ==> crate::fields::src_canonical(#[trigger] acc@[i]),
        decreases b@.len() - cur,
    {
        let ghost pre = acc@;
        acc.push(SubscribeReturnCode::from_byte(*slice_index_get(b, cur)));
        proof {
            assert(b@.skip(cur as int)[0] == b@[cur as int]);
            assert(b@.skip(cur as int).skip(1) =~= b@.skip(cur as int + 1));
            assert(acc@ + dec_codes(b@.skip(cur as int + 1)) =~= pre + dec_codes(
                b@.skip(cur as int),
            ));
        }
        cur = cur + 1;
    }
    proof {
        assert(b@.skip(cur as int).len() == 0);
        assert(dec_codes(b@.skip(cur as int)) =~= Seq::<SubscribeReturnCode>::empty());
        assert(acc@ + dec_codes(b@.skip(cur as int)) =~= acc@);
    }
    acc
}

/// Reads a subscribe body.
fn read_subscribe_body(b: &[u8]) -> (r: Result<SubscribePacket, DecodingError>)
    ensures
        match r {
            Ok(p) => dec_subscribe_body(b@) matches Ok(s) && p@ == s,
            Err(e) => dec_subscribe_body(b@) == Err::<SubscribeV, DecodingError>(e),
        },
{
    let (pid, _) = match read_u16(b) {
        Ok(x) => x,
        Err(e) => {
            return Err(e);
        },
    };
    let rest = slice_subrange(b, 2, b.len());
    proof {
        assert(rest@ =~= b@.skip(2));
    }
    match read_subs(rest) {
        Ok(subs) => {
            let p = SubscribePacket::new(pid, subs);
            Ok(p)
        },
        Err(e) => Err(e),
    }
}

/// Reads a suback body.
fn read_suback_body(b: &[u8]) -> (r: Result<SubackPacket, DecodingError>)
    ensures
        match r {
            Ok(p) => dec_suback_body(b@) matches Ok(s) && p@ == s,
            Err(e) => dec_suback_body(b@) == Err::<SubackV, DecodingError>(e),
        },
{
    let (pid, _) = match read_u16(b) {
        Ok(x) => x,
        Err(e) => {
            return Err(e);
        },
    };
    let rest = slice_subrange(b, 2, b.len());
    proof {
        assert(rest@ =~= b@.skip(2));
    }
    let codes = read_codes(rest);
    Ok(SubackPacket::from_parts(pid, codes))
}

/// Reads an unsubscribe body.
fn read_unsubscribe_body(b: &[u8]) -> (r: Result<UnsubscribePacket, DecodingError>)
    ensures
        match r {
            Ok(p) => dec_unsubscribe_body(b@) matches Ok(u) && p@ == u,
            Err(e) => dec_unsubscribe_body(b@) == Err::<UnsubscribeV, DecodingError>(e),
        },
{
    let (pid, _) = match read_u16(b) {
        Ok(x) => x,
        Err(e) => {
            return Err(e);
        },
    };
    let rest = slice_subrange(b, 2, b.len());
    proof {
        assert(rest@ =~= b@.skip(2));
    }
    match read_filters(rest) {
        Ok(filters) => {
            let p = UnsubscribePacket::new(pid, filters);
            Ok(p)
        },
        Err(e) => Err(e),
    }
}

/// Dispatches a body to its kind's reader under the fixed header's type
/// and flags nibbles.
#[verifier::rlimit(100)]
#[verifier::spinoff_prover]
fn read_packet_body(ptype: u8, flags: u8, b: &[u8]) -> (r: Result<Packet, DecodingError>)
    requires
        flags <= 15,
    ensures
        match r {
            Ok(p) => dec_packet_body(ptype, flags, b@) matches Ok(pv) && p@ == pv,
            Err(e) => dec_packet_body(ptype, flags, b@) == Err::<PacketV, DecodingError>(e),
        },
{
    if ptype == 3 {
        match read_publish_body(flags, b) {
            Ok(p) => Ok(Packet::Publish(p)),
            Err(e) => Err(e),
        }
    } else if ptype == 6 || ptype == 8 || ptype == 10 {
        if flags != 2 {
            Err(DecodingError::InvalidFlags)
        } else if ptype == 6 {
            match read_pid_body(b) {
                Ok(pid) => Ok(Packet::Pubrel(PubrelPacket::new(pid))),
                Err(e) => Err(e),
            }
        } else if ptype == 8 {
            match read_subscribe_body(b) {
                Ok(p) => Ok(Packet::Subscribe(p)),
                Err(e) => Err(e),
            }
        } else {
            match read_unsubscribe_body(b) {
                Ok(p) => Ok(Packet::Unsubscribe(p)),
                Err(e) => Err(e),
            }
        }
    } else if flags != 0 {
        if 1 <= ptype && ptype <= 14 {
            Err(DecodingError::InvalidFlags)
        } else {
            Err(DecodingError::UnknownPacketType)
        }
    } else if ptype == 1 {
        match read_connect_body(b) {
            Ok(p) => Ok(Packet::Connect(p)),
            Err(e) => Err(e),
        }
    } else if ptype == 2 {
        match read_connack_body(b) {
            Ok(p) => Ok(Packet::Connack(p)),
            Err(e) => Err(e),
        }
    } else if ptype == 4 {
        match read_pid_body(b) {
            Ok(pid) => Ok(Packet::Puback(PubackPacket::new(pid))),
            Err(e) => Err(e),
        }
    } else if ptype == 5 {
        match read_pid_body(b) {
            Ok(pid) => Ok(Packet::Pubrec(PubrecPacket::new(pid))),
            Err(e) => Err(e),
        }
    } else if ptype == 7 {
        match read_pid_body(b) {
            Ok(pid) => Ok(Packet::Pubcomp(PubcompPacket::new(pid))),
            Err(e) => Err(e),
        }
    } else if ptype == 9 {
        match read_suback_body(b) {
            Ok(p) => Ok(Packet::Suback(p)),
            Err(e) => Err(e),
        }
    } else if ptype == 11 {
        match read_pid_body(b) {
            Ok(pid) => Ok(Packet::Unsuback(UnsubackPacket::new(pid))),
            Err(e) => Err(e),
        }
    } else if ptype == 12 {
        if b.len() != 0 {
            Err(DecodingError::LengthMismatch)
        } else {
            Ok(Packet::Pingreq(PingreqPacket::new()))
        }
    } else if ptype == 13 {
        if b.len() != 0 {
            Err(DecodingError::LengthMismatch)
        } else {
            Ok(Packet::Pingresp(PingrespPacket::new()))
        }
    } else if ptype == 14 {
        if b.len() != 0 {
            Err(DecodingError::LengthMismatch)
        } else {
            Ok(Packet::Disconnect(DisconnectPacket::new()))
        }
    } else {
        Err(DecodingError::UnknownPacketType)
    }
}

/// Reads one packet from the front of `buf`: type and flags byte, remaining
/// length, then a body bounded to exactly that many bytes. Yields the
/// packet and the bytes consumed; trailing bytes beyond the packet are left
/// unread. Fails exactly as the model says: truncation, a malformed
/// remaining length, an unknown type nibble, reserved flag or bit
/// violations, a bad topic or level, or a body whose fields end short of or
/// beyond its remaining length.
pub fn decode(buf: &[u8]) -> (r: Result<(Packet, usize), DecodingError>)
    ensures
        match r {
            Ok((p, n)) => spec_decode(buf@) == Ok::<(PacketV, int), DecodingError>((p@, n as int))
                && n <= buf@.len(),
            Err(e) => spec_decode(buf@) == Err::<(PacketV, int), DecodingError>(e),
        },
{
    if buf.len() == 0 {
        return Err(DecodingError::UnexpectedEof);
    }
    let b0 = *slice_index_get(buf, 0);
    let ptype = b0 / 16;
    let flags = b0 % 16;
    let after = slice_subrange(buf, 1, buf.len());
    proof {
        assert(after@ =~= buf@.skip(1));
    }
    let (rl, vlen) = match read_varint(after) {
        Ok(x) => x,
        Err(e) => {
            return Err(e);
        },
    };
    let rl_us = rl as usize;
    if buf.len() - 1 - vlen < rl_us {
        return Err(DecodingError::UnexpectedEof);
    }
    let body = slice_subrange(buf, 1 + vlen, 1 + vlen + rl_us);
    proof {
        assert(body@ =~= buf@.subrange(1 + vlen as int, 1 + vlen as int + rl as int));
    }
    match read_packet_body(ptype, flags, body) {
        Ok(p) => Ok((p, 1 + vlen + rl_us)),
        Err(e) => Err(e),
    }
}

} // verus!
