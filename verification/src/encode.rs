//! The executable encoder: turns a packet value into its exact wire bytes,
//! as `encoded` in the model defines them.

use vstd::prelude::*;

use crate::errors::EncodingError;
use crate::fields::{qos_byte, qos_pid_bits, QoS, QoSWithPacketIdentifier};
use crate::model::{
    body_len, connect_flags_byte, enc_body, enc_codes, enc_connect_body, enc_filters, enc_subs,
    encodable, encoded, fits_lp, packet_flags, packet_type, protocol_name, strings_fit, wf_packet,
    PacketV,
};
use crate::packets::{
    ConnackPacket, ConnectPacket, Packet, PublishPacket, SubackPacket, SubscribePacket,
    UnsubscribePacket,
};
use crate::wire::{enc_lp, enc_u16, enc_varint};

verus! {

/// Appends a big-endian 16-bit integer.
fn push_u16(out: &mut Vec<u8>, v: u16)
    ensures
        final(out)@ == old(out)@ + enc_u16(v),
{
    out.push((v / 256) as u8);
    out.push((v % 256) as u8);
    proof {
        assert(out@ =~= old(out)@ + enc_u16(v));
    }
}

/// Appends raw bytes.
fn push_bytes(out: &mut Vec<u8>, data: &Vec<u8>)
    ensures
        final(out)@ == old(out)@ + data@,
{
    let ghost base = out@;
    let mut i: usize = 0;
    while i < data.len()
        invariant
            i <= data@.len(),
            out@ == base + data@.subrange(0, i as int),
        decreases data@.len() - i,
    {
        out.push(data[i]);
        proof {
            assert(out@ =~= base + data@.subrange(0, i as int + 1));
        }
        i += 1;
    }
    proof {
        assert(base + data@.subrange(0, data@.len() as int) =~= base + data@);
    }
}

/// Appends a length-prefixed byte string.
fn push_lp(out: &mut Vec<u8>, data: &Vec<u8>)
    requires
        data@.len() <= 65535,
    ensures
        final(out)@ == old(out)@ + enc_lp(data@),
{
    let ghost base = out@;
    push_u16(out, data.len() as u16);
    push_bytes(out, data);
    proof {
        assert(out@ =~= base + enc_lp(data@));
    }
}

/// Appends a remaining-length field.
fn push_varint(out: &mut Vec<u8>, n: u32)
    requires
        n <= 268435455,
    ensures
        final(out)@ == old(out)@ + enc_varint(n as int),
    decreases n,
{
    if n < 128 {
        out.push(n as u8);
        proof {
            assert(out@ =~= old(out)@ + enc_varint(n as int));
        }
    } else {
        out.push((n % 128 + 128) as u8);
        push_varint(out, n / 128);
        proof {
            assert(out@ =~= old(out)@ + enc_varint(n as int));
        }
    }
}

/// Encodes a value of the remaining-length field on its own: one to four
/// bytes, seven value bits per byte, least significant group first.
/// Exactly the values above the field's maximum are rejected.
pub fn encode_varint(n: u32) -> (r: Result<Vec<u8>, EncodingError>)
    ensures
        match r {
            Ok(b) => n <= 268435455 && b@ == enc_varint(n as int),
            Err(e) => n > 268435455 && e == EncodingError::ValueTooLarge,
        },
{
    if n > 268435455 {
        return Err(EncodingError::ValueTooLarge);
    }
    let mut out: Vec<u8> = Vec::new();
    push_varint(&mut out, n);
    proof {
        assert(out@ =~= enc_varint(n as int));
    }
    Ok(out)
}

/// Writes a connect body, or reports the first field too long for its
/// prefix.
#[verifier::rlimit(100)]
#[verifier::spinoff_prover]
fn write_connect_body(cp: &ConnectPacket) -> (r: Result<Vec<u8>, EncodingError>)
    ensures
        wf_packet(PacketV::Connect(cp@)),
        match r {
            Ok(b) => strings_fit(PacketV::Connect(cp@)) && b@ == enc_body(PacketV::Connect(cp@)),
            Err(e) => !strings_fit(PacketV::Connect(cp@)) && e == EncodingError::StringTooLong,
        },
{
    let ghost c = cp@;
    let cid = cp.client_identifier();
    let willref = cp.will();
    let userref = cp.user_name();
    let passref = cp.password();
    // Gather the facts that make the packet well formed before any check
    // can bail out.
    let mut wflags: u8 = 0;
    match willref {
        Some(w) => {
            let wt = w.topic().as_bytes();
            let q = w.qos();
            wflags = (if w.retain() {
                32u8
            } else {
                0u8
            }) + q * 8 + 4;
            if wt.len() > 65535 {
                return Err(EncodingError::StringTooLong);
            }
            if w.message().len() > 65535 {
                return Err(EncodingError::StringTooLong);
            }
        },
        None => (),
    }
    if cid.len() > 65535 {
        return Err(EncodingError::StringTooLong);
    }
    match userref {
        Some(u) => {
            if u.len() > 65535 {
                return Err(EncodingError::StringTooLong);
            }
        },
        None => (),
    }
    match passref {
        Some(pw) => {
            if pw.len() > 65535 {
                return Err(EncodingError::StringTooLong);
            }
        },
        None => (),
    }
    let flags: u8 = (if userref.is_some() {
        128u8
    } else {
        0u8
    }) + (if passref.is_some() {
        64u8
    } else {
        0u8
    }) + wflags + (if cp.clean_session() {
        2u8
    } else {
        0u8
    });
    proof {
        assert(flags == connect_flags_byte(c));
    }
    let mut out: Vec<u8> = Vec::new();
    let mut pn: Vec<u8> = Vec::new();
    pn.push(77);
    pn.push(81);
    pn.push(84);
    pn.push(84);
    proof {
        assert(pn@ =~= protocol_name());
    }
    push_lp(&mut out, &pn);
    out.push(4);
    out.push(flags);
    push_u16(&mut out, cp.keep_alive());
    push_lp(&mut out, cid);
    match willref {
        Some(w) => {
            push_lp(&mut out, w.topic().as_bytes());
            push_lp(&mut out, w.message());
        },
        None => (),
    }
    match userref {
        Some(u) => push_lp(&mut out, u),
        None => (),
    }
    match passref {
        Some(pw) => push_lp(&mut out, pw),
        None => (),
    }
    proof {
        reveal(enc_connect_body);
        assert(out@ =~= enc_connect_body(c));
    }
    Ok(out)
}

/// Writes a publish body, or reports a topic too long for its prefix.
fn write_publish_body(pp: &PublishPacket) -> (r: Result<Vec<u8>, EncodingError>)
    ensures
        wf_packet(PacketV::Publish(pp@)),
        match r {
            Ok(b) => strings_fit(PacketV::Publish(pp@)) && b@ == enc_body(PacketV::Publish(pp@)),
            Err(e) => !strings_fit(PacketV::Publish(pp@)) && e == EncodingError::StringTooLong,
        },
{
    let tb = pp.topic().as_bytes();
    if tb.len() > 65535 {
        return Err(EncodingError::StringTooLong);
    }
    let mut out: Vec<u8> = Vec::new();
    push_lp(&mut out, tb);
    match pp.qos() {
        QoSWithPacketIdentifier::Level0 => (),
        QoSWithPacketIdentifier::Level1(pid) => push_u16(&mut out, pid),
        QoSWithPacketIdentifier::Level2(pid) => push_u16(&mut out, pid),
    }
    push_bytes(&mut out, pp.payload());
    proof {
        assert(out@ =~= enc_body(PacketV::Publish(pp@)));
    }
    Ok(out)
}

/// Writes a subscribe body, or reports the first filter too long for its
/// prefix.
#[verifier::rlimit(100)]
#[verifier::spinoff_prover]
fn write_subscribe_body(sp: &SubscribePacket) -> (r: Result<Vec<u8>, EncodingError>)
    ensures
        wf_packet(PacketV::Subscribe(sp@)),
        match r {
            Ok(b) => strings_fit(PacketV::Subscribe(sp@)) && b@ == enc_body(
                PacketV::Subscribe(sp@),
            ),
            Err(e) => !strings_fit(PacketV::Subscribe(sp@)) && e == EncodingError::StringTooLong,
        },
{
    let subs = sp.subscribes();
    let ghost sv = sp@.subs;
    let mut ok = true;
    let mut i: usize = 0;
    while i < subs.len()
        invariant
            sv == sp@.subs,
            sv.len() == subs@.len(),
            forall|j: int| 0 <= j < subs@.len() ==> #[trigger] sv[j] == (subs@[j].0@, subs@[j].1),
            i <= subs@.len(),
            forall|j: int| 0 <= j < i ==> crate::topic::valid_topic_filter((#[trigger] sv[j]).0),
            ok ==> forall|j: int| 0 <= j < i ==> fits_lp((#[trigger] sv[j]).0),
            !ok ==> !strings_fit(PacketV::Subscribe(sp@)),
        decreases subs@.len() - i,
    {
        let fb = subs[i].0.as_bytes();
        if fb.len() > 65535 {
            proof {
                assert(0 <= i as int && (i as int) < sp@.subs.len());
                assert(!fits_lp((sp@.subs[i as int]).0));
                assert(PacketV::Subscribe(sp@)->Subscribe_0 == sp@);
                assert(!strings_fit(PacketV::Subscribe(sp@)));
            }
            ok = false;
        }
        i += 1;
    }
    proof {
        assert(wf_packet(PacketV::Subscribe(sp@)));
    }
    if !ok {
        return Err(EncodingError::StringTooLong);
    }
    let mut out: Vec<u8> = Vec::new();
    push_u16(&mut out, sp.packet_identifier());
    proof {
        assert(out@ =~= enc_u16(sp@.pid));
        assert(sv.skip(0) =~= sv);
    }
    let mut k: usize = 0;
    while k < subs.len()
        invariant
            sv.len() == subs@.len(),
            forall|j: int| 0 <= j < subs@.len() ==> #[trigger] sv[j] == (subs@[j].0@, subs@[j].1),
            k <= subs@.len(),
            forall|j: int| 0 <= j < sv.len() ==> fits_lp((#[trigger] sv[j]).0),
            out@ + enc_subs(sv.skip(k as int)) == enc_u16(sp@.pid) + enc_subs(sv),
        decreases subs@.len() - k,
    {
        let ghost pre = out@;
        let fb = subs[k].0.as_bytes();
        push_lp(&mut out, fb);
        out.push(subs[k].1.value());
        proof {
            assert(sv.skip(k as int)[0] == sv[k as int]);
            assert(sv.skip(k as int).skip(1) =~= sv.skip(k as int + 1));
            assert(enc_subs(sv.skip(k as int)) == enc_lp(sv[k as int].0) + seq![
                qos_byte(sv[k as int].1),
            ] + enc_subs(sv.skip(k as int + 1)));
            assert(out@ + enc_subs(sv.skip(k as int + 1)) =~= pre + enc_subs(sv.skip(k as int)));
        }
        k += 1;
    }
    proof {
        assert(sv.skip(sv.len() as int) =~= Seq::<(Seq<u8>, QoS)>::empty());
        assert(out@ + enc_subs(sv.skip(sv.len() as int)) =~= out@);
        assert(out@ =~= enc_body(PacketV::Subscribe(sp@)));
    }
    Ok(out)
}

/// Writes an unsubscribe body, or reports the first filter too long for its
/// prefix.
#[verifier::rlimit(100)]
#[verifier::spinoff_prover]
fn write_unsubscribe_body(up: &UnsubscribePacket) -> (r: Result<Vec<u8>, EncodingError>)
    ensures
        wf_packet(PacketV::Unsubscribe(up@)),
        match r {
            Ok(b) => strings_fit(PacketV::Unsubscribe(up@)) && b@ == enc_body(
                PacketV::Unsubscribe(up@),
            ),
            Err(e) => !strings_fit(PacketV::Unsubscribe(up@)) && e == EncodingError::StringTooLong,
        },
{
    let filters = up.filters();
    let ghost fv = up@.filters;
    let mut ok = true;
    let mut i: usize = 0;
    while i < filters.len()
        invariant
            fv == up@.filters,
            fv.len() == filters@.len(),
            forall|j: int| 0 <= j < filters@.len() ==> #[trigger] fv[j] == filters@[j]@,
            i <= filters@.len(),
            forall|j: int| 0 <= j < i ==> crate::topic::valid_topic_filter(#[trigger] fv[j]),
            ok ==> forall|j: int| 0 <= j < i ==> fits_lp(#[trigger] fv[j]),
            !ok ==> !strings_fit(PacketV::Unsubscribe(up@)),
        decreases filters@.len() - i,
    {
        let fb = filters[i].as_bytes();
        if fb.len() > 65535 {
            proof {
                assert(0 <= i as int && (i as int) < up@.filters.len());
                assert(!fits_lp(up@.filters[i as int]));
                assert(PacketV::Unsubscribe(up@)->Unsubscribe_0 == up@);
                assert(!strings_fit(PacketV::Unsubscribe(up@)));
            }
            ok = false;
        }
        i += 1;
    }
    proof {
        assert(wf_packet(PacketV::Unsubscribe(up@)));
    }
    if !ok {
        return Err(EncodingError::StringTooLong);
    }
    let mut out: Vec<u8> = Vec::new();
    push_u16(&mut out, up.packet_identifier());
    proof {
        assert(out@ =~= enc_u16(up@.pid));
        assert(fv.skip(0) =~= fv);
    }
    let mut k: usize = 0;
    while k < filters.len()
        invariant
            fv.len() == filters@.len(),
            forall|j: int| 0 <= j < filters@.len() ==> #[trigger] fv[j] == filters@[j]@,
            k <= filters@.len(),
            forall|j: int| 0 <= j < fv.len() ==> fits_lp(#[trigger] fv[j]),
            out@ + enc_filters(fv.skip(k as int)) == enc_u16(up@.pid) + enc_filters(fv),
        decreases filters@.len() - k,
    {
        let ghost pre = out@;
        let fb = filters[k].as_bytes();
        push_lp(&mut out, fb);
        proof {
            assert(fv.skip(k as int)[0] == fv[k as int]);
            assert(fv.skip(k as int).skip(1) =~= fv.skip(k as int + 1));
            assert(enc_filters(fv.skip(k as int)) == enc_lp(fv[k as int]) + enc_filters(
                fv.skip(k as int + 1),
            ));
            assert(out@ + enc_filters(fv.skip(k as int + 1)) =~= pre + enc_filters(
                fv.skip(k as int),
            ));
        }
        k += 1;
    }
    proof {
        assert(fv.skip(fv.len() as int) =~= Seq::<Seq<u8>>::empty());
        assert(out@ + enc_filters(fv.skip(fv.len() as int)) =~= out@);
        assert(out@ =~= enc_body(PacketV::Unsubscribe(up@)));
    }
    Ok(out)
}

/// Writes a suback body; nothing in it can exceed a prefix.
fn write_suback_body(sp: &SubackPacket) -> (r: Vec<u8>)
    ensures
        wf_packet(PacketV::Suback(sp@)),
        r@ == enc_body(PacketV::Suback(sp@)),
{
    let codes = sp.return_codes();
    let ghost cv = sp@.codes;
    let mut out: Vec<u8> = Vec::new();
    push_u16(&mut out, sp.packet_identifier());
    proof {
        assert(out@ =~= enc_u16(sp@.pid));
        assert(cv.skip(0) =~= cv);
    }
    let mut k: usize = 0;
    while k < codes.len()
        invariant
            codes@ == cv,
            k <= codes@.len(),
            out@ + enc_codes(cv.skip(k as int)) == enc_u16(sp@.pid) + enc_codes(cv),
        decreases codes@.len() - k,
    {
        let ghost pre = out@;
        out.push(codes[k].value());
        proof {
            assert(cv.skip(k as int)[0] == cv[k as int]);
            assert(cv.skip(k as int).skip(1) =~= cv.skip(k as int + 1));
            assert(out@ + enc_codes(cv.skip(k as int + 1)) =~= pre + enc_codes(cv.skip(k as int)));
        }
        k += 1;
    }
    proof {
        assert(cv.skip(cv.len() as int) =~= Seq::<crate::fields::SubscribeReturnCode>::empty());
        assert(out@ + enc_codes(cv.skip(cv.len() as int)) =~= out@);
        assert(out@ =~= enc_body(PacketV::Suback(sp@)));
    }
    out
}

/// Writes a connack body.
fn write_connack_body(cp: &ConnackPacket) -> (r: Vec<u8>)
    ensures
        wf_packet(PacketV::Connack(cp@)),
        r@ == enc_body(PacketV::Connack(cp@)),
{
    let mut out: Vec<u8> = Vec::new();
    out.push(if cp.session_present() {
        1
    } else {
        0
    });
    out.push(cp.connect_return_code().value());
    proof {
        assert(out@ =~= enc_body(PacketV::Connack(cp@)));
    }
    out
}

/// Writes a body that is one packet identifier.
fn write_pid_body(pid: u16) -> (r: Vec<u8>)
    ensures
        r@ == enc_u16(pid),
{
    let mut out: Vec<u8> = Vec::new();
    push_u16(&mut out, pid);
    proof {
        assert(out@ =~= enc_u16(pid));
    }
    out
}

/// Writes the body of any packet, or reports a field too long for its
/// 16-bit length prefix.
fn write_body(p: &Packet) -> (r: Result<Vec<u8>, EncodingError>)
    ensures
        wf_packet(p@),
        match r {
            Ok(b) => strings_fit(p@) && b@ == enc_body(p@),
            Err(e) => !strings_fit(p@) && e == EncodingError::StringTooLong,
        },
{
    match p {
        Packet::Connect(cp) => write_connect_body(cp),
        Packet::Connack(cp) => Ok(write_connack_body(cp)),
        Packet::Publish(pp) => write_publish_body(pp),
        Packet::Puback(x) => Ok(write_pid_body(x.packet_identifier())),
        Packet::Pubrec(x) => Ok(write_pid_body(x.packet_identifier())),
        Packet::Pubrel(x) => Ok(write_pid_body(x.packet_identifier())),
        Packet::Pubcomp(x) => Ok(write_pid_body(x.packet_identifier())),
        Packet::Subscribe(sp) => write_subscribe_body(sp),
        Packet::Suback(sp) => Ok(write_suback_body(sp)),
        Packet::Unsubscribe(up) => write_unsubscribe_body(up),
        Packet::Unsuback(x) => Ok(write_pid_body(x.packet_identifier())),
        Packet::Pingreq(_) => Ok(Vec::new()),
        Packet::Pingresp(_) => Ok(Vec::new()),
        Packet::Disconnect(_) => Ok(Vec::new()),
    }
}

/// The packet-type nibble of the fixed header.
fn type_nibble(p: &Packet) -> (r: u8)
    ensures
        r == packet_type(p@),
        1 <= r <= 14,
{
    match p {
        Packet::Connect(_) => 1,
        Packet::Connack(_) => 2,
        Packet::Publish(_) => 3,
        Packet::Puback(_) => 4,
        Packet::Pubrec(_) => 5,
        Packet::Pubrel(_) => 6,
        Packet::Pubcomp(_) => 7,
        Packet::Subscribe(_) => 8,
        Packet::Suback(_) => 9,
        Packet::Unsubscribe(_) => 10,
        Packet::Unsuback(_) => 11,
        Packet::Pingreq(_) => 12,
        Packet::Pingresp(_) => 13,
        Packet::Disconnect(_) => 14,
    }
}

/// The flags nibble of the fixed header.
fn flags_nibble(p: &Packet) -> (r: u8)
    ensures
        r == packet_flags(p@),
        r <= 13,
{
    match p {
        Packet::Publish(pp) => (if pp.dup() {
            8u8
        } else {
            0u8
        }) + pp.qos().bits() * 2 + (if pp.retain() {
            1u8
        } else {
            0u8
        }),
        Packet::Pubrel(_) => 2,
        Packet::Subscribe(_) => 2,
        Packet::Unsubscribe(_) => 2,
        _ => 0,
    }
}

/// Encodes a packet to its exact wire bytes. Succeeds if and only if every
/// length-prefixed field fits 16 bits and the body fits the
/// remaining-length field; the two failures are told apart, the prefix
/// check coming first.
pub fn encode(p: &Packet) -> (r: Result<Vec<u8>, EncodingError>)
    ensures
        wf_packet(p@),
        match r {
            Ok(bytes) => encodable(p@) && bytes@ == encoded(p@),
            Err(EncodingError::StringTooLong) => !strings_fit(p@),
            Err(EncodingError::ValueTooLarge) => strings_fit(p@) && body_len(p@) > 268435455,
        },
{
    let body = match write_body(p) {
        Ok(b) => b,
        Err(e) => {
            return Err(e);
        },
    };
    if body.len() > 268435455 {
        return Err(EncodingError::ValueTooLarge);
    }
    let t = type_nibble(p);
    let f = flags_nibble(p);
    let mut out: Vec<u8> = Vec::new();
    out.push(t * 16 + f);
    push_varint(&mut out, body.len() as u32);
    push_bytes(&mut out, &body);
    proof {
        assert(out@ =~= encoded(p@));
    }
    Ok(out)
}

} // verus!
