//! The codec's laws, proved once over the mathematical model: decoding
//! undoes encoding for every constructible packet, the remaining-length
//! field always equals the body length, the remaining-length encoding hits
//! its documented size boundaries, and a publish carries an identifier
//! exactly when its level asks for one.

use vstd::prelude::*;

use crate::errors::DecodingError;
use crate::fields::{
    crc_byte, crc_canonical, crc_of_byte, qos_byte, qos_of_byte, qos_pid_bits, src_byte,
    src_canonical, src_of_byte, ConnectReturnCode, QoS, QoSWithPacketIdentifier,
    SubscribeReturnCode,
};
use crate::model::{
    body_len, connect_flags_byte, dec_codes, dec_connect_body, dec_connect_pass,
    dec_connect_tail, dec_connect_users, dec_filters, dec_packet_body, dec_pid_body,
    dec_publish_body, dec_subs, enc_body, enc_codes, enc_connect_body, enc_filters, enc_subs,
    encodable, encoded, fits_lp, packet_flags, packet_type, protocol_name, spec_decode,
    strings_fit, wf_packet, ConnectV, PacketV, PublishV, SubscribeV, WillV,
};
use crate::topic::{valid_topic_filter, valid_topic_name};
use crate::wire::{
    dec_lp, dec_u16, dec_varint, enc_lp, enc_u16, enc_varint, lemma_dec_enc_lp,
    lemma_dec_enc_u16, lemma_dec_enc_varint, lemma_enc_varint_len, varint_len,
};

verus! {

/// A canonical connect return code survives the byte round trip.
proof fn lemma_crc_rt(c: ConnectReturnCode)
    requires
        crc_canonical(c),
    ensures
        crc_of_byte(crc_byte(c)) == c,
{
}

/// A canonical subscribe return code survives the byte round trip.
proof fn lemma_src_rt(c: SubscribeReturnCode)
    requires
        src_canonical(c),
    ensures
        src_of_byte(src_byte(c)) == c,
{
}

/// A quality-of-service level survives the byte round trip.
proof fn lemma_qos_rt(q: QoS)
    ensures
        qos_of_byte(qos_byte(q)) == q,
{
}

/// Reading subscribe entries undoes writing them, for entries whose filters
/// are grammatical and fit their prefixes.
#[verifier::rlimit(100)]
#[verifier::spinoff_prover]
proof fn lemma_dec_enc_subs(subs: Seq<(Seq<u8>, QoS)>)
    requires
        forall|i: int| 0 <= i < subs.len() ==> valid_topic_filter((#[trigger] subs[i]).0),
        forall|i: int| 0 <= i < subs.len() ==> fits_lp((#[trigger] subs[i]).0),
    ensures
        dec_subs(enc_subs(subs)) == Ok::<Seq<(Seq<u8>, QoS)>, DecodingError>(subs),
    decreases subs.len(),
{
    if subs.len() > 0 {
        let f0 = subs[0].0;
        let q0 = qos_byte(subs[0].1);
        let tail = seq![q0] + enc_subs(subs.skip(1));
        let b = enc_subs(subs);
        assert(b =~= enc_lp(f0) + tail);
        lemma_dec_enc_lp(f0, tail);
        let c0 = 2 + f0.len() as int;
        assert(b.skip(c0) =~= tail);
        assert(b[c0] == b.skip(c0)[0]);
        assert(b[c0] == q0);
        assert(q0 <= 2);
        assert(b.skip(c0 + 1) =~= enc_subs(subs.skip(1)));
        lemma_dec_enc_subs(subs.skip(1));
        lemma_qos_rt(subs[0].1);
        assert(dec_subs(b.skip(c0 + 1)) == Ok::<Seq<(Seq<u8>, QoS)>, DecodingError>(
            subs.skip(1),
        ));
        assert(seq![(f0, qos_of_byte(q0))] + subs.skip(1) =~= subs);
        assert(dec_subs(b) == Ok::<Seq<(Seq<u8>, QoS)>, DecodingError>(subs));
    } else {
        assert(subs =~= Seq::<(Seq<u8>, QoS)>::empty());
    }
}

/// Reading suback codes undoes writing them, for canonical codes.
proof fn lemma_dec_enc_codes(codes: Seq<SubscribeReturnCode>)
    requires
        forall|i: int| 0 <= i < codes.len() ==> src_canonical(#[trigger] codes[i]),
    ensures
        dec_codes(enc_codes(codes)) == codes,
    decreases codes.len(),
{
    if codes.len() > 0 {
        let b = enc_codes(codes);
        assert(b[0] == src_byte(codes[0]));
        assert(b.skip(1) =~= enc_codes(codes.skip(1)));
        lemma_dec_enc_codes(codes.skip(1));
        lemma_src_rt(codes[0]);
        assert(seq![codes[0]] + codes.skip(1) =~= codes);
    } else {
        assert(codes =~= Seq::<SubscribeReturnCode>::empty());
    }
}

/// Reading unsubscribe filters undoes writing them, for grammatical filters
/// that fit their prefixes.
proof fn lemma_dec_enc_filters(fs: Seq<Seq<u8>>)
    requires
        forall|i: int| 0 <= i < fs.len() ==> valid_topic_filter(#[trigger] fs[i]),
        forall|i: int| 0 <= i < fs.len() ==> fits_lp(#[trigger] fs[i]),
    ensures
        dec_filters(enc_filters(fs)) == Ok::<Seq<Seq<u8>>, DecodingError>(fs),
    decreases fs.len(),
{
    if fs.len() > 0 {
        let b = enc_filters(fs);
        assert(b =~= enc_lp(fs[0]) + enc_filters(fs.skip(1)));
        lemma_dec_enc_lp(fs[0], enc_filters(fs.skip(1)));
        let c0 = 2 + fs[0].len() as int;
        assert(dec_lp(b) == Ok::<(Seq<u8>, int), DecodingError>((fs[0], c0)));
        assert(b.skip(c0) =~= enc_filters(fs.skip(1)));
        lemma_dec_enc_filters(fs.skip(1));
        assert(dec_filters(b.skip(c0)) == Ok::<Seq<Seq<u8>>, DecodingError>(fs.skip(1)));
        assert(seq![fs[0]] + fs.skip(1) =~= fs);
        assert(dec_filters(b) == Ok::<Seq<Seq<u8>>, DecodingError>(seq![fs[0]] + fs.skip(1)));
    } else {
        assert(fs =~= Seq::<Seq<u8>>::empty());
    }
}

/// Reading a body that is one identifier undoes writing it.
proof fn lemma_dec_enc_pid(pid: u16)
    ensures
        dec_pid_body(enc_u16(pid)) == Ok::<u16, DecodingError>(pid),
{
    assert(enc_u16(pid) + seq![] =~= enc_u16(pid));
    lemma_dec_enc_u16(pid, seq![]);
}

/// The publish flags nibble decomposes back into its three fields.
proof fn lemma_publish_flags(v: PublishV)
    ensures
        (packet_flags(PacketV::Publish(v)) as int) / 8 % 2 == (if v.dup {
            1int
        } else {
            0int
        }),
        (packet_flags(PacketV::Publish(v)) as int) / 2 % 4 == qos_pid_bits(v.qos) as int,
        (packet_flags(PacketV::Publish(v)) as int) % 2 == (if v.retain {
            1int
        } else {
            0int
        }),
        packet_flags(PacketV::Publish(v)) <= 13,
{
    let d: int = if v.dup {
        1
    } else {
        0
    };
    let q: int = qos_pid_bits(v.qos) as int;
    let r: int = if v.retain {
        1
    } else {
        0
    };
    let f: int = 8 * d + 2 * q + r;
    assert(packet_flags(PacketV::Publish(v)) as int == f);
    assert(f / 8 % 2 == d && f / 2 % 4 == q && f % 2 == r) by (nonlinear_arith)
        requires
            f == 8 * d + 2 * q + r,
            0 <= d <= 1,
            0 <= q <= 2,
            0 <= r <= 1,
    ;
}

/// The connect flags byte decomposes back into its six fields, and its
/// reserved bit is zero.
proof fn lemma_connect_flags(c: ConnectV)
    requires
        match c.will {
            Some(w) => w.qos <= 2,
            None => true,
        },
    ensures
        (connect_flags_byte(c) as int) / 128 % 2 == (if c.user_name is Some {
            1int
        } else {
            0int
        }),
        (connect_flags_byte(c) as int) / 64 % 2 == (if c.password is Some {
            1int
        } else {
            0int
        }),
        (connect_flags_byte(c) as int) / 32 % 2 == (match c.will {
            Some(w) => if w.retain {
                1int
            } else {
                0int
            },
            None => 0int,
        }),
        (connect_flags_byte(c) as int) / 8 % 4 == (match c.will {
            Some(w) => w.qos as int,
            None => 0int,
        }),
        (connect_flags_byte(c) as int) / 4 % 2 == (if c.will is Some {
            1int
        } else {
            0int
        }),
        (connect_flags_byte(c) as int) / 2 % 2 == (if c.clean_session {
            1int
        } else {
            0int
        }),
        (connect_flags_byte(c) as int) % 2 == 0,
{
    let a: int = if c.user_name is Some {
        1
    } else {
        0
    };
    let b: int = if c.password is Some {
        1
    } else {
        0
    };
    let wr: int = match c.will {
        Some(w) => if w.retain {
            1int
        } else {
            0int
        },
        None => 0,
    };
    let wq: int = match c.will {
        Some(w) => w.qos as int,
        None => 0,
    };
    let e: int = if c.will is Some {
        1
    } else {
        0
    };
    let g: int = if c.clean_session {
        1
    } else {
        0
    };
    let f: int = 128 * a + 64 * b + 32 * wr + 8 * wq + 4 * e + 2 * g;
    assert(connect_flags_byte(c) as int == f);
    assert(f / 128 % 2 == a && f / 64 % 2 == b && f / 32 % 2 == wr && f / 8 % 4 == wq && f / 4 % 2
        == e && f / 2 % 2 == g && f % 2 == 0) by (nonlinear_arith)
        requires
            f == 128 * a + 64 * b + 32 * wr + 8 * wq + 4 * e + 2 * g,
            0 <= a <= 1,
            0 <= b <= 1,
            0 <= wr <= 1,
            0 <= wq <= 2,
            0 <= e <= 1,
            0 <= g <= 1,
            wr <= e,
            wq <= 2 * e,
    ;
}

/// The wire bytes of an optional length-prefixed field: absent fields
/// contribute nothing.
spec fn opt_lp(o: Option<Seq<u8>>) -> Seq<u8> {
    match o {
        Some(x) => enc_lp(x),
        None => seq![],
    }
}

/// Reading the password field undoes writing it, for a field that fits its
/// prefix.
proof fn lemma_dec_connect_pass(pw: Option<Seq<u8>>, base: ConnectV)
    requires
        match pw {
            Some(x) => fits_lp(x),
            None => true,
        },
        base.password is None,
    ensures
        dec_connect_pass(opt_lp(pw), base, pw is Some) == Ok::<ConnectV, DecodingError>(
            ConnectV { password: pw, ..base },
        ),
{
    reveal(dec_connect_pass);
    match pw {
        Some(x) => {
            let part = opt_lp(pw);
            assert(part =~= enc_lp(x) + seq![]);
            lemma_dec_enc_lp(x, seq![]);
            assert(part.skip(2 + x.len() as int) =~= seq![]);
        },
        None => {
            assert(ConnectV { password: pw, ..base } == base);
        },
    }
}

/// Reading the user name and password fields undoes writing them, for
/// fields that fit their prefixes.
proof fn lemma_dec_connect_users(user: Option<Seq<u8>>, pw: Option<Seq<u8>>, base: ConnectV)
    requires
        match user {
            Some(x) => fits_lp(x),
            None => true,
        },
        match pw {
            Some(x) => fits_lp(x),
            None => true,
        },
        base.user_name is None,
        base.password is None,
    ensures
        dec_connect_users(opt_lp(user) + opt_lp(pw), base, user is Some, pw is Some) == Ok::<
            ConnectV,
            DecodingError,
        >(ConnectV { user_name: user, password: pw, ..base }),
{
    reveal(dec_connect_users);
    let b = opt_lp(user) + opt_lp(pw);
    match user {
        Some(u) => {
            assert(b =~= enc_lp(u) + opt_lp(pw));
            lemma_dec_enc_lp(u, opt_lp(pw));
            assert(b.skip(2 + u.len() as int) =~= opt_lp(pw));
            lemma_dec_connect_pass(pw, ConnectV { user_name: Some(u), ..base });
        },
        None => {
            assert(b =~= opt_lp(pw));
            lemma_dec_connect_pass(pw, base);
        },
    }
}

/// Reading the will, user name and password fields undoes writing them, for
/// a well-formed will and fields that fit their prefixes.
#[verifier::rlimit(100)]
#[verifier::spinoff_prover]
proof fn lemma_dec_connect_tail(
    will: Option<WillV>,
    user: Option<Seq<u8>>,
    pw: Option<Seq<u8>>,
    base: ConnectV,
)
    requires
        match will {
            Some(w) => valid_topic_name(w.topic) && w.qos <= 2 && fits_lp(w.topic) && fits_lp(
                w.message,
            ),
            None => true,
        },
        match user {
            Some(x) => fits_lp(x),
            None => true,
        },
        match pw {
            Some(x) => fits_lp(x),
            None => true,
        },
        base.will is None,
        base.user_name is None,
        base.password is None,
    ensures
        dec_connect_tail(
            (match will {
                Some(w) => enc_lp(w.topic) + enc_lp(w.message),
                None => seq![],
            }) + opt_lp(user) + opt_lp(pw),
            base,
            will is Some,
            match will {
                Some(w) => w.qos,
                None => 0,
            },
            match will {
                Some(w) => w.retain,
                None => false,
            },
            user is Some,
            pw is Some,
        ) == Ok::<ConnectV, DecodingError>(
            ConnectV { will, user_name: user, password: pw, ..base },
        ),
{
    reveal(dec_connect_tail);
    let rest = opt_lp(user) + opt_lp(pw);
    match will {
        Some(w) => {
            let wp = enc_lp(w.topic) + enc_lp(w.message);
            let b = wp + opt_lp(user) + opt_lp(pw);
            assert(b =~= enc_lp(w.topic) + (enc_lp(w.message) + rest));
            lemma_dec_enc_lp(w.topic, enc_lp(w.message) + rest);
            let ct = 2 + w.topic.len() as int;
            assert(b.skip(ct) =~= enc_lp(w.message) + rest);
            lemma_dec_enc_lp(w.message, rest);
            let cm = 2 + w.message.len() as int;
            assert(b.skip(ct).skip(cm) =~= rest);
            let base_w = ConnectV {
                will: Some(WillV { topic: w.topic, message: w.message, qos: w.qos, retain: w.retain }),
                ..base
            };
            lemma_dec_connect_users(user, pw, base_w);
            assert(WillV { topic: w.topic, message: w.message, qos: w.qos, retain: w.retain } == w);
        },
        None => {
            let b = seq![] + opt_lp(user) + opt_lp(pw);
            assert(b =~= rest);
            lemma_dec_connect_users(user, pw, base);
        },
    }
}

/// Reading a connect body undoes writing it, for a well-formed connect
/// whose fields fit their prefixes.
#[verifier::rlimit(100)]
#[verifier::spinoff_prover]
proof fn lemma_dec_enc_connect(c: ConnectV)
    requires
        wf_packet(PacketV::Connect(c)),
        strings_fit(PacketV::Connect(c)),
    ensures
        dec_connect_body(enc_connect_body(c)) == Ok::<ConnectV, DecodingError>(c),
{
    reveal(enc_connect_body);
    reveal(dec_connect_body);
    let cf = connect_flags_byte(c);
    let willpart = match c.will {
        Some(w) => enc_lp(w.topic) + enc_lp(w.message),
        None => seq![],
    };
    let body = enc_connect_body(c);
    let rest1 = seq![4u8, cf] + enc_u16(c.keep_alive) + enc_lp(c.client_id) + willpart + opt_lp(
        c.user_name,
    ) + opt_lp(c.password);
    assert(body =~= enc_lp(protocol_name()) + rest1);
    lemma_dec_enc_lp(protocol_name(), rest1);
    let b1 = body.skip(6);
    assert(b1 =~= rest1);
    assert(b1[0] == 4 && b1[1] == cf);
    lemma_connect_flags(c);
    let tail2 = enc_lp(c.client_id) + willpart + opt_lp(c.user_name) + opt_lp(c.password);
    assert(b1.skip(2) =~= enc_u16(c.keep_alive) + tail2);
    lemma_dec_enc_u16(c.keep_alive, tail2);
    let b2 = b1.skip(4);
    assert(b2 =~= enc_lp(c.client_id) + (willpart + opt_lp(c.user_name) + opt_lp(c.password)));
    lemma_dec_enc_lp(c.client_id, willpart + opt_lp(c.user_name) + opt_lp(c.password));
    let c1 = 2 + c.client_id.len() as int;
    let b3 = b2.skip(c1);
    assert(b3 =~= willpart + opt_lp(c.user_name) + opt_lp(c.password));
    let base = ConnectV {
        client_id: c.client_id,
        keep_alive: c.keep_alive,
        clean_session: c.clean_session,
        will: None,
        user_name: None,
        password: None,
    };
    lemma_dec_connect_tail(c.will, c.user_name, c.password, base);
    assert(ConnectV { will: c.will, user_name: c.user_name, password: c.password, ..base } == c);
}

/// Reading a body under its kind's reader undoes writing it, for every
/// constructible packet.
#[verifier::rlimit(100)]
#[verifier::spinoff_prover]
proof fn lemma_body_round_trip(p: PacketV)
    requires
        wf_packet(p),
        strings_fit(p),
    ensures
        dec_packet_body(packet_type(p), packet_flags(p), enc_body(p)) == Ok::<
            PacketV,
            DecodingError,
        >(p),
{
    match p {
        PacketV::Connect(c) => {
            lemma_dec_enc_connect(c);
        },
        PacketV::Connack(c) => {
            let body = enc_body(p);
            assert(body.len() == 2);
            assert(body[0] <= 1);
            lemma_crc_rt(c.code);
        },
        PacketV::Publish(v) => {
            lemma_publish_flags(v);
            let body = enc_body(p);
            let pidpart = match v.qos {
                QoSWithPacketIdentifier::Level0 => seq![],
                QoSWithPacketIdentifier::Level1(pid) => enc_u16(pid),
                QoSWithPacketIdentifier::Level2(pid) => enc_u16(pid),
            };
            assert(body =~= enc_lp(v.topic) + (pidpart + v.payload));
            lemma_dec_enc_lp(v.topic, pidpart + v.payload);
            let c0 = 2 + v.topic.len() as int;
            let b1 = body.skip(c0);
            assert(b1 =~= pidpart + v.payload);
            match v.qos {
                QoSWithPacketIdentifier::Level0 => {
                    assert(b1 =~= v.payload);
                },
                QoSWithPacketIdentifier::Level1(pid) => {
                    lemma_dec_enc_u16(pid, v.payload);
                    assert(b1.skip(2) =~= v.payload);
                },
                QoSWithPacketIdentifier::Level2(pid) => {
                    lemma_dec_enc_u16(pid, v.payload);
                    assert(b1.skip(2) =~= v.payload);
                },
            }
        },
        PacketV::Puback(pid) => {
            lemma_dec_enc_pid(pid);
        },
        PacketV::Pubrec(pid) => {
            lemma_dec_enc_pid(pid);
        },
        PacketV::Pubrel(pid) => {
            lemma_dec_enc_pid(pid);
        },
        PacketV::Pubcomp(pid) => {
            lemma_dec_enc_pid(pid);
        },
        PacketV::Subscribe(s) => {
            let body = enc_body(p);
            assert(body =~= enc_u16(s.pid) + enc_subs(s.subs));
            lemma_dec_enc_u16(s.pid, enc_subs(s.subs));
            assert(body.skip(2) =~= enc_subs(s.subs));
            lemma_dec_enc_subs(s.subs);
            assert(SubscribeV { pid: s.pid, subs: s.subs } == s);
        },
        PacketV::Suback(s) => {
            let body = enc_body(p);
            assert(body =~= enc_u16(s.pid) + enc_codes(s.codes));
            lemma_dec_enc_u16(s.pid, enc_codes(s.codes));
            assert(body.skip(2) =~= enc_codes(s.codes));
            lemma_dec_enc_codes(s.codes);
        },
        PacketV::Unsubscribe(u) => {
            let body = enc_body(p);
            assert(body =~= enc_u16(u.pid) + enc_filters(u.filters));
            lemma_dec_enc_u16(u.pid, enc_filters(u.filters));
            assert(body.skip(2) =~= enc_filters(u.filters));
            lemma_dec_enc_filters(u.filters);
        },
        PacketV::Unsuback(pid) => {
            lemma_dec_enc_pid(pid);
        },
        PacketV::Pingreq => {
        },
        PacketV::Pingresp => {
        },
        PacketV::Disconnect => {
        },
    }
}

/// Round trip: reading the wire bytes of any constructible packet yields
/// that packet again, structurally equal, and consumes every byte written.
pub proof fn lemma_round_trip(p: PacketV)
    requires
        encodable(p),
    ensures
        spec_decode(encoded(p)) == Ok::<(PacketV, int), DecodingError>(
            (p, encoded(p).len() as int),
        ),
{
    let t = packet_type(p);
    let f = packet_flags(p);
    let l = body_len(p);
    let body = enc_body(p);
    let e = encoded(p);
    match p {
        PacketV::Publish(v) => lemma_publish_flags(v),
        _ => (),
    }
    assert(f <= 13);
    let hb = ((t as int) * 16 + (f as int)) as u8;
    assert(e[0] == hb);
    assert(hb as int == (t as int) * 16 + (f as int));
    assert(hb as int / 16 == t as int && hb as int % 16 == f as int) by (nonlinear_arith)
        requires
            hb as int == (t as int) * 16 + (f as int),
            1 <= t as int <= 14,
            0 <= f as int <= 13,
    ;
    assert(hb / 16 == t && hb % 16 == f);
    assert(e.skip(1) =~= enc_varint(l) + body);
    lemma_dec_enc_varint(l, body, 0);
    lemma_enc_varint_len(l);
    let vlen = enc_varint(l).len() as int;
    assert(e.len() == 1 + vlen + l);
    assert(e.subrange(1 + vlen, 1 + vlen + l) =~= body);
    lemma_body_round_trip(p);
}

/// Remaining-length invariant: in every encoded packet, the value the
/// remaining-length field decodes to is exactly the byte length of the body
/// that follows it.
pub proof fn lemma_remaining_length(p: PacketV)
    requires
        encodable(p),
    ensures
        dec_varint(encoded(p).skip(1)) == Ok::<(int, int), DecodingError>(
            (body_len(p), varint_len(body_len(p))),
        ),
        encoded(p).len() == 1 + varint_len(body_len(p)) + body_len(p),
{
    let l = body_len(p);
    let body = enc_body(p);
    assert(encoded(p).skip(1) =~= enc_varint(l) + body);
    lemma_dec_enc_varint(l, body, 0);
    lemma_enc_varint_len(l);
}

/// Size boundaries of the remaining-length encoding: 1 byte through 127,
/// 2 through 16383, 3 through 2097151, 4 through the maximum.
pub proof fn lemma_varint_boundaries()
    ensures
        enc_varint(0).len() == 1,
        enc_varint(127).len() == 1,
        enc_varint(128).len() == 2,
        enc_varint(16383).len() == 2,
        enc_varint(16384).len() == 3,
        enc_varint(2097151).len() == 3,
        enc_varint(2097152).len() == 4,
        enc_varint(268435455).len() == 4,
{
    lemma_enc_varint_len(0);
    lemma_enc_varint_len(127);
    lemma_enc_varint_len(128);
    lemma_enc_varint_len(16383);
    lemma_enc_varint_len(16384);
    lemma_enc_varint_len(2097151);
    lemma_enc_varint_len(2097152);
    lemma_enc_varint_len(268435455);
}

/// Identifier coupling: a publish body carries a packet identifier between
/// topic and payload exactly when its level is above 0.
pub proof fn lemma_publish_identifier_coupling(v: PublishV)
    ensures
        v.qos is Level0 ==> enc_body(PacketV::Publish(v)) == enc_lp(v.topic) + v.payload,
        forall|pid: u16|
            v.qos == QoSWithPacketIdentifier::Level1(pid) ==> enc_body(PacketV::Publish(v))
                == enc_lp(v.topic) + enc_u16(pid) + v.payload,
        forall|pid: u16|
            v.qos == QoSWithPacketIdentifier::Level2(pid) ==> enc_body(PacketV::Publish(v))
                == enc_lp(v.topic) + enc_u16(pid) + v.payload,
{
    match v.qos {
        QoSWithPacketIdentifier::Level0 => {
            assert(enc_body(PacketV::Publish(v)) =~= enc_lp(v.topic) + v.payload);
        },
        QoSWithPacketIdentifier::Level1(pid) => {
            assert(enc_body(PacketV::Publish(v)) =~= enc_lp(v.topic) + enc_u16(pid) + v.payload);
        },
        QoSWithPacketIdentifier::Level2(pid) => {
            assert(enc_body(PacketV::Publish(v)) =~= enc_lp(v.topic) + enc_u16(pid) + v.payload);
        },
    }
}

} // verus!
