//! The control-packet types: one struct per kind, a tagged union over them,
//! constructors and setters that keep every value well formed, and views
//! into the mathematical model.

use vstd::prelude::*;

use crate::errors::ValidationError;
use crate::fields::{
    crc_byte, crc_canonical, crc_of_byte, src_byte, src_canonical, src_of_byte, ConnectReturnCode,
    QoS, QoSWithPacketIdentifier, SubscribeReturnCode,
};
use crate::model::{
    ConnackV, ConnectV, PacketV, PublishV, SubackV, SubscribeV, UnsubscribeV, WillV,
};
use crate::topic::{TopicFilter, TopicName};

verus! {

/// Copies a byte string.
fn clone_bytes(v: &Vec<u8>) -> (r: Vec<u8>)
    ensures
        r@ == v@,
{
    let c = v.clone();
    proof {
        assert(c@ =~= v@);
    }
    c
}

/// Copies an optional byte string.
fn clone_opt_bytes(v: &Option<Vec<u8>>) -> (r: Option<Vec<u8>>)
    ensures
        match v {
            Some(x) => r matches Some(y) && y@ == x@,
            None => r is None,
        },
{
    match v {
        Some(x) => Some(clone_bytes(x)),
        None => None,
    }
}

/// A connect packet's will message: the message the server publishes on the
/// client's behalf if the connection dies.
#[derive(Debug, PartialEq, Eq)]
pub struct Will {
    topic: TopicName,
    message: Vec<u8>,
    qos: u8,
    retain: bool,
}

impl View for Will {
    type V = WillV;

    closed spec fn view(&self) -> WillV {
        WillV { topic: self.topic@, message: self.message@, qos: self.qos, retain: self.retain }
    }
}

impl Clone for Will {
    /// A clone carries the same fields.
    fn clone(&self) -> (r: Self)
        ensures
            r@ == self@,
    {
        proof {
            use_type_invariant(self);
        }
        Will {
            topic: self.topic.clone(),
            message: clone_bytes(&self.message),
            qos: self.qos,
            retain: self.retain,
        }
    }
}

impl Will {
    #[verifier::type_invariant]
    spec fn inv(self) -> bool {
        self.qos <= 2
    }

    /// A will for the given topic and message, at level 0, not retained.
    pub fn new(topic: TopicName, message: Vec<u8>) -> (r: Will)
        ensures
            r@ == (WillV { topic: topic@, message: message@, qos: 0, retain: false }),
    {
        Will { topic, message, qos: 0, retain: false }
    }

    /// Builds a will from all four fields.
    pub(crate) fn from_parts(topic: TopicName, message: Vec<u8>, qos: u8, retain: bool) -> (r: Will)
        requires
            qos <= 2,
        ensures
            r@ == (WillV { topic: topic@, message: message@, qos, retain }),
    {
        Will { topic, message, qos, retain }
    }

    /// The will topic.
    pub fn topic(&self) -> (r: &TopicName)
        ensures
            r@ == self@.topic,
    {
        &self.topic
    }

    /// The will message bytes.
    pub fn message(&self) -> (r: &Vec<u8>)
        ensures
            r@ == self@.message,
    {
        &self.message
    }

    /// The will's delivery level, always below 3.
    pub fn qos(&self) -> (r: u8)
        ensures
            r == self@.qos,
            r <= 2,
    {
        proof {
            use_type_invariant(self);
        }
        self.qos
    }

    /// Whether the will is retained.
    pub fn retain(&self) -> (r: bool)
        ensures
            r == self@.retain,
    {
        self.retain
    }
}

/// A connect packet: the session a client asks the server to open.
#[derive(Debug, PartialEq, Eq)]
pub struct ConnectPacket {
    client_id: Vec<u8>,
    keep_alive: u16,
    clean_session: bool,
    will: Option<Will>,
    user_name: Option<Vec<u8>>,
    password: Option<Vec<u8>>,
}

impl View for ConnectPacket {
    type V = ConnectV;

    closed spec fn view(&self) -> ConnectV {
        ConnectV {
            client_id: self.client_id@,
            keep_alive: self.keep_alive,
            clean_session: self.clean_session,
            will: match self.will {
                Some(w) => Some(w@),
                None => None,
            },
            user_name: match self.user_name {
                Some(u) => Some(u@),
                None => None,
            },
            password: match self.password {
                Some(pw) => Some(pw@),
                None => None,
            },
        }
    }
}

impl Clone for ConnectPacket {
    /// A clone carries the same fields.
    fn clone(&self) -> (r: Self)
        ensures
            r@ == self@,
    {
        proof {
            use_type_invariant(self);
        }
        ConnectPacket {
            client_id: clone_bytes(&self.client_id),
            keep_alive: self.keep_alive,
            clean_session: self.clean_session,
            will: match &self.will {
                Some(w) => Some(w.clone()),
                None => None,
            },
            user_name: clone_opt_bytes(&self.user_name),
            password: clone_opt_bytes(&self.password),
        }
    }
}

impl ConnectPacket {
    #[verifier::type_invariant]
    spec fn inv(self) -> bool {
        self.password is Some ==> self.user_name is Some
    }

    /// A connect packet for the given client identifier: keep-alive 0, no
    /// clean session, no will, no user name, no password.
    pub fn new(client_id: Vec<u8>) -> (r: ConnectPacket)
        ensures
            r@ == (ConnectV {
                client_id: client_id@,
                keep_alive: 0,
                clean_session: false,
                will: None,
                user_name: None,
                password: None,
            }),
    {
        ConnectPacket {
            client_id,
            keep_alive: 0,
            clean_session: false,
            will: None,
            user_name: None,
            password: None,
        }
    }

    /// Builds a connect packet from all fields.
    pub(crate) fn from_parts(
        client_id: Vec<u8>,
        keep_alive: u16,
        clean_session: bool,
        will: Option<Will>,
        user_name: Option<Vec<u8>>,
        password: Option<Vec<u8>>,
    ) -> (r: ConnectPacket)
        requires
            password is Some ==> user_name is Some,
        ensures
            r@ == (ConnectV {
                client_id: client_id@,
                keep_alive,
                clean_session,
                will: match will {
                    Some(w) => Some(w@),
                    None => None,
                },
                user_name: match user_name {
                    Some(u) => Some(u@),
                    None => None,
                },
                password: match password {
                    Some(pw) => Some(pw@),
                    None => None,
                },
            }),
    {
        ConnectPacket { client_id, keep_alive, clean_session, will, user_name, password }
    }

    /// Replaces the keep-alive interval, in seconds.
    pub fn set_keep_alive(&mut self, keep_alive: u16)
        ensures
            final(self)@ == (ConnectV { keep_alive, ..old(self)@ }),
    {
        proof {
            use_type_invariant(&*self);
        }
        self.keep_alive = keep_alive;
    }

    /// Replaces the clean-session flag.
    pub fn set_clean_session(&mut self, clean_session: bool)
        ensures
            final(self)@ == (ConnectV { clean_session, ..old(self)@ }),
    {
        proof {
            use_type_invariant(&*self);
        }
        self.clean_session = clean_session;
    }

    /// Replaces the client identifier.
    pub fn set_client_identifier(&mut self, client_id: Vec<u8>)
        ensures
            final(self)@ == (ConnectV { client_id: client_id@, ..old(self)@ }),
    {
        proof {
            use_type_invariant(&*self);
        }
        self.client_id = client_id;
    }

    /// Replaces the will. A new will starts at level 0 and not retained;
    /// clearing removes the will options with it.
    pub fn set_will(&mut self, will: Option<(TopicName, Vec<u8>)>)
        ensures
            final(self)@ == (ConnectV {
                will: match will {
                    Some((t, m)) => Some(WillV { topic: t@, message: m@, qos: 0, retain: false }),
                    None => None,
                },
                ..old(self)@
            }),
    {
        proof {
            use_type_invariant(&*self);
        }
        self.will = match will {
            Some((t, m)) => Some(Will::new(t, m)),
            None => None,
        };
    }

    /// Replaces the will's delivery level. Rejects a level above 2 as an
    /// invalid level, and a will option without a will as inconsistent.
    pub fn set_will_qos(&mut self, qos: u8) -> (r: Result<(), ValidationError>)
        ensures
            match r {
                Ok(()) => qos <= 2 && old(self)@.will is Some && final(self)@ == (ConnectV {
                    will: match old(self)@.will {
                        Some(w) => Some(WillV { qos, ..w }),
                        None => None,
                    },
                    ..old(self)@
                }),
                Err(ValidationError::InvalidQoS) => qos > 2 && *final(self) == *old(self),
                Err(e) => qos <= 2 && old(self)@.will is None && *final(self) == *old(self) && e
                    == ValidationError::InconsistentFlags,
            },
    {
        proof {
            use_type_invariant(&*self);
        }
        if qos > 2 {
            return Err(ValidationError::InvalidQoS);
        }
        let mut taken: Option<Will> = None;
        core::mem::swap(&mut self.will, &mut taken);
        match taken {
            Some(mut w) => {
                proof {
                    use_type_invariant(&w);
                }
                w.qos = qos;
                self.will = Some(w);
                Ok(())
            },
            None => Err(ValidationError::InconsistentFlags),
        }
    }

    /// Replaces the will's retain flag. Rejects a will option without a
    /// will as inconsistent.
    pub fn set_will_retain(&mut self, retain: bool) -> (r: Result<(), ValidationError>)
        ensures
            match r {
                Ok(()) => old(self)@.will is Some && final(self)@ == (ConnectV {
                    will: match old(self)@.will {
                        Some(w) => Some(WillV { retain, ..w }),
                        None => None,
                    },
                    ..old(self)@
                }),
                Err(e) => old(self)@.will is None && *final(self) == *old(self) && e
                    == ValidationError::InconsistentFlags,
            },
    {
        proof {
            use_type_invariant(&*self);
        }
        let mut taken: Option<Will> = None;
        core::mem::swap(&mut self.will, &mut taken);
        match taken {
            Some(mut w) => {
                proof {
                    use_type_invariant(&w);
                }
                w.retain = retain;
                self.will = Some(w);
                Ok(())
            },
            None => Err(ValidationError::InconsistentFlags),
        }
    }

    /// Replaces the user name; clearing it removes the password with it,
    /// since a password cannot stand alone.
    pub fn set_user_name(&mut self, user_name: Option<Vec<u8>>)
        ensures
            final(self)@ == (ConnectV {
                user_name: match user_name {
                    Some(u) => Some(u@),
                    None => None,
                },
                password: match user_name {
                    Some(_) => old(self)@.password,
                    None => None,
                },
                ..old(self)@
            }),
    {
        proof {
            use_type_invariant(&*self);
        }
        if user_name.is_none() {
            self.password = None;
        }
        self.user_name = user_name;
    }

    /// Replaces the password. Rejects a password without a user name as
    /// inconsistent.
    pub fn set_password(&mut self, password: Option<Vec<u8>>) -> (r: Result<(), ValidationError>)
        ensures
            match r {
                Ok(()) => (password is Some ==> old(self)@.user_name is Some) && final(self)@
                    == (ConnectV {
                    password: match password {
                        Some(pw) => Some(pw@),
                        None => None,
                    },
                    ..old(self)@
                }),
                Err(e) => password is Some && old(self)@.user_name is None && *final(self)
                    == *old(self) && e == ValidationError::InconsistentFlags,
            },
    {
        proof {
            use_type_invariant(&*self);
        }
        if password.is_some() && self.user_name.is_none() {
            return Err(ValidationError::InconsistentFlags);
        }
        self.password = password;
        Ok(())
    }

    /// The client identifier.
    pub fn client_identifier(&self) -> (r: &Vec<u8>)
        ensures
            r@ == self@.client_id,
    {
        &self.client_id
    }

    /// The keep-alive interval, in seconds.
    pub fn keep_alive(&self) -> (r: u16)
        ensures
            r == self@.keep_alive,
    {
        self.keep_alive
    }

    /// Whether a clean session is asked for.
    pub fn clean_session(&self) -> (r: bool)
        ensures
            r == self@.clean_session,
    {
        self.clean_session
    }

    /// The will, if any; its level is always below 3.
    pub fn will(&self) -> (r: &Option<Will>)
        ensures
            match r {
                Some(w) => self@.will matches Some(wv) && w@ == wv && wv.qos <= 2,
                None => self@.will is None,
            },
    {
        let r = &self.will;
        match r {
            Some(w) => proof {
                use_type_invariant(w);
            },
            None => (),
        }
        r
    }

    /// The user name, if any.
    pub fn user_name(&self) -> (r: &Option<Vec<u8>>)
        ensures
            match r {
                Some(u) => self@.user_name matches Some(uv) && u@ == uv,
                None => self@.user_name is None,
            },
    {
        &self.user_name
    }

    /// The password, if any; a password never stands without a user name.
    pub fn password(&self) -> (r: &Option<Vec<u8>>)
        ensures
            match r {
                Some(pw) => self@.password matches Some(pv) && pw@ == pv,
                None => self@.password is None,
            },
            self@.password is Some ==> self@.user_name is Some,
    {
        proof {
            use_type_invariant(self);
        }
        &self.password
    }

}

/// A connack packet: the server's answer to a connect.
#[derive(Clone, Copy, Debug, PartialEq, Eq)]
pub struct ConnackPacket {
    session_present: bool,
    code: ConnectReturnCode,
}

impl View for ConnackPacket {
    type V = ConnackV;

    closed spec fn view(&self) -> ConnackV {
        ConnackV { session_present: self.session_present, code: self.code }
    }
}

impl ConnackPacket {
    #[verifier::type_invariant]
    spec fn inv(self) -> bool {
        crc_canonical(self.code)
    }

    /// A connack with the given session-present flag and return code. A
    /// catch-all code holding a named code's byte is folded into the named
    /// variant, so equal wire bytes mean equal packets.
    pub fn new(session_present: bool, code: ConnectReturnCode) -> (r: ConnackPacket)
        ensures
            r@.session_present == session_present,
            r@.code == crc_of_byte(crc_byte(code)),
            crc_canonical(code) ==> r@.code == code,
    {
        let canon = ConnectReturnCode::from_byte(code.value());
        ConnackPacket { session_present, code: canon }
    }

    /// Whether the server found session state for the client.
    pub fn session_present(&self) -> (r: bool)
        ensures
            r == self@.session_present,
    {
        self.session_present
    }

    /// The return code, always canonical.
    pub fn connect_return_code(&self) -> (r: ConnectReturnCode)
        ensures
            r == self@.code,
            crc_canonical(r),
    {
        proof {
            use_type_invariant(self);
        }
        self.code
    }
}

/// A publish packet: an application message for a topic.
#[derive(Debug, PartialEq, Eq)]
pub struct PublishPacket {
    topic: TopicName,
    qos: QoSWithPacketIdentifier,
    dup: bool,
    retain: bool,
    payload: Vec<u8>,
}

impl View for PublishPacket {
    type V = PublishV;

    closed spec fn view(&self) -> PublishV {
        PublishV {
            topic: self.topic@,
            qos: self.qos,
            dup: self.dup,
            retain: self.retain,
            payload: self.payload@,
        }
    }
}

impl Clone for PublishPacket {
    /// A clone carries the same fields.
    fn clone(&self) -> (r: Self)
        ensures
            r@ == self@,
    {
        PublishPacket {
            topic: self.topic.clone(),
            qos: self.qos,
            dup: self.dup,
            retain: self.retain,
            payload: clone_bytes(&self.payload),
        }
    }
}

impl PublishPacket {
    /// A publish for the given topic, level and payload, without DUP or
    /// RETAIN.
    pub fn new(topic: TopicName, qos: QoSWithPacketIdentifier, payload: Vec<u8>) -> (r:
        PublishPacket)
        ensures
            r@ == (PublishV { topic: topic@, qos, dup: false, retain: false, payload: payload@ }),
    {
        PublishPacket { topic, qos, dup: false, retain: false, payload }
    }

    /// Replaces the DUP flag.
    pub fn set_dup(&mut self, dup: bool)
        ensures
            final(self)@ == (PublishV { dup, ..old(self)@ }),
    {
        self.dup = dup;
    }

    /// Replaces the RETAIN flag.
    pub fn set_retain(&mut self, retain: bool)
        ensures
            final(self)@ == (PublishV { retain, ..old(self)@ }),
    {
        self.retain = retain;
    }

    /// Replaces the level and its identifier.
    pub fn set_qos(&mut self, qos: QoSWithPacketIdentifier)
        ensures
            final(self)@ == (PublishV { qos, ..old(self)@ }),
    {
        self.qos = qos;
    }

    /// Replaces the payload.
    pub fn set_payload(&mut self, payload: Vec<u8>)
        ensures
            final(self)@ == (PublishV { payload: payload@, ..old(self)@ }),
    {
        self.payload = payload;
    }

    /// The topic the message is published to.
    pub fn topic(&self) -> (r: &TopicName)
        ensures
            r@ == self@.topic,
    {
        &self.topic
    }

    /// The level, with its identifier if the level is above 0.
    pub fn qos(&self) -> (r: QoSWithPacketIdentifier)
        ensures
            r == self@.qos,
    {
        self.qos
    }

    /// The DUP flag.
    pub fn dup(&self) -> (r: bool)
        ensures
            r == self@.dup,
    {
        self.dup
    }

    /// The RETAIN flag.
    pub fn retain(&self) -> (r: bool)
        ensures
            r == self@.retain,
    {
        self.retain
    }

    /// The payload bytes.
    pub fn payload(&self) -> (r: &Vec<u8>)
        ensures
            r@ == self@.payload,
    {
        &self.payload
    }
}

/// A subscribe packet: an identifier and ordered filter/level requests.
#[derive(Debug, PartialEq, Eq)]
pub struct SubscribePacket {
    pid: u16,
    subs: Vec<(TopicFilter, QoS)>,
}

impl View for SubscribePacket {
    type V = SubscribeV;

    closed spec fn view(&self) -> SubscribeV {
        SubscribeV {
            pid: self.pid,
            subs: self.subs@.map_values(|e: (TopicFilter, QoS)| (e.0@, e.1)),
        }
    }
}

impl SubscribePacket {
    /// A subscribe with the given identifier and requests, kept in order.
    pub fn new(pid: u16, subs: Vec<(TopicFilter, QoS)>) -> (r: SubscribePacket)
        ensures
            r@.pid == pid,
            r@.subs == subs@.map_values(|e: (TopicFilter, QoS)| (e.0@, e.1)),
    {
        SubscribePacket { pid, subs }
    }

    /// The packet identifier.
    pub fn packet_identifier(&self) -> (r: u16)
        ensures
            r == self@.pid,
    {
        self.pid
    }

    /// The requests, in the order they were given.
    pub fn subscribes(&self) -> (r: &Vec<(TopicFilter, QoS)>)
        ensures
            r@.len() == self@.subs.len(),
            forall|i: int|
                0 <= i < r@.len() ==> #[trigger] self@.subs[i] == (r@[i].0@, r@[i].1),
    {
        proof {
            assert(forall|i: int|
                0 <= i < self.subs@.len() ==> #[trigger] self@.subs[i] == (self.subs@[i].0@,
                self.subs@[i].1));
        }
        &self.subs
    }
}

/// A suback packet: an identifier and ordered per-request return codes.
#[derive(Debug, PartialEq, Eq)]
pub struct SubackPacket {
    pid: u16,
    codes: Vec<SubscribeReturnCode>,
}

impl View for SubackPacket {
    type V = SubackV;

    closed spec fn view(&self) -> SubackV {
        SubackV { pid: self.pid, codes: self.codes@ }
    }
}

impl SubackPacket {
    #[verifier::type_invariant]
    spec fn inv(self) -> bool {
        forall|i: int| 0 <= i < self.codes@.len() ==> src_canonical(#[trigger] self.codes@[i])
    }

    /// A suback with the given identifier and codes, kept in order. A
    /// catch-all code holding a named code's byte is folded into the named
    /// variant, so equal wire bytes mean equal packets.
    pub fn new(pid: u16, codes: Vec<SubscribeReturnCode>) -> (r: SubackPacket)
        ensures
            r@.pid == pid,
            r@.codes == codes@.map_values(|c: SubscribeReturnCode| src_of_byte(src_byte(c))),
    {
        let mut canon: Vec<SubscribeReturnCode> = Vec::new();
        let mut i: usize = 0;
        while i < codes.len()
            invariant
                i <= codes@.len(),
                canon@.len() == i,
                forall|j: int|
                    0 <= j < i ==> #[trigger] canon@[j] == src_of_byte(src_byte(codes@[j])),
                forall|j: int| 0 <= j < i ==> src_canonical(#[trigger] canon@[j]),
            decreases codes@.len() - i,
        {
            canon.push(SubscribeReturnCode::from_byte(codes[i].value()));
            i += 1;
        }
        proof {
            assert(canon@ =~= codes@.map_values(|c: SubscribeReturnCode| src_of_byte(src_byte(c))));
        }
        SubackPacket { pid, codes: canon }
    }

    /// Builds a suback from codes already canonical.
    pub(crate) fn from_parts(pid: u16, codes: Vec<SubscribeReturnCode>) -> (r: SubackPacket)
        requires
            forall|i: int| 0 <= i < codes@.len() ==> src_canonical(#[trigger] codes@[i]),
        ensures
            r@.pid == pid,
            r@.codes == codes@,
    {
        SubackPacket { pid, codes }
    }

    /// The packet identifier.
    pub fn packet_identifier(&self) -> (r: u16)
        ensures
            r == self@.pid,
    {
        self.pid
    }

    /// The codes, in the order they were given, each canonical.
    pub fn return_codes(&self) -> (r: &Vec<SubscribeReturnCode>)
        ensures
            r@ == self@.codes,
            forall|i: int| 0 <= i < self@.codes.len() ==> src_canonical(#[trigger] self@.codes[i]),
    {
        proof {
            use_type_invariant(self);
        }
        &self.codes
    }
}

/// An unsubscribe packet: an identifier and ordered filters to drop.
#[derive(Debug, PartialEq, Eq)]
pub struct UnsubscribePacket {
    pid: u16,
    filters: Vec<TopicFilter>,
}

impl View for UnsubscribePacket {
    type V = UnsubscribeV;

    closed spec fn view(&self) -> UnsubscribeV {
        UnsubscribeV { pid: self.pid, filters: self.filters@.map_values(|f: TopicFilter| f@) }
    }
}

impl UnsubscribePacket {
    /// An unsubscribe with the given identifier and filters, kept in order.
    pub fn new(pid: u16, filters: Vec<TopicFilter>) -> (r: UnsubscribePacket)
        ensures
            r@.pid == pid,
            r@.filters == filters@.map_values(|f: TopicFilter| f@),
    {
        UnsubscribePacket { pid, filters }
    }

    /// The packet identifier.
    pub fn packet_identifier(&self) -> (r: u16)
        ensures
            r == self@.pid,
    {
        self.pid
    }

    /// The filters, in the order they were given.
    pub fn filters(&self) -> (r: &Vec<TopicFilter>)
        ensures
            r@.len() == self@.filters.len(),
            forall|i: int| 0 <= i < r@.len() ==> #[trigger] self@.filters[i] == r@[i]@,
    {
        proof {
            assert(forall|i: int|
                0 <= i < self.filters@.len() ==> #[trigger] self@.filters[i]
                == self.filters@[i]@);
        }
        &self.filters
    }
}

/// A puback packet: the level-1 acknowledgement of a publish.
#[derive(Clone, Copy, Debug, PartialEq, Eq, Structural)]
pub struct PubackPacket {
    /// The packet identifier being acknowledged or correlated.
    pub pid: u16,
}

impl PubackPacket {
    /// A puback for the given identifier.
    pub fn new(pid: u16) -> (r: PubackPacket)
        ensures
            r.pid == pid,
    {
        PubackPacket { pid }
    }

    /// The packet identifier.
    pub fn packet_identifier(&self) -> (r: u16)
        ensures
            r == self.pid,
    {
        self.pid
    }
}

/// A pubrec packet: the first half of the level-2 handshake.
#[derive(Clone, Copy, Debug, PartialEq, Eq, Structural)]
pub struct PubrecPacket {
    /// The packet identifier being acknowledged or correlated.
    pub pid: u16,
}

impl PubrecPacket {
    /// A pubrec for the given identifier.
    pub fn new(pid: u16) -> (r: PubrecPacket)
        ensures
            r.pid == pid,
    {
        PubrecPacket { pid }
    }

    /// The packet identifier.
    pub fn packet_identifier(&self) -> (r: u16)
        ensures
            r == self.pid,
    {
        self.pid
    }
}

/// A pubrel packet: the second half of the level-2 handshake.
#[derive(Clone, Copy, Debug, PartialEq, Eq, Structural)]
pub struct PubrelPacket {
    /// The packet identifier being acknowledged or correlated.
    pub pid: u16,
}

impl PubrelPacket {
    /// A pubrel for the given identifier.
    pub fn new(pid: u16) -> (r: PubrelPacket)
        ensures
            r.pid == pid,
    {
        PubrelPacket { pid }
    }

    /// The packet identifier.
    pub fn packet_identifier(&self) -> (r: u16)
        ensures
            r == self.pid,
    {
        self.pid
    }
}

/// A pubcomp packet: the close of the level-2 handshake.
#[derive(Clone, Copy, Debug, PartialEq, Eq, Structural)]
pub struct PubcompPacket {
    /// The packet identifier being acknowledged or correlated.
    pub pid: u16,
}

impl PubcompPacket {
    /// A pubcomp for the given identifier.
    pub fn new(pid: u16) -> (r: PubcompPacket)
        ensures
            r.pid == pid,
    {
        PubcompPacket { pid }
    }

    /// The packet identifier.
    pub fn packet_identifier(&self) -> (r: u16)
        ensures
            r == self.pid,
    {
        self.pid
    }
}

/// An unsuback packet: the acknowledgement of an unsubscribe.
#[derive(Clone, Copy, Debug, PartialEq, Eq, Structural)]
pub struct UnsubackPacket {
    /// The packet identifier being acknowledged or correlated.
    pub pid: u16,
}

impl UnsubackPacket {
    /// An unsuback for the given identifier.
    pub fn new(pid: u16) -> (r: UnsubackPacket)
        ensures
            r.pid == pid,
    {
        UnsubackPacket { pid }
    }

    /// The packet identifier.
    pub fn packet_identifier(&self) -> (r: u16)
        ensures
            r == self.pid,
    {
        self.pid
    }
}

/// A pingreq packet: a keep-alive probe, with no body.
#[derive(Clone, Copy, Debug, PartialEq, Eq, Structural)]
pub struct PingreqPacket {}

impl PingreqPacket {
    /// A pingreq.
    pub fn new() -> PingreqPacket {
        PingreqPacket {  }
    }
}

/// A pingresp packet: the answer to a pingreq, with no body.
#[derive(Clone, Copy, Debug, PartialEq, Eq, Structural)]
pub struct PingrespPacket {}

impl PingrespPacket {
    /// A pingresp.
    pub fn new() -> PingrespPacket {
        PingrespPacket {  }
    }
}

/// A disconnect packet: the client's orderly goodbye, with no body.
#[derive(Clone, Copy, Debug, PartialEq, Eq, Structural)]
pub struct DisconnectPacket {}

impl DisconnectPacket {
    /// A disconnect.
    pub fn new() -> DisconnectPacket {
        DisconnectPacket {  }
    }
}

/// A control packet of any kind: the closed tagged union the codec's entry
/// points work on.
#[derive(Debug, PartialEq, Eq)]
pub enum Packet {
    Connect(ConnectPacket),
    Connack(ConnackPacket),
    Publish(PublishPacket),
    Puback(PubackPacket),
    Pubrec(PubrecPacket),
    Pubrel(PubrelPacket),
    Pubcomp(PubcompPacket),
    Subscribe(SubscribePacket),
    Suback(SubackPacket),
    Unsubscribe(UnsubscribePacket),
    Unsuback(UnsubackPacket),
    Pingreq(PingreqPacket),
    Pingresp(PingrespPacket),
    Disconnect(DisconnectPacket),
}

impl View for Packet {
    type V = PacketV;

    open spec fn view(&self) -> PacketV {
        match self {
            Packet::Connect(p) => PacketV::Connect(p@),
            Packet::Connack(p) => PacketV::Connack(p@),
            Packet::Publish(p) => PacketV::Publish(p@),
            Packet::Puback(p) => PacketV::Puback(p.pid),
            Packet::Pubrec(p) => PacketV::Pubrec(p.pid),
            Packet::Pubrel(p) => PacketV::Pubrel(p.pid),
            Packet::Pubcomp(p) => PacketV::Pubcomp(p.pid),
            Packet::Subscribe(p) => PacketV::Subscribe(p@),
            Packet::Suback(p) => PacketV::Suback(p@),
            Packet::Unsubscribe(p) => PacketV::Unsubscribe(p@),
            Packet::Unsuback(p) => PacketV::Unsuback(p.pid),
            Packet::Pingreq(_) => PacketV::Pingreq,
            Packet::Pingresp(_) => PacketV::Pingresp,
            Packet::Disconnect(_) => PacketV::Disconnect,
        }
    }
}

} // verus!
