//! Small validated field types shared by the packet kinds: quality-of-service
//! levels and the two return-code enums.
//!
//! Return-code enums keep a catch-all variant for byte values outside the
//! named codes, so an unknown code survives a decode/encode round trip. A
//! catch-all holding a named code's byte would encode ambiguously, so
//! construction canonicalizes: byte values of named codes always yield the
//! named variant.

use vstd::prelude::*;

use crate::errors::ValidationError;

verus! {

/// Delivery guarantee level.
#[derive(Clone, Copy, Debug, PartialEq, Eq, Structural)]
pub enum QoS {
    Level0,
    Level1,
    Level2,
}

/// Wire value of a quality-of-service level.
pub open spec fn qos_byte(q: QoS) -> u8 {
    match q {
        QoS::Level0 => 0,
        QoS::Level1 => 1,
        QoS::Level2 => 2,
    }
}

/// The level a wire value below 3 denotes.
pub open spec fn qos_of_byte(b: u8) -> QoS {
    if b == 0 {
        QoS::Level0
    } else if b == 1 {
        QoS::Level1
    } else {
        QoS::Level2
    }
}

impl QoS {
    /// Wire value of the level.
    pub fn value(self) -> (r: u8)
        ensures
            r == qos_byte(self),
    {
        match self {
            QoS::Level0 => 0,
            QoS::Level1 => 1,
            QoS::Level2 => 2,
        }
    }

    /// Reads a level from its wire value; exactly 0, 1 and 2 are accepted,
    /// anything else is a distinct error, never clamped.
    pub fn from_byte(b: u8) -> (r: Result<QoS, ValidationError>)
        ensures
            match r {
                Ok(q) => b <= 2 && q == qos_of_byte(b),
                Err(e) => b > 2 && e == ValidationError::InvalidQoS,
            },
    {
        if b == 0 {
            Ok(QoS::Level0)
        } else if b == 1 {
            Ok(QoS::Level1)
        } else if b == 2 {
            Ok(QoS::Level2)
        } else {
            Err(ValidationError::InvalidQoS)
        }
    }
}

/// Quality of service of a publish, coupled with the packet identifier it
/// requires: level 0 carries none, levels 1 and 2 each carry one.
#[derive(Clone, Copy, Debug, PartialEq, Eq, Structural)]
pub enum QoSWithPacketIdentifier {
    Level0,
    Level1(u16),
    Level2(u16),
}

/// The two quality-of-service bits of a publish flags nibble.
pub open spec fn qos_pid_bits(q: QoSWithPacketIdentifier) -> u8 {
    match q {
        QoSWithPacketIdentifier::Level0 => 0,
        QoSWithPacketIdentifier::Level1(_) => 1,
        QoSWithPacketIdentifier::Level2(_) => 2,
    }
}

impl QoSWithPacketIdentifier {
    /// The two quality-of-service bits of the flags nibble.
    pub fn bits(self) -> (r: u8)
        ensures
            r == qos_pid_bits(self),
    {
        match self {
            QoSWithPacketIdentifier::Level0 => 0,
            QoSWithPacketIdentifier::Level1(_) => 1,
            QoSWithPacketIdentifier::Level2(_) => 2,
        }
    }
}

/// Outcome of a connection attempt, as reported by a connack packet.
#[derive(Clone, Copy, Debug, PartialEq, Eq, Structural)]
pub enum ConnectReturnCode {
    ConnectionAccepted,
    UnacceptableProtocolVersion,
    IdentifierRejected,
    ServiceUnavailable,
    BadUserNameOrPassword,
    NotAuthorized,
    /// A code outside the named six, kept verbatim for forward
    /// compatibility.
    Reserved(u8),
}

/// Wire value of a connect return code.
pub open spec fn crc_byte(c: ConnectReturnCode) -> u8 {
    match c {
        ConnectReturnCode::ConnectionAccepted => 0,
        ConnectReturnCode::UnacceptableProtocolVersion => 1,
        ConnectReturnCode::IdentifierRejected => 2,
        ConnectReturnCode::ServiceUnavailable => 3,
        ConnectReturnCode::BadUserNameOrPassword => 4,
        ConnectReturnCode::NotAuthorized => 5,
        ConnectReturnCode::Reserved(n) => n,
    }
}

/// The code a wire value denotes; values outside the named six become the
/// catch-all variant.
pub open spec fn crc_of_byte(b: u8) -> ConnectReturnCode {
    if b == 0 {
        ConnectReturnCode::ConnectionAccepted
    } else if b == 1 {
        ConnectReturnCode::UnacceptableProtocolVersion
    } else if b == 2 {
        ConnectReturnCode::IdentifierRejected
    } else if b == 3 {
        ConnectReturnCode::ServiceUnavailable
    } else if b == 4 {
        ConnectReturnCode::BadUserNameOrPassword
    } else if b == 5 {
        ConnectReturnCode::NotAuthorized
    } else {
        ConnectReturnCode::Reserved(b)
    }
}

/// A code whose catch-all variant never shadows a named code's byte.
pub open spec fn crc_canonical(c: ConnectReturnCode) -> bool {
    match c {
        ConnectReturnCode::Reserved(n) => n > 5,
        _ => true,
    }
}

impl ConnectReturnCode {
    /// Wire value of the code.
    pub fn value(self) -> (r: u8)
        ensures
            r == crc_byte(self),
    {
        match self {
            ConnectReturnCode::ConnectionAccepted => 0,
            ConnectReturnCode::UnacceptableProtocolVersion => 1,
            ConnectReturnCode::IdentifierRejected => 2,
            ConnectReturnCode::ServiceUnavailable => 3,
            ConnectReturnCode::BadUserNameOrPassword => 4,
            ConnectReturnCode::NotAuthorized => 5,
            ConnectReturnCode::Reserved(n) => n,
        }
    }

    /// Reads a code from its wire value; every byte is accepted, unknown
    /// values land in the catch-all variant.
    pub fn from_byte(b: u8) -> (r: ConnectReturnCode)
        ensures
            r == crc_of_byte(b),
    {
        if b == 0 {
            ConnectReturnCode::ConnectionAccepted
        } else if b == 1 {
            ConnectReturnCode::UnacceptableProtocolVersion
        } else if b == 2 {
            ConnectReturnCode::IdentifierRejected
        } else if b == 3 {
            ConnectReturnCode::ServiceUnavailable
        } else if b == 4 {
            ConnectReturnCode::BadUserNameOrPassword
        } else if b == 5 {
            ConnectReturnCode::NotAuthorized
        } else {
            ConnectReturnCode::Reserved(b)
        }
    }
}

/// Per-filter outcome of a subscribe request, as reported by a suback
/// packet: the granted maximum level, or failure.
#[derive(Clone, Copy, Debug, PartialEq, Eq, Structural)]
pub enum SubscribeReturnCode {
    MaximumQoSLevel0,
    MaximumQoSLevel1,
    MaximumQoSLevel2,
    Failure,
    /// A code outside the named four, kept verbatim for forward
    /// compatibility.
    Reserved(u8),
}

/// Wire value of a subscribe return code.
pub open spec fn src_byte(c: SubscribeReturnCode) -> u8 {
    match c {
        SubscribeReturnCode::MaximumQoSLevel0 => 0,
        SubscribeReturnCode::MaximumQoSLevel1 => 1,
        SubscribeReturnCode::MaximumQoSLevel2 => 2,
        SubscribeReturnCode::Failure => 128,
        SubscribeReturnCode::Reserved(n) => n,
    }
}

/// The code a wire value denotes; values outside the named four become the
/// catch-all variant.
pub open spec fn src_of_byte(b: u8) -> SubscribeReturnCode {
    if b == 0 {
        SubscribeReturnCode::MaximumQoSLevel0
    } else if b == 1 {
        SubscribeReturnCode::MaximumQoSLevel1
    } else if b == 2 {
        SubscribeReturnCode::MaximumQoSLevel2
    } else if b == 128 {
        SubscribeReturnCode::Failure
    } else {
        SubscribeReturnCode::Reserved(b)
    }
}

/// A code whose catch-all variant never shadows a named code's byte.
pub open spec fn src_canonical(c: SubscribeReturnCode) -> bool {
    match c {
        SubscribeReturnCode::Reserved(n) => n != 0 && n != 1 && n != 2 && n != 128,
        _ => true,
    }
}

impl SubscribeReturnCode {
    /// Wire value of the code.
    pub fn value(self) -> (r: u8)
        ensures
            r == src_byte(self),
    {
        match self {
            SubscribeReturnCode::MaximumQoSLevel0 => 0,
            SubscribeReturnCode::MaximumQoSLevel1 => 1,
            SubscribeReturnCode::MaximumQoSLevel2 => 2,
            SubscribeReturnCode::Failure => 128,
            SubscribeReturnCode::Reserved(n) => n,
        }
    }

    /// Reads a code from its wire value; every byte is accepted, unknown
    /// values land in the catch-all variant.
    pub fn from_byte(b: u8) -> (r: SubscribeReturnCode)
        ensures
            r == src_of_byte(b),
    {
        if b == 0 {
            SubscribeReturnCode::MaximumQoSLevel0
        } else if b == 1 {
            SubscribeReturnCode::MaximumQoSLevel1
        } else if b == 2 {
            SubscribeReturnCode::MaximumQoSLevel2
        } else if b == 128 {
            SubscribeReturnCode::Failure
        } else {
            SubscribeReturnCode::Reserved(b)
        }
    }
}

} // verus!
