use vstd::prelude::*;

verus! {

/// Raised when a field value fails construction-time validation; the
/// offending value is never turned into a packet field.
#[derive(Clone, Copy, Debug, PartialEq, Eq)]
pub enum ValidationError {
    /// A topic name or topic filter breaks the topic grammar.
    InvalidTopic,
    /// A quality-of-service level outside 0..=2.
    InvalidQoS,
    /// A flag combination the protocol forbids, such as a password
    /// without a user name or will options without a will.
    InconsistentFlags,
}

/// Raised when a well-formed packet value cannot be written because a field
/// exceeds a wire-format limit.
#[derive(Clone, Copy, Debug, PartialEq, Eq)]
pub enum EncodingError {
    /// The body is longer than the remaining-length field can carry.
    ValueTooLarge,
    /// A length-prefixed string or blob is longer than 65535 bytes.
    StringTooLong,
}

/// Raised when wire bytes are malformed, truncated, or inconsistent.
#[derive(Clone, Copy, Debug, PartialEq, Eq)]
pub enum DecodingError {
    /// A remaining-length field with a continuation bit in its fourth byte,
    /// or one that stops before its final byte.
    MalformedVarint,
    /// The input ends before a field it promises.
    UnexpectedEof,
    /// A packet body shorter or longer than its fields require.
    LengthMismatch,
    /// A packet-type nibble outside the fourteen known kinds.
    UnknownPacketType,
    /// A quality-of-service field holding 3.
    InvalidQoS,
    /// A topic name or topic filter that breaks the topic grammar.
    InvalidTopic,
    /// Reserved flag bits that are not zero, or an inconsistent connect
    /// flags byte.
    InvalidFlags,
    /// A connect packet whose protocol name or level is not the supported
    /// version.
    InvalidProtocol,
}

} // verus!
