//! The ways in which a datagram or a handshake step is turned down. None of
//! them ends the endpoint: the datagram is dropped and the connection it was
//! meant for stays as it was.

use vstd::prelude::*;

verus! {

/// The datagram is malformed or does not carry TCP.
#[derive(PartialEq, Eq, Structural, Debug, Clone, Copy)]
pub enum ParseError {
    /// The bytes do not start with a valid IPv4 header.
    Ipv4Header,
    /// The IPv4 header names a protocol other than TCP.
    NotTcp,
    /// The bytes after the IPv4 header do not start with a valid TCP header.
    TcpHeader,
}

/// A precondition of a handshake step does not hold of the segment.
#[derive(PartialEq, Eq, Structural, Debug, Clone, Copy)]
pub enum ValidationError {
    /// The segment that should open a connection has its ACK bit set.
    UnexpectedAck,
    /// The segment that should open a connection has its SYN bit clear.
    MissingSyn,
    /// The segment that should complete the handshake has its ACK bit clear.
    MissingAck,
    /// The acknowledgment number lies outside the send window.
    AckOutOfWindow,
    /// The segment lies outside the receive window.
    SegmentOutOfWindow,
}

impl ParseError {
    /// The text under which the error is reported.
    pub open spec fn message_spec(self) -> Seq<char> {
        match self {
            ParseError::Ipv4Header => "not a valid ipv4 header, skip"@,
            ParseError::NotTcp => "not tcp protocol, skip"@,
            ParseError::TcpHeader => "not a valid tcp header, skip"@,
        }
    }

    /// The text under which the error is reported.
    pub fn message(&self) -> (text: &'static str)
        ensures
            text@ == self.message_spec(),
    {
        match self {
            ParseError::Ipv4Header => "not a valid ipv4 header, skip",
            ParseError::NotTcp => "not tcp protocol, skip",
            ParseError::TcpHeader => "not a valid tcp header, skip",
        }
    }
}

impl ValidationError {
    /// The text under which the error is reported.
    pub open spec fn message_spec(self) -> Seq<char> {
        match self {
            ValidationError::UnexpectedAck => "ack should not be set, invalid payload"@,
            ValidationError::MissingSyn => "syn should be set, invalid payload"@,
            ValidationError::MissingAck => "no ack received"@,
            ValidationError::AckOutOfWindow => "not valid ack for syn recv"@,
            ValidationError::SegmentOutOfWindow => "not valid ack for syn recv"@,
        }
    }

    /// The text under which the error is reported.
    pub fn message(&self) -> (text: &'static str)
        ensures
            text@ == self.message_spec(),
    {
        match self {
            ValidationError::UnexpectedAck => "ack should not be set, invalid payload",
            ValidationError::MissingSyn => "syn should be set, invalid payload",
            ValidationError::MissingAck => "no ack received",
            ValidationError::AckOutOfWindow => "not valid ack for syn recv",
            ValidationError::SegmentOutOfWindow => "not valid ack for syn recv",
        }
    }
}

} // verus!
