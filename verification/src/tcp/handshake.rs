//! This implements the basic 3 way handshake process to establish a tcp
//! connection. The basic 3-Way handshake for connection synchronization is
//! as follows:
//!
//! ```text
//!       TCP A                                                TCP B
//!
//!   1.  CLOSED                                               LISTEN
//!
//!   2.  SYN-SENT    --> <SEQ=100><CTL=SYN>               --> SYN-RECEIVED
//!
//!   3.  ESTABLISHED <-- <SEQ=300><ACK=101><CTL=SYN,ACK>  <-- SYN-RECEIVED
//!
//!   4.  ESTABLISHED --> <SEQ=101><ACK=301><CTL=ACK>       --> ESTABLISHED
//! ```
//!
//! This endpoint is TCP B.

use crate::tcp::error::ValidationError;
use crate::tcp::state::{Established, Listen, SynRecv};
use crate::tcp::wire::{
    ipv4_header_bytes, ipv4_header_checksum, ipv4_header_wire, lemma_ipv4_header_round_trip,
    lemma_tcp_header_round_trip, tcp_checksum, tcp_checksum_ipv4, tcp_header_bytes,
    tcp_header_wire, IpHeaderView, TcpHeaderView, TCP_HEADER_LEN,
};
use crate::tcp::{
    ack_in_window, is_ack_in_window, is_recv_data_in_window, lemma_seq_add_wraps, parse_segment,
    recv_data_in_window, segment_len, seq_add, Connection, ConnectionID, ReceiveSequenceSpace,
    SendSequenceSpace, DEFAULT_WINDOW_SIZE, TCP_PROTOCOL,
};
use vstd::pervasive::unreached;
use vstd::prelude::*;

verus! {

/// The time to live of every datagram this endpoint sends.
pub const REPLY_TTL: u8 = 64;

/// What a listening connection requires of the segment that opens it: ACK
/// clear, SYN set.
pub open spec fn preflight(seg: TcpHeaderView) -> Result<(), ValidationError> {
    if seg.ack {
        Err(ValidationError::UnexpectedAck)
    } else if !seg.syn {
        Err(ValidationError::MissingSyn)
    } else {
        Ok(())
    }
}

/// The records of a connection that has answered the SYN `seg` with the
/// initial send sequence number `iss` and the window `wnd`:
/// SND.NXT is ISS+1 and SND.UNA is ISS; RCV.NXT is SEG.SEQ+1 and IRS is
/// SEG.SEQ.
pub open spec fn syn_received(iss: u32, wnd: u16, seg: TcpHeaderView) -> SynRecv {
    SynRecv {
        snd: SendSequenceSpace {
            una: iss,
            nxt: seq_add(iss, 1),
            wnd,
            up: false,
            wl1: 0,
            wl2: 0,
            iss,
        },
        rcv: ReceiveSequenceSpace {
            nxt: seq_add(seg.sequence_number, 1),
            wnd: seg.window_size,
            up: false,
            irs: seg.sequence_number,
        },
    }
}

/// The header of the segment `<SEQ=ISS><ACK=RCV.NXT><CTL=SYN,ACK>` sent to
/// the peer of `id`, before its checksum is filled in.
pub open spec fn syn_ack_header(id: ConnectionID, iss: u32, rcv_nxt: u32, wnd: u16) -> TcpHeaderView {
    TcpHeaderView {
        source_port: id.dst_port,
        destination_port: id.src_port,
        sequence_number: iss,
        acknowledgment_number: rcv_nxt,
        window_size: wnd,
        syn: true,
        ack: true,
        fin: false,
        checksum: 0,
    }
}

/// The datagram that answers a SYN: an IPv4 header from the connection's
/// destination back to its source, and the header of `syn_ack_header` with
/// the checksum of the segment; no payload.
pub open spec fn syn_ack_wire(id: ConnectionID, iss: u32, rcv_nxt: u32, wnd: u16) -> Seq<u8> {
    let header = syn_ack_header(id, iss, rcv_nxt, wnd);
    let checksum = tcp_checksum_ipv4(header, id.dst_addr, id.src_addr, Seq::<u8>::empty());
    ipv4_header_wire(
        TCP_HEADER_LEN,
        REPLY_TTL,
        TCP_PROTOCOL,
        id.dst_addr,
        id.src_addr,
        ipv4_header_checksum(TCP_HEADER_LEN, REPLY_TTL, TCP_PROTOCOL, id.dst_addr, id.src_addr),
    ) + tcp_header_wire(
        TcpHeaderView {
            source_port: header.source_port,
            destination_port: header.destination_port,
            sequence_number: header.sequence_number,
            acknowledgment_number: header.acknowledgment_number,
            window_size: header.window_size,
            syn: header.syn,
            ack: header.ack,
            fin: header.fin,
            checksum,
        },
    )
}

/// The answer to a SYN reads back, at the peer, as a segment of the same
/// connection in the other direction that carries SYN and ACK,
/// `<SEQ=ISS><ACK=RCV.NXT>`, and the advertised window.
pub proof fn lemma_syn_ack_parses(id: ConnectionID, iss: u32, rcv_nxt: u32, wnd: u16)
    ensures
        syn_ack_wire(id, iss, rcv_nxt, wnd).len() == 40,
        parse_segment(syn_ack_wire(id, iss, rcv_nxt, wnd)) matches Ok((back, ip, tcp))
            && back == (ConnectionID {
            src_addr: id.dst_addr,
            src_port: id.dst_port,
            dst_addr: id.src_addr,
            dst_port: id.src_port,
        }) && ip.protocol == TCP_PROTOCOL && tcp.syn && tcp.ack && !tcp.fin && tcp.sequence_number
            == iss && tcp.acknowledgment_number == rcv_nxt && tcp.window_size == wnd,
{
    let header = syn_ack_header(id, iss, rcv_nxt, wnd);
    let checksum = tcp_checksum_ipv4(header, id.dst_addr, id.src_addr, Seq::<u8>::empty());
    let sent = TcpHeaderView {
        source_port: header.source_port,
        destination_port: header.destination_port,
        sequence_number: header.sequence_number,
        acknowledgment_number: header.acknowledgment_number,
        window_size: header.window_size,
        syn: header.syn,
        ack: header.ack,
        fin: header.fin,
        checksum,
    };
    let ip_bytes = ipv4_header_wire(
        TCP_HEADER_LEN,
        REPLY_TTL,
        TCP_PROTOCOL,
        id.dst_addr,
        id.src_addr,
        ipv4_header_checksum(TCP_HEADER_LEN, REPLY_TTL, TCP_PROTOCOL, id.dst_addr, id.src_addr),
    );
    let tcp_bytes = tcp_header_wire(sent);
    let data = syn_ack_wire(id, iss, rcv_nxt, wnd);
    assert(data == ip_bytes + tcp_bytes);
    lemma_ipv4_header_round_trip(
        TCP_HEADER_LEN,
        REPLY_TTL,
        TCP_PROTOCOL,
        id.dst_addr,
        id.src_addr,
        ipv4_header_checksum(TCP_HEADER_LEN, REPLY_TTL, TCP_PROTOCOL, id.dst_addr, id.src_addr),
        tcp_bytes,
    );
    lemma_tcp_header_round_trip(sent, Seq::<u8>::empty());
    assert(tcp_bytes + Seq::<u8>::empty() =~= tcp_bytes);
    assert(data.subrange(20, data.len() as int) =~= tcp_bytes);
}

/// Builds the datagram that answers a SYN.
pub fn syn_ack_segment(id: &ConnectionID, iss: u32, rcv_nxt: u32, wnd: u16) -> (reply: Vec<u8>)
    ensures
        reply@ == syn_ack_wire(*id, iss, rcv_nxt, wnd),
{
    let mut header = TcpHeaderView {
        source_port: id.dst_port,
        destination_port: id.src_port,
        sequence_number: iss,
        acknowledgment_number: rcv_nxt,
        window_size: wnd,
        syn: true,
        ack: true,
        fin: false,
        checksum: 0,
    };
    let no_payload: Vec<u8> = Vec::new();
    // this field is needed, if no checksum, the other host will not respond with ACK.
    header.checksum = match tcp_checksum(&header, id.dst_addr, id.src_addr, no_payload.as_slice()) {
        Ok(checksum) => checksum,
        Err(_) => unreached(),
    };
    let mut reply = match ipv4_header_bytes(
        TCP_HEADER_LEN,
        REPLY_TTL,
        TCP_PROTOCOL,
        id.dst_addr,
        id.src_addr,
    ) {
        Ok(bytes) => bytes,
        Err(_) => unreached(),
    };
    let mut tcp_bytes = match tcp_header_bytes(&header) {
        Ok(bytes) => bytes,
        Err(_) => unreached(),
    };
    reply.append(&mut tcp_bytes);
    reply
}

/// Implements the initial SYN response handling
///
/// ```text
///        TCP A                                                TCP B
///
///   1.  CLOSED                                               LISTEN
///
///   2.  SYN-SENT    --> <SEQ=100><CTL=SYN>               --> SYN-RECEIVED
///
///   3.  ESTABLISHED <-- <SEQ=300><ACK=101><CTL=SYN,ACK>  <-- SYN-RECEIVED
/// ```
impl Connection<Listen> {
    pub fn new(id: ConnectionID, ip_header: IpHeaderView, tcp_header: TcpHeaderView) -> (c: Self)
        ensures
            c.id == id,
            c.state.ip_header == ip_header,
            c.state.tcp_header == tcp_header,
    {
        Self::from(id, Listen { ip_header, tcp_header })
    }

    /// Generates the state that follows the answer to the SYN. See
    /// RFC 793, page 64.
    pub fn next_state(&self, iss: u32, wnd: u16) -> (next: SynRecv)
        ensures
            next == syn_received(iss, wnd, self.state.tcp_header),
            next.snd.wf(),
    {
        proof {
            lemma_seq_add_wraps(iss, 1);
            lemma_seq_add_wraps(self.state.tcp_header.sequence_number, 1);
        }
        SynRecv {
            // SND.NXT is set to ISS+1 and SND.UNA to ISS
            snd: SendSequenceSpace {
                una: iss,
                nxt: iss.wrapping_add(1),
                wnd,
                up: false,
                wl1: 0,
                wl2: 0,
                iss,
            },
            // Set RCV.NXT to SEG.SEQ+1, IRS is set to SEG.SEQ and any other
            // control or text should be queued for processing later.
            rcv: ReceiveSequenceSpace {
                nxt: self.state.tcp_header.sequence_number.wrapping_add(1),
                wnd: self.state.tcp_header.window_size,
                up: false,
                irs: self.state.tcp_header.sequence_number,
            },
        }
    }

    /// Checks the segment that asks for the connection. See RFC 793,
    /// page 64.
    pub fn preflight_checks(&self) -> (r: Result<(), ValidationError>)
        ensures
            r == preflight(self.state.tcp_header),
    {
        if self.state.tcp_header.ack {
            // Any acknowledgment is bad if it arrives on a connection still in
            // the LISTEN state.
            return Err(ValidationError::UnexpectedAck);
        }
        if !self.state.tcp_header.syn {
            return Err(ValidationError::MissingSyn);
        }
        Ok(())
    }

    /// Answers the SYN: with `iss` as the initial send sequence number, the
    /// connection moves to `SynRecv`, and the datagram to send to the peer
    /// comes with it. A segment that is no plain SYN is turned down, and the
    /// listening connection is gone.
    pub fn syn_ack(self, iss: u32) -> (r: Result<(Connection<SynRecv>, Vec<u8>), ValidationError>)
        ensures
            match r {
                Ok((next, reply)) => {
                    &&& preflight(self.state.tcp_header) is Ok
                    &&& next.id == self.id
                    &&& next.state == syn_received(iss, DEFAULT_WINDOW_SIZE, self.state.tcp_header)
                    &&& next.state.snd.wf()
                    &&& reply@ == syn_ack_wire(
                        self.id,
                        iss,
                        next.state.rcv.nxt,
                        DEFAULT_WINDOW_SIZE,
                    )
                },
                Err(e) => preflight(self.state.tcp_header) == Err::<(), ValidationError>(e),
            },
    {
        match self.preflight_checks() {
            Ok(()) => {},
            Err(e) => {
                return Err(e);
            },
        }
        let window_size = DEFAULT_WINDOW_SIZE;
        let next_state = self.next_state(iss, window_size);
        // ISS should be selected and a SYN segment sent of the form:
        //     <SEQ=ISS><ACK=RCV.NXT><CTL=SYN,ACK>
        let reply = syn_ack_segment(&self.id, iss, next_state.rcv.nxt, window_size);
        let Connection { id, .. } = self;
        Ok((Connection::from(id, next_state), reply))
    }
}

/// What a connection in `SynRecv` requires of the segment that completes
/// the handshake: ACK set, the acknowledgment within the send window, and
/// the segment, taken without payload, within the receive window.
pub open spec fn establishes(state: SynRecv, seg: TcpHeaderView) -> Result<(), ValidationError> {
    if !seg.ack {
        Err(ValidationError::MissingAck)
    } else if !ack_in_window(state.snd, seg.acknowledgment_number) {
        Err(ValidationError::AckOutOfWindow)
    } else if !recv_data_in_window(state.rcv, seg.sequence_number, segment_len(seg, 0)) {
        Err(ValidationError::SegmentOutOfWindow)
    } else {
        Ok(())
    }
}

/// The handshake completes: a connection that answered the SYN `syn` with
/// `iss` is established by the segment that acknowledges `iss + 1`, carries
/// no control bit but ACK and starts at the next number expected.
pub proof fn lemma_handshake_completes(iss: u32, wnd: u16, syn: TcpHeaderView, seg: TcpHeaderView)
    requires
        seg.ack && !seg.syn && !seg.fin,
        seg.acknowledgment_number == seq_add(iss, 1),
        seg.sequence_number == seq_add(syn.sequence_number, 1),
    ensures
        establishes(syn_received(iss, wnd, syn), seg) is Ok,
{
}

/// A SYN that opened a connection does not complete its handshake, whatever
/// the connection's records are.
pub proof fn lemma_syn_does_not_establish(state: SynRecv, seg: TcpHeaderView)
    requires
        preflight(seg) is Ok,
    ensures
        establishes(state, seg) == Err::<(), ValidationError>(ValidationError::MissingAck),
{
}

/// Implements the receiving of ACK after Syn Recv
///
/// ```text
///   4.  ESTABLISHED --> <SEQ=101><ACK=301><CTL=ACK>       --> ESTABLISHED
/// ```
impl Connection<SynRecv> {
    /// Completes the handshake: the connection moves to `Established` with
    /// both records as they are. A segment that does not complete it is
    /// turned down, and the connection comes back unchanged.
    pub fn check_ack(self, tcp_header: &TcpHeaderView) -> (r: Result<
        Connection<Established>,
        (Connection<SynRecv>, ValidationError),
    >)
        ensures
            match r {
                Ok(next) => {
                    &&& establishes(self.state, *tcp_header) is Ok
                    &&& next.id == self.id
                    &&& next.state.snd == self.state.snd
                    &&& next.state.rcv == self.state.rcv
                },
                Err((same, e)) => {
                    &&& same == self
                    &&& establishes(self.state, *tcp_header) == Err::<(), ValidationError>(e)
                },
            },
    {
        if !tcp_header.ack {
            return Err((self, ValidationError::MissingAck));
        }
        if !is_ack_in_window(&self.state.snd, tcp_header.acknowledgment_number) {
            return Err((self, ValidationError::AckOutOfWindow));
        }
        if !is_recv_data_in_window(&self.state.rcv, tcp_header, None) {
            return Err((self, ValidationError::SegmentOutOfWindow));
        }
        let Connection { id, state } = self;
        Ok(Connection::from(id, state.into_established()))
    }
}

} // verus!
