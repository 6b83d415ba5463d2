//! Sequence-space arithmetic, connection identities and the per-connection
//! records built on them.

use crate::tcp::error::ParseError;
use crate::tcp::wire::{
    ipv4_header_from_slice, ipv4_header_view, ipv4_header_well_formed, tcp_header_from_slice,
    tcp_header_view, tcp_header_well_formed, IpHeaderView, TcpHeaderView,
};
use vstd::prelude::*;
use vstd::slice::slice_subrange;

pub mod error;
pub mod handshake;
pub mod state;
pub mod wire;

verus! {

/// The window that this endpoint advertises in every segment it sends.
pub const DEFAULT_WINDOW_SIZE: u16 = 64240;

/// The number of TCP in the protocol field of an IPv4 header.
pub const TCP_PROTOCOL: u8 = 6;

/// The four values that tell one connection from another. Addresses hold
/// their first octet in the most significant byte.
#[derive(PartialEq, Eq, Structural, Debug, Clone, Copy, Hash)]
pub struct ConnectionID {
    pub src_addr: u32,
    pub src_port: u16,
    pub dst_addr: u32,
    pub dst_port: u16,
}

/// Send Sequence Variables
///
/// SND.UNA - send unacknowledged
/// SND.NXT - send next
/// SND.WND - send window
/// SND.UP  - send urgent pointer
/// SND.WL1 - segment sequence number used for last window update
/// SND.WL2 - segment acknowledgment number used for last window update
/// ISS     - initial send sequence number
///
/// ```text
/// 1         2          3          4
/// ----------|----------|----------|----------
///         SND.UNA    SND.NXT    SND.UNA
///                              +SND.WND
/// ```
/// 1 - old sequence numbers which have been acknowledged
/// 2 - sequence numbers of unacknowledged data
/// 3 - sequence numbers allowed for new data transmission
/// 4 - future sequence numbers which are not yet allowed
#[derive(PartialEq, Eq, Structural, Debug, Clone, Copy)]
pub struct SendSequenceSpace {
    pub up: bool,
    pub wnd: u16,
    pub una: u32,
    pub nxt: u32,
    pub wl1: u32,
    pub wl2: u32,
    pub iss: u32,
}

/// Receive Sequence Variables
///
/// ```text
/// 1          2          3
/// ----------|----------|----------
///        RCV.NXT    RCV.NXT
///                  +RCV.WND
/// ```
/// 1 - old sequence numbers which have been acknowledged
/// 2 - sequence numbers allowed for new reception
/// 3 - future sequence numbers which are not yet allowed
#[derive(PartialEq, Eq, Structural, Debug, Clone, Copy)]
pub struct ReceiveSequenceSpace {
    pub up: bool,
    pub wnd: u16,
    pub nxt: u32,
    pub irs: u32,
}

/// A connection in the state `T`: its identity and what that state holds.
/// A step of the handshake takes the connection by value and gives back one
/// in the next state.
#[derive(Debug)]
pub struct Connection<T> {
    pub id: ConnectionID,
    pub state: T,
}

impl<T> Connection<T> {
    pub fn from(id: ConnectionID, state: T) -> (c: Self)
        ensures
            c.id == id,
            c.state == state,
    {
        Self { id, state }
    }
}

/// Size of the sequence space: sequence numbers are integers modulo 2^32.
pub open spec fn seq_space() -> int {
    0x1_0000_0000
}

/// Number of steps needed to reach `to` when walking forward from `from`
/// through the sequence space, wrapping from 2^32 - 1 back to 0.
pub open spec fn seq_distance(from: u32, to: u32) -> int {
    (to - from) % seq_space()
}

/// The sequence number `n` steps after `a`.
pub open spec fn seq_add(a: u32, n: int) -> u32 {
    ((a + n) % seq_space()) as u32
}

/// `a <= b < c` in sequence space: walking forward from `a`, the point `b` is
/// reached strictly before the point `c`.
pub open spec fn is_wrapping_ordered(a: u32, b: u32, c: u32) -> bool {
    seq_distance(a, b) < seq_distance(a, c)
}

/// The three ways in which `a <= b < c` can hold in the plain order of the
/// three numbers: the walk from `a` to `c` does not wrap, it wraps between
/// `b` and `c`, or it wraps between `a` and `b`.
pub open spec fn wrapping_ordered_cases(a: u32, b: u32, c: u32) -> bool {
    ||| (a <= b && b < c)
    ||| (c < a && a <= b)
    ||| (b < c && c < a)
}

/// The case split decides exactly the modular ordering.
pub proof fn lemma_wrapping_ordered_cases(a: u32, b: u32, c: u32)
    ensures
        is_wrapping_ordered(a, b, c) == wrapping_ordered_cases(a, b, c),
{
}

/// Checks `a <= b < c` in sequence space.
pub fn is_wrapping_lte_ls(a: u32, b: u32, c: u32) -> (r: bool)
    ensures
        r == is_wrapping_ordered(a, b, c),
{
    proof {
        lemma_wrapping_ordered_cases(a, b, c);
    }
    // >>>> a >>>> b >>>> c
    if a <= b && b < c {
        return true;
    }
    // >>>> c >>>> a >>>> b
    if c < a && a <= b {
        return true;
    }
    // >>>> b >>>> c >>>> a
    if b < c && c < a {
        return true;
    }
    false
}

/// A point lies between its predecessor and any point that follows the
/// point itself by 1 to 2^31 steps.
pub proof fn lemma_successor_is_ordered(a: u32, k: int)
    requires
        1 <= k <= 0x8000_0000,
    ensures
        is_wrapping_ordered(a, seq_add(a, 1), seq_add(a, k + 1)),
{
}

/// Starting from `a` itself, `a` comes before every point but `a`.
pub proof fn lemma_ordered_from_self(a: u32, c: u32)
    ensures
        is_wrapping_ordered(a, a, c) <==> a != c,
{
}

/// Wrapping addition of machine integers walks the sequence space.
pub proof fn lemma_seq_add_wraps(a: u32, n: u32)
    ensures
        a.wrapping_add(n) == seq_add(a, n as int),
        a.wrapping_sub(n) == seq_add(a, -(n as int)),
{
}

/// `a <= b` in sequence space: `b` is less than half the space ahead of `a`.
pub open spec fn seq_lte(a: u32, b: u32) -> bool {
    seq_distance(a, b) < 0x8000_0000
}

impl SendSequenceSpace {
    /// The oldest unacknowledged number does not lie ahead of the next one
    /// to send.
    pub open spec fn wf(self) -> bool {
        seq_lte(self.una, self.nxt)
    }
}

/// `SND.UNA < SEG.ACK =< SND.NXT` in sequence space: the acknowledgment is
/// for something sent and not yet acknowledged.
pub open spec fn ack_in_window(snd: SendSequenceSpace, ack: u32) -> bool {
    0 < seq_distance(snd.una, ack) <= seq_distance(snd.una, snd.nxt)
}

/// Checks the ack number is actually within the send window. This also
/// considers the case of unsigned int wrapping.
pub fn is_ack_in_window(snd: &SendSequenceSpace, ack: u32) -> (r: bool)
    ensures
        r == ack_in_window(*snd, ack),
{
    // >>>> una >>>> ack >>>> nxt
    if snd.una < ack && ack <= snd.nxt {
        return true;
    }
    // >>>> nxt >>>> una >>>> ack
    if snd.nxt < snd.una && snd.una < ack {
        return true;
    }
    // >>>> ack >>>> nxt >>>> una
    if ack <= snd.nxt && snd.nxt < snd.una {
        return true;
    }
    false
}

/// SEG.LEN: the number of octets that a segment occupies in sequence space,
/// the payload and one each for SYN and FIN.
pub open spec fn segment_len(seg: TcpHeaderView, payload_len: nat) -> nat {
    payload_len + (if seg.syn { 1nat } else { 0 }) + (if seg.fin { 1nat } else { 0 })
}

/// `RCV.NXT =< seq < RCV.NXT+RCV.WND` in sequence space.
pub open spec fn in_recv_window(rcv: ReceiveSequenceSpace, seq: u32) -> bool {
    is_wrapping_ordered(rcv.nxt, seq, seq_add(rcv.nxt, rcv.wnd as int))
}

/// Whether a segment of `len` octets that starts at `seq` occupies a portion
/// of valid receive sequence space:
///
/// ```text
/// Segment Receive  Test
/// Length  Window
/// ------- -------  -------------------------------------------
///    0       0     SEG.SEQ = RCV.NXT
///    0      >0     RCV.NXT =< SEG.SEQ < RCV.NXT+RCV.WND
///   >0       0     not acceptable
///   >0      >0     RCV.NXT =< SEG.SEQ < RCV.NXT+RCV.WND
///                  or RCV.NXT =< SEG.SEQ+SEG.LEN-1 < RCV.NXT+RCV.WND
/// ```
pub open spec fn recv_data_in_window(rcv: ReceiveSequenceSpace, seq: u32, len: nat) -> bool {
    if len == 0 {
        if rcv.wnd == 0 {
            seq == rcv.nxt
        } else {
            in_recv_window(rcv, seq)
        }
    } else {
        if rcv.wnd == 0 {
            false
        } else {
            in_recv_window(rcv, seq) || in_recv_window(rcv, seq_add(seq, len - 1))
        }
    }
}

/// The number of payload octets handed in with a segment.
pub open spec fn payload_len(data: Option<&[u8]>) -> nat {
    match data {
        Some(bytes) => bytes@.len(),
        None => 0,
    }
}

/// With an open window, a number is in the window exactly when it lies
/// fewer than `RCV.WND` steps ahead of `RCV.NXT`.
pub proof fn lemma_in_recv_window(rcv: ReceiveSequenceSpace, seq: u32)
    requires
        rcv.wnd > 0,
    ensures
        in_recv_window(rcv, seq) <==> seq_distance(rcv.nxt, seq) < rcv.wnd,
{
}

/// A closed window admits only the empty segment at `RCV.NXT`.
pub proof fn lemma_closed_window(rcv: ReceiveSequenceSpace, seq: u32, len: nat)
    requires
        rcv.wnd == 0,
    ensures
        recv_data_in_window(rcv, seq, len) <==> len == 0 && seq == rcv.nxt,
{
}

/// Walking `m` steps and then `n` steps is walking `m + n` steps.
pub proof fn lemma_seq_add_add(a: u32, m: int, n: int)
    ensures
        seq_add(seq_add(a, m), n) == seq_add(a, m + n),
{
}

/// Whole turns round the sequence space do not move a point.
pub proof fn lemma_seq_add_turns(a: u32, n: int)
    ensures
        seq_add(a, n % seq_space()) == seq_add(a, n),
{
}

/// The last sequence number that a segment with the header `seg` and
/// `octets` bytes of payload occupies.
fn segment_last_seq(seg: &TcpHeaderView, octets: usize) -> (last: u32)
    requires
        segment_len(*seg, octets as nat) > 0,
    ensures
        last == seq_add(seg.sequence_number, segment_len(*seg, octets as nat) - 1),
{
    let seq = seg.sequence_number;
    let low = (octets as u64 % 0x1_0000_0000) as u32;
    let syn: u32 = if seg.syn { 1 } else { 0 };
    let fin: u32 = if seg.fin { 1 } else { 0 };
    let after_data = seq.wrapping_add(low);
    let after_syn = after_data.wrapping_add(syn);
    let after_fin = after_syn.wrapping_add(fin);
    let last = after_fin.wrapping_sub(1);
    proof {
        lemma_seq_add_wraps(seq, low);
        lemma_seq_add_turns(seq, octets as int);
        assert(after_data == seq_add(seq, octets as int));
        lemma_seq_add_wraps(after_data, syn);
        lemma_seq_add_add(seq, octets as int, syn as int);
        assert(after_syn == seq_add(seq, octets + syn));
        lemma_seq_add_wraps(after_syn, fin);
        lemma_seq_add_add(seq, octets + syn, fin as int);
        assert(after_fin == seq_add(seq, octets + syn + fin));
        lemma_seq_add_wraps(after_fin, 1);
        lemma_seq_add_add(seq, octets + syn + fin, -1);
    }
    last
}

/// Checks that a received segment, the header `seg` with the payload `data`,
/// falls into the receive window.
pub fn is_recv_data_in_window(
    rcv: &ReceiveSequenceSpace,
    seg: &TcpHeaderView,
    data: Option<&[u8]>,
) -> (r: bool)
    ensures
        r == recv_data_in_window(
            *rcv,
            seg.sequence_number,
            segment_len(*seg, payload_len(data)),
        ),
{
    let octets: usize = match data {
        Some(bytes) => bytes.len(),
        None => 0,
    };
    let empty = octets == 0 && !seg.syn && !seg.fin;
    if rcv.wnd == 0 {
        return empty && seg.sequence_number == rcv.nxt;
    }
    let wnd_edge = rcv.nxt.wrapping_add(rcv.wnd as u32);
    proof {
        lemma_seq_add_wraps(rcv.nxt, rcv.wnd as u32);
    }
    // RCV.NXT =< SEG.SEQ < RCV.NXT+RCV.WND
    if is_wrapping_lte_ls(rcv.nxt, seg.sequence_number, wnd_edge) {
        return true;
    }
    if empty {
        return false;
    }
    // RCV.NXT =< SEG.SEQ+SEG.LEN-1 < RCV.NXT+RCV.WND
    let seg_last_seq = segment_last_seq(seg, octets);
    is_wrapping_lte_ls(rcv.nxt, seg_last_seq, wnd_edge)
}

/// What a datagram parses to: the identity of its connection and the views
/// of its two headers; or why it cannot be handled.
pub open spec fn parse_segment(data: Seq<u8>) -> Result<
    (ConnectionID, IpHeaderView, TcpHeaderView),
    ParseError,
> {
    let ip = ipv4_header_view(data);
    let rest = data.subrange(4 * ip.ihl, data.len() as int);
    let tcp = tcp_header_view(rest);
    if !ipv4_header_well_formed(data) {
        Err(ParseError::Ipv4Header)
    } else if ip.protocol != TCP_PROTOCOL {
        Err(ParseError::NotTcp)
    } else if !tcp_header_well_formed(rest) {
        Err(ParseError::TcpHeader)
    } else {
        Ok(
            (
                ConnectionID {
                    src_addr: ip.source,
                    src_port: tcp.source_port,
                    dst_addr: ip.destination,
                    dst_port: tcp.destination_port,
                },
                ip,
                tcp,
            ),
        )
    }
}

/// Reads the IPv4 header and the TCP header that follows it, and from them
/// the identity of the connection that the datagram belongs to.
pub fn parse_connection_id(data: &[u8]) -> (r: Result<
    (ConnectionID, IpHeaderView, TcpHeaderView),
    ParseError,
>)
    ensures
        r == parse_segment(data@),
{
    let ip = match ipv4_header_from_slice(data) {
        Ok(ip) => ip,
        Err(_) => {
            return Err(ParseError::Ipv4Header);
        },
    };
    if ip.protocol != TCP_PROTOCOL {
        return Err(ParseError::NotTcp);
    }
    let tcp_header_idx = 4 * (ip.ihl as usize);
    let tcp = match tcp_header_from_slice(slice_subrange(data, tcp_header_idx, data.len())) {
        Ok(tcp) => tcp,
        Err(_) => {
            return Err(ParseError::TcpHeader);
        },
    };
    let id = ConnectionID {
        src_addr: ip.source,
        src_port: tcp.source_port,
        dst_addr: ip.destination,
        dst_port: tcp.destination_port,
    };
    Ok((id, ip, tcp))
}


} // verus!
