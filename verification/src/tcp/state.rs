//! What a connection holds in each state of the handshake.

use crate::tcp::wire::{IpHeaderView, TcpHeaderView};
use crate::tcp::{ReceiveSequenceSpace, SendSequenceSpace};
use vstd::prelude::*;

verus! {

/// The initial listen state for a tcp connection: the headers of the
/// segment that asks for it, not yet answered.
#[derive(PartialEq, Eq, Structural, Debug, Clone, Copy)]
pub struct Listen {
    pub ip_header: IpHeaderView,
    pub tcp_header: TcpHeaderView,
}

/// The SYN has been answered; the answer is not yet acknowledged.
#[derive(PartialEq, Eq, Structural, Debug, Clone, Copy)]
pub struct SynRecv {
    pub snd: SendSequenceSpace,
    pub rcv: ReceiveSequenceSpace,
}

/// Both sides have acknowledged each other's initial sequence number.
#[derive(PartialEq, Eq, Structural, Debug, Clone, Copy)]
pub struct Established {
    pub snd: SendSequenceSpace,
    pub rcv: ReceiveSequenceSpace,
}

impl SynRecv {
    /// The same two records, moved field by field into the established
    /// state.
    pub fn into_established(self) -> (est: Established)
        ensures
            est.snd == self.snd,
            est.rcv == self.rcv,
    {
        Established { snd: self.snd, rcv: self.rcv }
    }
}

} // verus!
