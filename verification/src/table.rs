//! The connection table: which connection each datagram belongs to, and
//! what the datagram does to it.

use crate::tcp::error::{ParseError, ValidationError};
use crate::tcp::handshake::{
    establishes, lemma_handshake_completes, preflight, syn_ack_wire, syn_received,
};
use crate::tcp::state::{Established, SynRecv};
use crate::tcp::wire::{IpHeaderView, TcpHeaderView};
use crate::tcp::{
    lemma_seq_add_wraps, parse_connection_id, parse_segment, seq_add, Connection, ConnectionID,
    DEFAULT_WINDOW_SIZE,
};
use std::collections::HashMap;
use vstd::prelude::*;
use vstd::set_lib::lemma_map_size;

verus! {

broadcast use vstd::std_specs::hash::group_hash_axioms;

/// A connection as the table holds it, in the state it has reached. A
/// listening connection lives only while its SYN is being answered and is
/// never held.
#[derive(Debug)]
pub enum TableEntry {
    SynRecv(Connection<SynRecv>),
    Established(Connection<Established>),
}

impl TableEntry {
    /// The identity of the connection.
    pub open spec fn id(self) -> ConnectionID {
        match self {
            TableEntry::SynRecv(conn) => conn.id,
            TableEntry::Established(conn) => conn.id,
        }
    }
}

/// Why a datagram was dropped. The table is then as it was before.
#[derive(PartialEq, Eq, Structural, Debug, Clone, Copy)]
pub enum DispatchError {
    /// The datagram is malformed or does not carry TCP.
    Parse(ParseError),
    /// The segment does not meet what the next step of the handshake asks.
    Validation(ValidationError),
    /// The connection is in a state that takes no segment.
    ProtocolState,
}

impl DispatchError {
    /// The text under which the error is reported.
    pub open spec fn message_spec(self) -> Seq<char> {
        match self {
            DispatchError::Parse(e) => e.message_spec(),
            DispatchError::Validation(e) => e.message_spec(),
            DispatchError::ProtocolState => "invalid state for transition"@,
        }
    }

    /// The text under which the error is reported.
    pub fn message(&self) -> (text: &'static str)
        ensures
            text@ == self.message_spec(),
    {
        match self {
            DispatchError::Parse(e) => e.message(),
            DispatchError::Validation(e) => e.message(),
            DispatchError::ProtocolState => "invalid state for transition",
        }
    }
}

/// What one datagram leads to: the table and the next initial send sequence
/// number after it, and either what to send back, if anything, or why the
/// datagram was dropped.
pub struct Step {
    pub connections: Map<ConnectionID, TableEntry>,
    pub next_iss: u32,
    pub result: Result<Option<Seq<u8>>, DispatchError>,
}

/// The step taken for a segment with the header `tcp` that belongs to the
/// connection `id`.
///
/// - No entry: a plain SYN creates the connection in `SynRecv`, uses up one
///   initial send sequence number and is answered; anything else is turned
///   down.
/// - `SynRecv`: a segment that completes the handshake moves the connection
///   to `Established`, its records unchanged, and nothing is sent; anything
///   else is turned down.
/// - `Established`: every segment is turned down.
///
/// A segment that is turned down changes nothing.
pub open spec fn deliver_spec(
    connections: Map<ConnectionID, TableEntry>,
    iss: u32,
    id: ConnectionID,
    tcp: TcpHeaderView,
) -> Step {
    let dropped = |e: DispatchError| Step { connections, next_iss: iss, result: Err(e) };
    if !connections.contains_key(id) {
        match preflight(tcp) {
            Ok(()) => {
                let state = syn_received(iss, DEFAULT_WINDOW_SIZE, tcp);
                Step {
                    connections: connections.insert(
                        id,
                        TableEntry::SynRecv(Connection { id, state }),
                    ),
                    next_iss: seq_add(iss, 1),
                    result: Ok(Some(syn_ack_wire(id, iss, state.rcv.nxt, DEFAULT_WINDOW_SIZE))),
                }
            },
            Err(e) => dropped(DispatchError::Validation(e)),
        }
    } else {
        match connections[id] {
            TableEntry::SynRecv(conn) => match establishes(conn.state, tcp) {
                Ok(()) => Step {
                    connections: connections.insert(
                        id,
                        TableEntry::Established(
                            Connection {
                                id: conn.id,
                                state: Established { snd: conn.state.snd, rcv: conn.state.rcv },
                            },
                        ),
                    ),
                    next_iss: iss,
                    result: Ok(None),
                },
                Err(e) => dropped(DispatchError::Validation(e)),
            },
            TableEntry::Established(_) => dropped(DispatchError::ProtocolState),
        }
    }
}

/// The step taken for the datagram `frame`: one that does not parse is
/// dropped, any other is delivered to the connection it names.
pub open spec fn dispatch_spec(
    connections: Map<ConnectionID, TableEntry>,
    iss: u32,
    frame: Seq<u8>,
) -> Step {
    match parse_segment(frame) {
        Ok((id, _, tcp)) => deliver_spec(connections, iss, id, tcp),
        Err(e) => Step { connections, next_iss: iss, result: Err(DispatchError::Parse(e)) },
    }
}

/// A datagram that is dropped changes nothing: every connection stays in
/// the state it had, and no initial send sequence number is used up.
pub proof fn lemma_dropped_changes_nothing(
    connections: Map<ConnectionID, TableEntry>,
    iss: u32,
    frame: Seq<u8>,
)
    requires
        dispatch_spec(connections, iss, frame).result is Err,
    ensures
        dispatch_spec(connections, iss, frame).connections == connections,
        dispatch_spec(connections, iss, frame).next_iss == iss,
{
}

/// A plain SYN for an identity without a connection creates the connection
/// in `SynRecv`, with RCV.NXT one past the SYN's sequence number and IRS at
/// it, and is answered with exactly the datagram of `syn_ack_wire` that
/// acknowledges RCV.NXT.
pub proof fn lemma_syn_opens_connection(
    connections: Map<ConnectionID, TableEntry>,
    iss: u32,
    id: ConnectionID,
    tcp: TcpHeaderView,
)
    requires
        !connections.contains_key(id),
        tcp.syn && !tcp.ack,
    ensures
        ({
            let step = deliver_spec(connections, iss, id, tcp);
            let rcv_nxt = seq_add(tcp.sequence_number, 1);
            &&& step.connections.dom() == connections.dom().insert(id)
            &&& step.connections[id] matches TableEntry::SynRecv(conn)
            &&& conn.id == id
            &&& conn.state.rcv.nxt == rcv_nxt
            &&& conn.state.rcv.irs == tcp.sequence_number
            &&& conn.state.snd.iss == iss
            &&& step.result == Ok::<Option<Seq<u8>>, DispatchError>(
                Some(syn_ack_wire(id, iss, rcv_nxt, DEFAULT_WINDOW_SIZE)),
            )
        }),
{
    let step = deliver_spec(connections, iss, id, tcp);
    assert(step.connections.dom() =~= connections.dom().insert(id));
}

/// After a SYN has opened a connection, the segment that acknowledges its
/// answer moves the connection to `Established` with the records it had in
/// `SynRecv`, and nothing is sent.
pub proof fn lemma_ack_establishes_connection(
    connections: Map<ConnectionID, TableEntry>,
    iss: u32,
    id: ConnectionID,
    syn: TcpHeaderView,
    ack: TcpHeaderView,
)
    requires
        !connections.contains_key(id),
        syn.syn && !syn.ack,
        ack.ack && !ack.syn && !ack.fin,
        ack.acknowledgment_number == seq_add(iss, 1),
        ack.sequence_number == seq_add(syn.sequence_number, 1),
    ensures
        ({
            let opened = deliver_spec(connections, iss, id, syn);
            let step = deliver_spec(opened.connections, opened.next_iss, id, ack);
            &&& opened.connections[id] matches TableEntry::SynRecv(before)
            &&& step.connections[id] matches TableEntry::Established(after)
            &&& after.id == id
            &&& after.state.snd == before.state.snd
            &&& after.state.rcv == before.state.rcv
            &&& step.connections.dom() == opened.connections.dom()
            &&& step.next_iss == opened.next_iss
            &&& step.result == Ok::<Option<Seq<u8>>, DispatchError>(None)
        }),
{
    let opened = deliver_spec(connections, iss, id, syn);
    lemma_handshake_completes(iss, DEFAULT_WINDOW_SIZE, syn, ack);
    let step = deliver_spec(opened.connections, opened.next_iss, id, ack);
    assert(step.connections.dom() =~= opened.connections.dom());
}

/// A segment that is no plain SYN, an ACK alone for one, creates no
/// connection for an identity that has none: it is turned down as invalid.
pub proof fn lemma_no_connection_without_syn(
    connections: Map<ConnectionID, TableEntry>,
    iss: u32,
    id: ConnectionID,
    tcp: TcpHeaderView,
)
    requires
        !connections.contains_key(id),
        tcp.ack || !tcp.syn,
    ensures
        ({
            let step = deliver_spec(connections, iss, id, tcp);
            &&& step.result matches Err(DispatchError::Validation(_))
            &&& step.connections == connections
            &&& !step.connections.contains_key(id)
            &&& step.next_iss == iss
        }),
{
}

/// An established connection takes no segment, a second SYN no more than
/// any other: the segment is turned down and the connection is unchanged.
pub proof fn lemma_established_is_untouched(
    connections: Map<ConnectionID, TableEntry>,
    iss: u32,
    id: ConnectionID,
    tcp: TcpHeaderView,
)
    requires
        connections.contains_key(id),
        connections[id] is Established,
    ensures
        ({
            let step = deliver_spec(connections, iss, id, tcp);
            &&& step.result == Err::<Option<Seq<u8>>, DispatchError>(DispatchError::ProtocolState)
            &&& step.connections == connections
            &&& step.next_iss == iss
        }),
{
}

/// The SYN that opened a connection, delivered again while the connection
/// waits in `SynRecv`, is turned down and leaves the connection's records
/// as they are.
pub proof fn lemma_repeated_syn_is_rejected(
    connections: Map<ConnectionID, TableEntry>,
    iss: u32,
    id: ConnectionID,
    tcp: TcpHeaderView,
)
    requires
        connections.contains_key(id),
        connections[id] is SynRecv,
        tcp.syn && !tcp.ack,
    ensures
        ({
            let step = deliver_spec(connections, iss, id, tcp);
            &&& step.result == Err::<Option<Seq<u8>>, DispatchError>(
                DispatchError::Validation(ValidationError::MissingAck),
            )
            &&& step.connections == connections
            &&& step.next_iss == iss
        }),
{
}

impl ConnectionID {
    /// The four values side by side in one number: a different number for
    /// each identity.
    pub open spec fn table_key(self) -> u128 {
        (self.src_addr * 0x1_0000_0000_0000_0000 + self.src_port * 0x1_0000_0000_0000
            + self.dst_addr * 0x1_0000 + self.dst_port) as u128
    }

    /// The key under which the table files the connection.
    pub fn key(&self) -> (k: u128)
        ensures
            k == self.table_key(),
    {
        (self.src_addr as u128) * 0x1_0000_0000_0000_0000 + (self.src_port as u128)
            * 0x1_0000_0000_0000 + (self.dst_addr as u128) * 0x1_0000 + (self.dst_port as u128)
    }

    /// Two identities with the same key are the same identity.
    pub proof fn lemma_table_key_injective(self, other: ConnectionID)
        ensures
            self.table_key() == other.table_key() <==> self == other,
    {
        if self.table_key() == other.table_key() {
            lemma_digits_unique(
                self.src_addr as int,
                self.src_port as int,
                self.dst_addr as int,
                self.dst_port as int,
                other.src_addr as int,
                other.src_port as int,
                other.dst_addr as int,
                other.dst_port as int,
            );
        }
    }
}

/// A number written with four digits of 32, 16, 32 and 16 bits has only one
/// such writing.
proof fn lemma_digits_unique(a: int, b: int, c: int, d: int, w: int, x: int, y: int, z: int)
    requires
        0 <= a < 0x1_0000_0000 && 0 <= w < 0x1_0000_0000,
        0 <= b < 0x1_0000 && 0 <= x < 0x1_0000,
        0 <= c < 0x1_0000_0000 && 0 <= y < 0x1_0000_0000,
        0 <= d < 0x1_0000 && 0 <= z < 0x1_0000,
        a * 0x1_0000_0000_0000_0000 + b * 0x1_0000_0000_0000 + c * 0x1_0000 + d == w
            * 0x1_0000_0000_0000_0000 + x * 0x1_0000_0000_0000 + y * 0x1_0000 + z,
    ensures
        a == w,
        b == x,
        c == y,
        d == z,
{
    let low = c * 0x1_0000 + d;
    let low2 = y * 0x1_0000 + z;
    assert(0 <= low < 0x1_0000_0000_0000 && 0 <= low2 < 0x1_0000_0000_0000);
    let mid = b * 0x1_0000_0000_0000 + low;
    let mid2 = x * 0x1_0000_0000_0000 + low2;
    assert(0 <= mid < 0x1_0000_0000_0000_0000 && 0 <= mid2 < 0x1_0000_0000_0000_0000);
    assert(a == w) by {
        if a < w {
            assert(a + 1 <= w);
        } else if w < a {
            assert(w + 1 <= a);
        }
    }
    assert(mid == mid2);
    assert(b == x) by {
        if b < x {
            assert(b + 1 <= x);
        } else if x < b {
            assert(x + 1 <= b);
        }
    }
    assert(low == low2);
    assert(c == y) by {
        if c < y {
            assert(c + 1 <= y);
        } else if y < c {
            assert(y + 1 <= c);
        }
    }
}

/// The connections of one endpoint, each under its identity, and the
/// initial send sequence number that the next new connection will get.
pub struct ConnectionTable {
    entries: HashMap<u128, TableEntry>,
    iss: u32,
}

impl ConnectionTable {
    /// Every connection is filed under the key of its own identity.
    pub closed spec fn wf(&self) -> bool {
        forall|k: u128| #[trigger]
            self.entries@.contains_key(k) ==> self.entries@[k].id().table_key() == k
    }

    /// The connections by identity.
    #[verifier::opaque]
    pub closed spec fn view(&self) -> Map<ConnectionID, TableEntry> {
        Map::new(
            |id: ConnectionID| self.entries@.contains_key(id.table_key()),
            |id: ConnectionID| self.entries@[id.table_key()],
        )
    }

    /// The initial send sequence number that the next new connection gets.
    pub closed spec fn next_iss(&self) -> u32 {
        self.iss
    }

    /// An empty table whose first connection will start at `iss`.
    pub fn new(iss: u32) -> (table: Self)
        ensures
            table.wf(),
            table@ == Map::<ConnectionID, TableEntry>::empty(),
            table.next_iss() == iss,
    {
        let table = ConnectionTable { entries: HashMap::new(), iss };
        reveal(ConnectionTable::view);
        assert(table@ =~= Map::<ConnectionID, TableEntry>::empty());
        table
    }

    /// Each connection is held under its own identity.
    pub proof fn lemma_held_by_identity(&self, id: ConnectionID)
        requires
            self.wf(),
            self@.contains_key(id),
        ensures
            self@[id].id() == id,
    {
        reveal(ConnectionTable::view);
        self.entries@[id.table_key()].id().lemma_table_key_injective(id);
    }

    /// The identities are as many as the keys they are filed under.
    proof fn lemma_view_len(self)
        requires
            self.wf(),
        ensures
            self@.dom().finite(),
            self@.len() == self.entries@.len(),
    {
        reveal(ConnectionTable::view);
        let keys = self.entries@.dom();
        let owner = |k: u128| self.entries@[k].id();
        assert forall|id: ConnectionID| keys.map(owner).contains(id) == self@.dom().contains(
            id,
        ) by {
            if self@.dom().contains(id) {
                let k = id.table_key();
                assert(keys.contains(k));
                self.entries@[k].id().lemma_table_key_injective(id);
                assert(owner(k) == id);
            }
        }
        assert(keys.map(owner) =~= self@.dom());
        lemma_map_size(keys, self@.dom(), owner);
    }

    /// The number of connections.
    pub fn len(&self) -> (n: usize)
        requires
            self.wf(),
        ensures
            self@.dom().finite(),
            n == self@.len(),
    {
        proof {
            self.lemma_view_len();
        }
        self.entries.len()
    }

    /// The connection with the identity `id`, if the table holds it.
    pub fn get(&self, id: &ConnectionID) -> (entry: Option<&TableEntry>)
        ensures
            entry == (if self@.contains_key(*id) {
                Some(&self@[*id])
            } else {
                None
            }),
    {
        proof {
            reveal(ConnectionTable::view);
        }
        let key = id.key();
        self.entries.get(&key)
    }

    /// Takes the connection with the identity `id` out of the table.
    fn take(&mut self, id: &ConnectionID) -> (entry: Option<TableEntry>)
        requires
            old(self).wf(),
        ensures
            final(self).wf(),
            final(self).next_iss() == old(self).next_iss(),
            final(self)@ == old(self)@.remove(*id),
            entry == (if old(self)@.contains_key(*id) {
                Some(old(self)@[*id])
            } else {
                None
            }),
            entry matches Some(e) ==> e.id() == *id,
    {
        let key = id.key();
        let entry = self.entries.remove(&key);
        proof {
            reveal(ConnectionTable::view);
            if old(self).entries@.contains_key(key) {
                old(self).entries@[key].id().lemma_table_key_injective(*id);
            }
            assert forall|other: ConnectionID| other.table_key() == key implies other == *id by {
                other.lemma_table_key_injective(*id);
            }
            assert(self@ =~= old(self)@.remove(*id));
        }
        entry
    }

    /// Files `entry` under the identity `id` of its connection, in place of
    /// what was there.
    fn put(&mut self, id: &ConnectionID, entry: TableEntry)
        requires
            old(self).wf(),
            entry.id() == *id,
        ensures
            final(self).wf(),
            final(self).next_iss() == old(self).next_iss(),
            final(self)@ == old(self)@.insert(*id, entry),
    {
        let key = id.key();
        self.entries.insert(key, entry);
        proof {
            reveal(ConnectionTable::view);
            assert forall|other: ConnectionID| other.table_key() == key implies other == *id by {
                other.lemma_table_key_injective(*id);
            }
            assert(self@ =~= old(self)@.insert(*id, entry));
        }
    }

    /// Uses up one initial send sequence number.
    fn advance_iss(&mut self)
        requires
            old(self).wf(),
        ensures
            final(self).wf(),
            final(self).next_iss() == seq_add(old(self).next_iss(), 1),
            final(self)@ == old(self)@,
    {
        proof {
            reveal(ConnectionTable::view);
            lemma_seq_add_wraps(self.iss, 1);
        }
        self.iss = self.iss.wrapping_add(1);
    }

    /// The initial send sequence number that the next new connection gets.
    pub fn iss(&self) -> (iss: u32)
        ensures
            iss == self.next_iss(),
    {
        self.iss
    }

    /// Takes the step of `deliver_spec` for a segment with the headers
    /// `ip_header` and `tcp_header` that belongs to the connection `id`.
    pub fn deliver(
        &mut self,
        id: ConnectionID,
        ip_header: IpHeaderView,
        tcp_header: TcpHeaderView,
    ) -> (r: Result<Option<Vec<u8>>, DispatchError>)
        requires
            old(self).wf(),
        ensures
            final(self).wf(),
            ({
                let step = deliver_spec(old(self)@, old(self).next_iss(), id, tcp_header);
                &&& final(self)@ == step.connections
                &&& final(self).next_iss() == step.next_iss
                &&& match r {
                    Ok(Some(reply)) => step.result == Ok::<Option<Seq<u8>>, DispatchError>(
                        Some(reply@),
                    ),
                    Ok(None) => step.result == Ok::<Option<Seq<u8>>, DispatchError>(None),
                    Err(e) => step.result == Err::<Option<Seq<u8>>, DispatchError>(e),
                }
            }),
    {
        match self.take(&id) {
            None => {
                assert(self@ =~= old(self)@);
                let handshake = Connection::new(id, ip_header, tcp_header);
                match handshake.syn_ack(self.iss()) {
                    Ok((next, reply)) => {
                        self.put(&id, TableEntry::SynRecv(next));
                        self.advance_iss();
                        Ok(Some(reply))
                    },
                    Err(e) => Err(DispatchError::Validation(e)),
                }
            },
            Some(TableEntry::SynRecv(conn)) => match conn.check_ack(&tcp_header) {
                Ok(next) => {
                    self.put(&id, TableEntry::Established(next));
                    assert(self@ =~= old(self)@.insert(id, TableEntry::Established(next)));
                    Ok(None)
                },
                Err((conn, e)) => {
                    // the connection survives a segment that does not fit
                    self.put(&id, TableEntry::SynRecv(conn));
                    assert(self@ =~= old(self)@);
                    Err(DispatchError::Validation(e))
                },
            },
            Some(TableEntry::Established(conn)) => {
                self.put(&id, TableEntry::Established(conn));
                assert(self@ =~= old(self)@);
                Err(DispatchError::ProtocolState)
            },
        }
    }

    /// Takes the step of `dispatch_spec` for the datagram `frame`: returns
    /// the datagram to send back, if the step asks for one, or the reason
    /// why `frame` was dropped.
    pub fn dispatch(&mut self, frame: &[u8]) -> (r: Result<Option<Vec<u8>>, DispatchError>)
        requires
            old(self).wf(),
        ensures
            final(self).wf(),
            ({
                let step = dispatch_spec(old(self)@, old(self).next_iss(), frame@);
                &&& final(self)@ == step.connections
                &&& final(self).next_iss() == step.next_iss
                &&& match r {
                    Ok(Some(reply)) => step.result == Ok::<Option<Seq<u8>>, DispatchError>(
                        Some(reply@),
                    ),
                    Ok(None) => step.result == Ok::<Option<Seq<u8>>, DispatchError>(None),
                    Err(e) => step.result == Err::<Option<Seq<u8>>, DispatchError>(e),
                }
            }),
    {
        match parse_connection_id(frame) {
            Ok((id, ip_header, tcp_header)) => self.deliver(id, ip_header, tcp_header),
            Err(e) => Err(DispatchError::Parse(e)),
        }
    }
}

} // verus!
