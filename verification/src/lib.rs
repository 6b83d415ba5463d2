//! Server side of the TCP three-way handshake over raw IPv4 datagrams:
//! sequence-space arithmetic, connection identities, the per-connection
//! state machine and the table that routes each datagram to its connection.

pub mod table;
pub mod tcp;
