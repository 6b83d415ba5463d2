use mini_tcp::table::{ConnectionTable, DispatchError, TableEntry};
use mini_tcp::tcp::error::{ParseError, ValidationError};
use mini_tcp::tcp::state::{Established, SynRecv};
use mini_tcp::tcp::wire::{IpHeaderView, TcpHeaderView};
use mini_tcp::tcp::{ConnectionID, ReceiveSequenceSpace, SendSequenceSpace};

const SYN: u8 = 0x02;
const ACK: u8 = 0x10;

fn peer() -> ConnectionID {
    ConnectionID {
        src_addr: u32::from_be_bytes([1, 2, 3, 4]),
        src_port: 1111,
        dst_addr: u32::from_be_bytes([5, 6, 7, 8]),
        dst_port: 80,
    }
}

fn datagram(id: &ConnectionID, seq: u32, ack: u32, flags: u8, window: u16) -> Vec<u8> {
    let mut d = vec![0x45, 0, 0, 40, 0, 0, 0x40, 0, 64, 6, 0, 0];
    d.extend_from_slice(&id.src_addr.to_be_bytes());
    d.extend_from_slice(&id.dst_addr.to_be_bytes());
    d.extend_from_slice(&id.src_port.to_be_bytes());
    d.extend_from_slice(&id.dst_port.to_be_bytes());
    d.extend_from_slice(&seq.to_be_bytes());
    d.extend_from_slice(&ack.to_be_bytes());
    d.push(0x50);
    d.push(flags);
    d.extend_from_slice(&window.to_be_bytes());
    d.extend_from_slice(&[0, 0, 0, 0]);
    d
}

fn syn_recv(table: &ConnectionTable, id: &ConnectionID) -> SynRecv {
    match table.get(id) {
        Some(TableEntry::SynRecv(conn)) => {
            assert_eq!(conn.id, *id);
            conn.state
        }
        other => panic!("not in SynRecv: {:?}", other),
    }
}

fn established(table: &ConnectionTable, id: &ConnectionID) -> Established {
    match table.get(id) {
        Some(TableEntry::Established(conn)) => {
            assert_eq!(conn.id, *id);
            conn.state
        }
        other => panic!("not Established: {:?}", other),
    }
}

#[test]
fn new_table_is_empty() {
    let table = ConnectionTable::new(300);
    assert_eq!(table.len(), 0);
    assert_eq!(table.iss(), 300);
    assert!(table.get(&peer()).is_none());
}

#[test]
fn handshake_end_to_end() {
    let mut table = ConnectionTable::new(300);
    let reply = table.dispatch(&datagram(&peer(), 100, 0, SYN, 500)).unwrap().unwrap();

    let state = syn_recv(&table, &peer());
    assert_eq!(state.rcv.nxt, 101);
    assert_eq!(state.rcv.irs, 100);
    assert_eq!(state.rcv, ReceiveSequenceSpace { up: false, wnd: 500, nxt: 101, irs: 100 });
    assert_eq!(
        state.snd,
        SendSequenceSpace { up: false, wnd: 64240, una: 300, nxt: 301, wl1: 0, wl2: 0, iss: 300 }
    );
    assert_eq!(table.len(), 1);

    assert_eq!(reply.len(), 40);
    // from 5.6.7.8:80 to 1.2.3.4:1111
    assert_eq!(&reply[12..16], &[5, 6, 7, 8]);
    assert_eq!(&reply[16..20], &[1, 2, 3, 4]);
    assert_eq!(&reply[20..22], &80u16.to_be_bytes());
    assert_eq!(&reply[22..24], &1111u16.to_be_bytes());
    // SEQ = ISS, ACK = 101, SYN and ACK set and nothing else
    assert_eq!(&reply[24..28], &300u32.to_be_bytes());
    assert_eq!(&reply[28..32], &101u32.to_be_bytes());
    assert_eq!(reply[33], SYN | ACK);
    assert_eq!(&reply[34..36], &64240u16.to_be_bytes());
}

#[test]
fn full_handshake() {
    let mut table = ConnectionTable::new(300);
    table.dispatch(&datagram(&peer(), 100, 0, SYN, 500)).unwrap();
    let before = syn_recv(&table, &peer());

    let sent = table.dispatch(&datagram(&peer(), 101, 301, ACK, 500)).unwrap();
    assert_eq!(sent, None);
    let after = established(&table, &peer());
    assert_eq!(after.snd, before.snd);
    assert_eq!(after.rcv, before.rcv);
    assert_eq!(table.len(), 1);
}

#[test]
fn ack_without_connection_creates_none() {
    let mut table = ConnectionTable::new(300);
    let r = table.dispatch(&datagram(&peer(), 101, 301, ACK, 500));
    assert_eq!(r, Err(DispatchError::Validation(ValidationError::UnexpectedAck)));
    assert!(table.get(&peer()).is_none());
    assert_eq!(table.len(), 0);
    assert_eq!(table.iss(), 300);

    let r = table.dispatch(&datagram(&peer(), 101, 0, 0, 500));
    assert_eq!(r, Err(DispatchError::Validation(ValidationError::MissingSyn)));
    assert_eq!(table.len(), 0);
}

#[test]
fn established_takes_no_second_syn() {
    let mut table = ConnectionTable::new(300);
    table.dispatch(&datagram(&peer(), 100, 0, SYN, 500)).unwrap();
    table.dispatch(&datagram(&peer(), 101, 301, ACK, 500)).unwrap();
    let before = established(&table, &peer());

    let r = table.dispatch(&datagram(&peer(), 100, 0, SYN, 500));
    assert_eq!(r, Err(DispatchError::ProtocolState));
    assert_eq!(established(&table, &peer()), before);

    let r = table.dispatch(&datagram(&peer(), 101, 301, ACK, 500));
    assert_eq!(r, Err(DispatchError::ProtocolState));
    assert_eq!(established(&table, &peer()), before);
    assert_eq!(table.len(), 1);
    assert_eq!(table.iss(), 301);
}

#[test]
fn repeated_syn_leaves_the_records_alone() {
    let mut table = ConnectionTable::new(300);
    let syn = datagram(&peer(), 100, 0, SYN, 500);
    table.dispatch(&syn).unwrap();
    let before = syn_recv(&table, &peer());

    let r = table.dispatch(&syn);
    assert_eq!(r, Err(DispatchError::Validation(ValidationError::MissingAck)));
    assert_eq!(syn_recv(&table, &peer()), before);
    assert_eq!(table.iss(), 301);
    assert_eq!(table.len(), 1);
}

#[test]
fn connection_survives_a_segment_that_does_not_fit() {
    let mut table = ConnectionTable::new(300);
    table.dispatch(&datagram(&peer(), 100, 0, SYN, 500)).unwrap();
    let before = syn_recv(&table, &peer());

    let r = table.dispatch(&datagram(&peer(), 101, 999, ACK, 500));
    assert_eq!(r, Err(DispatchError::Validation(ValidationError::AckOutOfWindow)));
    assert_eq!(syn_recv(&table, &peer()), before);

    let r = table.dispatch(&datagram(&peer(), 9000, 301, ACK, 500));
    assert_eq!(r, Err(DispatchError::Validation(ValidationError::SegmentOutOfWindow)));
    assert_eq!(syn_recv(&table, &peer()), before);

    assert_eq!(table.dispatch(&datagram(&peer(), 101, 301, ACK, 500)), Ok(None));
    assert_eq!(established(&table, &peer()).snd, before.snd);
}

#[test]
fn datagram_that_does_not_parse_is_dropped() {
    let mut table = ConnectionTable::new(300);
    assert_eq!(table.dispatch(&[0u8; 10]), Err(DispatchError::Parse(ParseError::Ipv4Header)));
    let mut udp = datagram(&peer(), 100, 0, SYN, 500);
    udp[9] = 17;
    assert_eq!(table.dispatch(&udp), Err(DispatchError::Parse(ParseError::NotTcp)));
    let d = datagram(&peer(), 100, 0, SYN, 500);
    assert_eq!(table.dispatch(&d[..30]), Err(DispatchError::Parse(ParseError::TcpHeader)));
    assert_eq!(table.len(), 0);
    assert_eq!(table.iss(), 300);
}

#[test]
fn each_identity_has_its_own_connection() {
    let mut table = ConnectionTable::new(0xffff_ffff);
    let a = peer();
    let b = ConnectionID { src_port: 1112, ..peer() };
    let c = ConnectionID { src_addr: peer().dst_addr, dst_addr: peer().src_addr, ..peer() };
    let d = ConnectionID { src_port: 80, dst_port: 1111, ..peer() };

    table.dispatch(&datagram(&a, 10, 0, SYN, 1)).unwrap();
    table.dispatch(&datagram(&b, 20, 0, SYN, 2)).unwrap();
    table.dispatch(&datagram(&c, 30, 0, SYN, 3)).unwrap();
    table.dispatch(&datagram(&d, 40, 0, SYN, 4)).unwrap();
    assert_eq!(table.len(), 4);
    // each new connection uses up one initial send sequence number
    assert_eq!(syn_recv(&table, &a).snd.iss, 0xffff_ffff);
    assert_eq!(syn_recv(&table, &b).snd.iss, 0);
    assert_eq!(syn_recv(&table, &c).snd.iss, 1);
    assert_eq!(syn_recv(&table, &d).snd.iss, 2);
    assert_eq!(table.iss(), 3);
    assert_eq!(syn_recv(&table, &a).rcv.irs, 10);
    assert_eq!(syn_recv(&table, &d).rcv.irs, 40);

    assert_eq!(table.dispatch(&datagram(&b, 21, 1, ACK, 2)), Ok(None));
    assert_eq!(established(&table, &b).rcv.nxt, 21);
    assert_eq!(syn_recv(&table, &a).snd.nxt, 0);
    assert_eq!(table.len(), 4);
}

#[test]
fn deliver_takes_parsed_headers() {
    let mut table = ConnectionTable::new(7);
    let ip = IpHeaderView { ihl: 5, protocol: 6, source: peer().src_addr, destination: peer().dst_addr };
    let syn = TcpHeaderView {
        source_port: 1111,
        destination_port: 80,
        sequence_number: 100,
        acknowledgment_number: 0,
        window_size: 0,
        syn: true,
        ack: false,
        fin: false,
        checksum: 0,
    };
    let reply = table.deliver(peer(), ip, syn).unwrap();
    assert_eq!(reply.map(|r| r.len()), Some(40));
    // the peer's window is closed: only the empty segment at 101 fits
    let ack = TcpHeaderView { sequence_number: 102, acknowledgment_number: 8, syn: false, ack: true, ..syn };
    assert_eq!(
        table.deliver(peer(), ip, ack),
        Err(DispatchError::Validation(ValidationError::SegmentOutOfWindow))
    );
    let ack = TcpHeaderView { sequence_number: 101, ..ack };
    assert_eq!(table.deliver(peer(), ip, ack), Ok(None));
    assert_eq!(established(&table, &peer()).snd.una, 7);
}

#[test]
fn table_keys() {
    assert_eq!(peer().key(), 0x0102_0304_0457_0506_0708_0050);
    let all = ConnectionID {
        src_addr: 0xffff_ffff,
        src_port: 0xffff,
        dst_addr: 0xffff_ffff,
        dst_port: 0xffff,
    };
    assert_eq!(all.key(), 0xffff_ffff_ffff_ffff_ffff_ffff);
}

#[test]
fn dispatch_error_texts() {
    assert_eq!(DispatchError::ProtocolState.message(), "invalid state for transition");
    assert_eq!(DispatchError::Parse(ParseError::NotTcp).message(), "not tcp protocol, skip");
    assert_eq!(
        DispatchError::Validation(ValidationError::MissingAck).message(),
        "no ack received"
    );
}
