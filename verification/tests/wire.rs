use mini_tcp::tcp::error::ParseError;
use mini_tcp::tcp::handshake::syn_ack_segment;
use mini_tcp::tcp::wire::{IpHeaderView, TcpHeaderView};
use mini_tcp::tcp::{parse_connection_id, ConnectionID};

const FIN: u8 = 0x01;
const SYN: u8 = 0x02;
const RST: u8 = 0x04;
const ACK: u8 = 0x10;

/// A datagram of 40 bytes with unset checksums.
fn datagram(id: &ConnectionID, seq: u32, ack: u32, flags: u8, window: u16) -> Vec<u8> {
    let mut d = vec![0x45, 0, 0, 40, 0, 0, 0x40, 0, 64, 6, 0, 0];
    d.extend_from_slice(&id.src_addr.to_be_bytes());
    d.extend_from_slice(&id.dst_addr.to_be_bytes());
    d.extend_from_slice(&id.src_port.to_be_bytes());
    d.extend_from_slice(&id.dst_port.to_be_bytes());
    d.extend_from_slice(&seq.to_be_bytes());
    d.extend_from_slice(&ack.to_be_bytes());
    d.push(0x50);
    d.push(flags);
    d.extend_from_slice(&window.to_be_bytes());
    d.extend_from_slice(&[0, 0, 0, 0]);
    d
}

fn peer() -> ConnectionID {
    ConnectionID {
        src_addr: u32::from_be_bytes([1, 2, 3, 4]),
        src_port: 1111,
        dst_addr: u32::from_be_bytes([5, 6, 7, 8]),
        dst_port: 80,
    }
}

/// The Internet checksum of `bytes`.
fn checksum(bytes: &[u8]) -> u16 {
    let mut sum: u32 = 0;
    let mut i = 0;
    while i < bytes.len() {
        let hi = bytes[i] as u32;
        let lo = if i + 1 < bytes.len() { bytes[i + 1] as u32 } else { 0 };
        sum += (hi << 8) | lo;
        i += 2;
    }
    while sum >> 16 != 0 {
        sum = (sum & 0xffff) + (sum >> 16);
    }
    !(sum as u16)
}

#[test]
fn parses_identity_and_headers() {
    let d = datagram(&peer(), 100, 7, SYN, 500);
    let (id, ip, tcp) = parse_connection_id(&d).unwrap();
    assert_eq!(id, peer());
    assert_eq!(
        ip,
        IpHeaderView { ihl: 5, protocol: 6, source: 0x0102_0304, destination: 0x0506_0708 }
    );
    assert_eq!(
        tcp,
        TcpHeaderView {
            source_port: 1111,
            destination_port: 80,
            sequence_number: 100,
            acknowledgment_number: 7,
            window_size: 500,
            syn: true,
            ack: false,
            fin: false,
            checksum: 0,
        }
    );
}

#[test]
fn parses_each_control_bit_it_reads() {
    let (_, _, tcp) = parse_connection_id(&datagram(&peer(), 1, 2, ACK | FIN, 3)).unwrap();
    assert!((tcp.ack, tcp.fin, tcp.syn) == (true, true, false));
    let (_, _, tcp) = parse_connection_id(&datagram(&peer(), 1, 2, RST, 3)).unwrap();
    assert!((tcp.ack, tcp.fin, tcp.syn) == (false, false, false));
    let (_, _, tcp) = parse_connection_id(&datagram(&peer(), 1, 2, 0xff, 3)).unwrap();
    assert!((tcp.ack, tcp.fin, tcp.syn) == (true, true, true));
}

#[test]
fn parses_large_field_values() {
    let id = ConnectionID {
        src_addr: 0xfffe_fdfc,
        src_port: 0xfbfa,
        dst_addr: 0x8000_0001,
        dst_port: 0xff00,
    };
    let mut d = datagram(&id, 0xdead_beef, 0xffff_ffff, ACK, 0xffff);
    d[36] = 0x12;
    d[37] = 0x34;
    let (got, _, tcp) = parse_connection_id(&d).unwrap();
    assert_eq!(got, id);
    assert_eq!(tcp.sequence_number, 0xdead_beef);
    assert_eq!(tcp.acknowledgment_number, 0xffff_ffff);
    assert_eq!(tcp.window_size, 0xffff);
    assert_eq!(tcp.checksum, 0x1234);
}

#[test]
fn tcp_header_follows_the_ip_options() {
    let mut d = datagram(&peer(), 100, 0, SYN, 500);
    d[0] = 0x46;
    d[3] = 44;
    let tcp_part = d.split_off(20);
    d.extend_from_slice(&[1, 1, 1, 1]);
    d.extend_from_slice(&tcp_part);
    let (id, ip, tcp) = parse_connection_id(&d).unwrap();
    assert_eq!(id, peer());
    assert_eq!(ip.ihl, 6);
    assert_eq!(tcp.sequence_number, 100);
    assert!(tcp.syn);
}

#[test]
fn trailing_bytes_are_ignored() {
    let mut d = datagram(&peer(), 100, 0, SYN, 500);
    d.resize(1500, 0);
    let (id, _, tcp) = parse_connection_id(&d).unwrap();
    assert_eq!(id, peer());
    assert_eq!(tcp.window_size, 500);
}

#[test]
fn rejects_malformed_ip_header() {
    let good = datagram(&peer(), 100, 0, SYN, 500);
    assert_eq!(parse_connection_id(&[]), Err(ParseError::Ipv4Header));
    assert_eq!(parse_connection_id(&good[..19]), Err(ParseError::Ipv4Header));
    let mut version = good.clone();
    version[0] = 0x65;
    assert_eq!(parse_connection_id(&version), Err(ParseError::Ipv4Header));
    let mut short_ihl = good.clone();
    short_ihl[0] = 0x44;
    assert_eq!(parse_connection_id(&short_ihl), Err(ParseError::Ipv4Header));
    let mut long_ihl = good.clone();
    long_ihl[0] = 0x4f;
    assert_eq!(parse_connection_id(&long_ihl), Err(ParseError::Ipv4Header));
    let mut total = good.clone();
    total[2] = 0;
    total[3] = 19;
    assert_eq!(parse_connection_id(&total), Err(ParseError::Ipv4Header));
}

#[test]
fn rejects_other_protocols() {
    let mut udp = datagram(&peer(), 100, 0, SYN, 500);
    udp[9] = 17;
    assert_eq!(parse_connection_id(&udp), Err(ParseError::NotTcp));
    // the protocol is looked at before the rest of the datagram
    assert_eq!(parse_connection_id(&udp[..20]), Err(ParseError::NotTcp));
}

#[test]
fn rejects_malformed_tcp_header() {
    let good = datagram(&peer(), 100, 0, SYN, 500);
    assert_eq!(parse_connection_id(&good[..20]), Err(ParseError::TcpHeader));
    assert_eq!(parse_connection_id(&good[..39]), Err(ParseError::TcpHeader));
    let mut offset = good.clone();
    offset[32] = 0x40;
    assert_eq!(parse_connection_id(&offset), Err(ParseError::TcpHeader));
    let mut options = good.clone();
    options[32] = 0x60;
    assert_eq!(parse_connection_id(&options), Err(ParseError::TcpHeader));
    options.extend_from_slice(&[0, 0, 0, 0]);
    assert!(parse_connection_id(&options).is_ok());
}

#[test]
fn parse_error_texts() {
    assert_eq!(ParseError::NotTcp.message(), "not tcp protocol, skip");
    assert_eq!(ParseError::Ipv4Header.message(), "not a valid ipv4 header, skip");
    assert_eq!(ParseError::TcpHeader.message(), "not a valid tcp header, skip");
}

#[test]
fn syn_ack_bytes() {
    let reply = syn_ack_segment(&peer(), 0, 101, 64240);
    let expected: [u8; 40] = [
        0x45, 0x00, 0x00, 0x28, 0x00, 0x00, 0x40, 0x00, 0x40, 0x06, 0x2a, 0xbd, 0x05, 0x06, 0x07,
        0x08, 0x01, 0x02, 0x03, 0x04, 0x00, 0x50, 0x04, 0x57, 0x00, 0x00, 0x00, 0x00, 0x00, 0x00,
        0x00, 0x65, 0x50, 0x12, 0xfa, 0xf0, 0x9f, 0xc2, 0x00, 0x00,
    ];
    assert_eq!(reply, expected);
}

#[test]
fn syn_ack_checksums_hold() {
    let id = ConnectionID {
        src_addr: 0xc0a8_0001,
        src_port: 54321,
        dst_addr: 0xc0a8_00fe,
        dst_port: 443,
    };
    let reply = syn_ack_segment(&id, 0xfedc_ba98, 0x0123_4567, 1024);
    assert_eq!(reply.len(), 40);
    // a header that holds its own checksum sums to zero
    assert_eq!(checksum(&reply[..20]), 0);
    let mut pseudo = Vec::new();
    pseudo.extend_from_slice(&reply[12..20]);
    pseudo.extend_from_slice(&[0, 6, 0, 20]);
    pseudo.extend_from_slice(&reply[20..]);
    assert_eq!(checksum(&pseudo), 0);
    assert_ne!(&reply[36..38], &[0, 0]);
}

#[test]
fn syn_ack_reads_back_as_the_reverse_direction() {
    let reply = syn_ack_segment(&peer(), 300, 101, 64240);
    let (id, ip, tcp) = parse_connection_id(&reply).unwrap();
    assert_eq!(
        id,
        ConnectionID {
            src_addr: peer().dst_addr,
            src_port: 80,
            dst_addr: peer().src_addr,
            dst_port: 1111,
        }
    );
    assert_eq!(ip.protocol, 6);
    assert_eq!(ip.ihl, 5);
    assert_eq!(reply[8], 64);
    assert_eq!(tcp.sequence_number, 300);
    assert_eq!(tcp.acknowledgment_number, 101);
    assert_eq!(tcp.window_size, 64240);
    assert!(tcp.syn && tcp.ack && !tcp.fin);
    assert_eq!(tcp.checksum, 0x9e96);
}
