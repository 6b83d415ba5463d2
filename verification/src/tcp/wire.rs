//! The header fields this endpoint reads and writes, their place in the
//! bytes of a datagram, and the calls into the `etherparse` codec that move
//! between the two.

use vstd::prelude::*;

verus! {

/// Length in bytes of an IPv4 header without options.
pub const IPV4_HEADER_LEN: u16 = 20;

/// Length in bytes of a TCP header without options.
pub const TCP_HEADER_LEN: u16 = 20;

/// The fields of an inbound IPv4 header that the endpoint reads.
#[derive(PartialEq, Eq, Structural, Debug, Clone, Copy)]
pub struct IpHeaderView {
    /// Header length in 32-bit words.
    pub ihl: u8,
    /// Number of the protocol carried in the payload.
    pub protocol: u8,
    /// Source address, first octet in the most significant byte.
    pub source: u32,
    /// Destination address, first octet in the most significant byte.
    pub destination: u32,
}

/// The fields of a TCP header that the endpoint reads and writes. Every
/// other control bit is ignored on input and clear on output, and an
/// outbound header carries no options.
#[derive(PartialEq, Eq, Structural, Debug, Clone, Copy)]
pub struct TcpHeaderView {
    pub source_port: u16,
    pub destination_port: u16,
    pub sequence_number: u32,
    pub acknowledgment_number: u32,
    pub window_size: u16,
    pub syn: bool,
    pub ack: bool,
    pub fin: bool,
    pub checksum: u16,
}

/// The 16-bit number whose big-endian encoding is `hi`, `lo`.
pub open spec fn be16(hi: u8, lo: u8) -> u16 {
    (hi * 0x100 + lo) as u16
}

/// The 32-bit number whose big-endian encoding is `b0`, `b1`, `b2`, `b3`.
pub open spec fn be32(b0: u8, b1: u8, b2: u8, b3: u8) -> u32 {
    (b0 * 0x100_0000 + b1 * 0x1_0000 + b2 * 0x100 + b3) as u32
}

/// Big-endian encoding of a 16-bit number.
pub open spec fn be16_bytes(x: u16) -> Seq<u8> {
    seq![(x / 0x100) as u8, (x % 0x100) as u8]
}

/// Big-endian encoding of a 32-bit number.
pub open spec fn be32_bytes(x: u32) -> Seq<u8> {
    seq![
        (x / 0x100_0000) as u8,
        ((x / 0x1_0000) % 0x100) as u8,
        ((x / 0x100) % 0x100) as u8,
        (x % 0x100) as u8,
    ]
}

/// Whether `data` starts with an IPv4 header that the codec accepts: the
/// fixed 20 bytes are there, the version is 4, the header length is at least
/// five words and lies within both `data` and the datagram's total length.
pub open spec fn ipv4_header_well_formed(data: Seq<u8>) -> bool {
    &&& data.len() >= 20
    &&& data[0] >> 4 == 4
    &&& data[0] & 0xf >= 5
    &&& data.len() >= 4 * (data[0] & 0xf)
    &&& be16(data[2], data[3]) >= 4 * (data[0] & 0xf)
}

/// The fields of the IPv4 header at the start of `data`.
pub open spec fn ipv4_header_view(data: Seq<u8>) -> IpHeaderView {
    IpHeaderView {
        ihl: data[0] & 0xf,
        protocol: data[9],
        source: be32(data[12], data[13], data[14], data[15]),
        destination: be32(data[16], data[17], data[18], data[19]),
    }
}

/// Whether `data` starts with a TCP header that the codec accepts: the fixed
/// 20 bytes are there and the data offset is at least five words and lies
/// within `data`.
pub open spec fn tcp_header_well_formed(data: Seq<u8>) -> bool {
    &&& data.len() >= 20
    &&& data[12] >> 4 >= 5
    &&& data.len() >= 4 * (data[12] >> 4)
}

/// The fields of the TCP header at the start of `data`.
pub open spec fn tcp_header_view(data: Seq<u8>) -> TcpHeaderView {
    TcpHeaderView {
        source_port: be16(data[0], data[1]),
        destination_port: be16(data[2], data[3]),
        sequence_number: be32(data[4], data[5], data[6], data[7]),
        acknowledgment_number: be32(data[8], data[9], data[10], data[11]),
        window_size: be16(data[14], data[15]),
        syn: data[13] & 0x02 != 0,
        ack: data[13] & 0x10 != 0,
        fin: data[13] & 0x01 != 0,
        checksum: be16(data[16], data[17]),
    }
}

/// The control-bit byte of an outbound header.
pub open spec fn tcp_flags_byte(h: TcpHeaderView) -> u8 {
    ((if h.fin { 0x01int } else { 0 }) + (if h.syn { 0x02int } else { 0 }) + (if h.ack { 0x10int } else { 0 })) as u8
}

/// The 20 bytes of an outbound TCP header: ports, sequence and
/// acknowledgment numbers, a data offset of five words, the control bits,
/// the window, the checksum as given and a zero urgent pointer.
pub open spec fn tcp_header_wire(h: TcpHeaderView) -> Seq<u8> {
    be16_bytes(h.source_port) + be16_bytes(h.destination_port) + be32_bytes(h.sequence_number)
        + be32_bytes(h.acknowledgment_number) + seq![0x50u8, tcp_flags_byte(h)] + be16_bytes(
        h.window_size,
    ) + be16_bytes(h.checksum) + seq![0u8, 0u8]
}

/// The 20 bytes of an outbound IPv4 header without options: version 4 and a
/// header length of five words, no service bits, the total length,
/// identification zero, the don't-fragment bit alone, then time to live,
/// protocol, `checksum` and the two addresses.
pub open spec fn ipv4_header_wire(
    payload_len: u16,
    time_to_live: u8,
    protocol: u8,
    source: u32,
    destination: u32,
    checksum: u16,
) -> Seq<u8> {
    seq![0x45u8, 0u8] + be16_bytes((payload_len + 20) as u16) + seq![0u8, 0u8, 0x40u8, 0u8]
        + seq![time_to_live, protocol] + be16_bytes(checksum) + be32_bytes(source) + be32_bytes(
        destination,
    )
}

/// Reading a 16-bit number back from its encoding gives the number.
pub proof fn lemma_be16_round_trip(x: u16)
    ensures
        be16_bytes(x).len() == 2,
        be16(be16_bytes(x)[0], be16_bytes(x)[1]) == x,
{
}

/// Reading a 32-bit number back from its encoding gives the number.
pub proof fn lemma_be32_round_trip(x: u32)
    ensures
        be32_bytes(x).len() == 4,
        be32(be32_bytes(x)[0], be32_bytes(x)[1], be32_bytes(x)[2], be32_bytes(x)[3]) == x,
{
}

/// The bytes of an outbound TCP header, with anything after them, read back
/// as the header they were made from.
pub proof fn lemma_tcp_header_round_trip(h: TcpHeaderView, rest: Seq<u8>)
    ensures
        tcp_header_wire(h).len() == 20,
        tcp_header_well_formed(tcp_header_wire(h) + rest),
        tcp_header_view(tcp_header_wire(h) + rest) == h,
{
    let w = tcp_header_wire(h);
    let data = w + rest;
    lemma_be16_round_trip(h.source_port);
    lemma_be16_round_trip(h.destination_port);
    lemma_be32_round_trip(h.sequence_number);
    lemma_be32_round_trip(h.acknowledgment_number);
    lemma_be16_round_trip(h.window_size);
    lemma_be16_round_trip(h.checksum);
    assert(w.len() == 20);
    assert forall|i: int| 0 <= i < 20 implies data[i] == w[i] by {}
    assert(w[12] == 0x50u8);
    assert(0x50u8 >> 4 == 5) by (bit_vector);
    let f = tcp_flags_byte(h);
    assert(w[13] == f);
    assert(f == 0x00 || f == 0x01 || f == 0x02 || f == 0x03 || f == 0x10 || f == 0x11 || f == 0x12
        || f == 0x13);
    assert((f == 0x00 || f == 0x01 || f == 0x02 || f == 0x03 || f == 0x10 || f == 0x11 || f == 0x12
        || f == 0x13) ==> ((f & 0x01 != 0) == (f == 0x01 || f == 0x03 || f == 0x11 || f == 0x13)
        && (f & 0x02 != 0) == (f == 0x02 || f == 0x03 || f == 0x12 || f == 0x13) && (f & 0x10 != 0)
        == (f >= 0x10))) by (bit_vector);
    assert(w[0] == be16_bytes(h.source_port)[0]);
    assert(w[1] == be16_bytes(h.source_port)[1]);
    assert(w[2] == be16_bytes(h.destination_port)[0]);
    assert(w[3] == be16_bytes(h.destination_port)[1]);
    assert(w[4] == be32_bytes(h.sequence_number)[0]);
    assert(w[5] == be32_bytes(h.sequence_number)[1]);
    assert(w[6] == be32_bytes(h.sequence_number)[2]);
    assert(w[7] == be32_bytes(h.sequence_number)[3]);
    assert(w[8] == be32_bytes(h.acknowledgment_number)[0]);
    assert(w[9] == be32_bytes(h.acknowledgment_number)[1]);
    assert(w[10] == be32_bytes(h.acknowledgment_number)[2]);
    assert(w[11] == be32_bytes(h.acknowledgment_number)[3]);
    assert(w[14] == be16_bytes(h.window_size)[0]);
    assert(w[15] == be16_bytes(h.window_size)[1]);
    assert(w[16] == be16_bytes(h.checksum)[0]);
    assert(w[17] == be16_bytes(h.checksum)[1]);
}

/// The bytes of an outbound IPv4 header, with a payload as long as they
/// announce after them, read back as a header of five words with the
/// protocol and the addresses they were made from.
pub proof fn lemma_ipv4_header_round_trip(
    payload_len: u16,
    time_to_live: u8,
    protocol: u8,
    source: u32,
    destination: u32,
    checksum: u16,
    payload: Seq<u8>,
)
    requires
        payload_len + 20 <= 0xffff,
    ensures
        ({
            let header = ipv4_header_wire(
                payload_len,
                time_to_live,
                protocol,
                source,
                destination,
                checksum,
            );
            &&& header.len() == 20
            &&& ipv4_header_well_formed(header + payload)
            &&& ipv4_header_view(header + payload) == (IpHeaderView {
                ihl: 5,
                protocol,
                source,
                destination,
            })
        }),
{
    let w = ipv4_header_wire(payload_len, time_to_live, protocol, source, destination, checksum);
    let data = w + payload;
    let total = (payload_len + 20) as u16;
    lemma_be16_round_trip(total);
    lemma_be16_round_trip(checksum);
    lemma_be32_round_trip(source);
    lemma_be32_round_trip(destination);
    assert(w.len() == 20);
    assert forall|i: int| 0 <= i < 20 implies data[i] == w[i] by {}
    assert(w[0] == 0x45u8);
    assert(0x45u8 >> 4 == 4 && 0x45u8 & 0xf == 5) by (bit_vector);
    assert(w[2] == be16_bytes(total)[0]);
    assert(w[3] == be16_bytes(total)[1]);
    assert(w[9] == protocol);
    assert(w[12] == be32_bytes(source)[0]);
    assert(w[13] == be32_bytes(source)[1]);
    assert(w[14] == be32_bytes(source)[2]);
    assert(w[15] == be32_bytes(source)[3]);
    assert(w[16] == be32_bytes(destination)[0]);
    assert(w[17] == be32_bytes(destination)[1]);
    assert(w[18] == be32_bytes(destination)[2]);
    assert(w[19] == be32_bytes(destination)[3]);
}

/// The checksum that `etherparse::TcpHeader::calc_checksum_ipv4_raw` gives
/// for `header` (whose own checksum field it does not read), sent with
/// `payload` from `source` to `destination`.
pub uninterp spec fn tcp_checksum_ipv4(
    header: TcpHeaderView,
    source: u32,
    destination: u32,
    payload: Seq<u8>,
) -> u16;

/// The header checksum that `etherparse::Ipv4Header::write` computes for a
/// header made by `etherparse::Ipv4Header::new` from these values.
pub uninterp spec fn ipv4_header_checksum(
    payload_len: u16,
    time_to_live: u8,
    protocol: u8,
    source: u32,
    destination: u32,
) -> u16;

/// `etherparse::ReadError`: why the codec did not accept its input. Nothing
/// is claimed of a value; the endpoint only tells it from success.
#[verifier::external_type_specification]
#[verifier::external_body]
pub struct ExReadError(etherparse::ReadError);

/// `etherparse::WriteError`: why the codec did not produce its output.
/// Nothing is claimed of a value; the endpoint only tells it from success.
#[verifier::external_type_specification]
#[verifier::external_body]
pub struct ExWriteError(etherparse::WriteError);

/// `etherparse::Ipv4HeaderSlice::from_slice`, with the fields read through
/// the slice's getters. It succeeds exactly on the inputs that pass its four
/// checks (length, version, header length, total length), and each getter
/// returns the bytes of its field.
#[verifier::external_body]
pub(crate) fn ipv4_header_from_slice(data: &[u8]) -> (r: Result<IpHeaderView, etherparse::ReadError>)
    ensures
        r is Ok <==> ipv4_header_well_formed(data@),
        r matches Ok(h) ==> h == ipv4_header_view(data@),
{
    let h = etherparse::Ipv4HeaderSlice::from_slice(data)?;
    Ok(IpHeaderView {
        ihl: h.ihl(),
        protocol: h.protocol(),
        source: u32::from_be_bytes(h.source()),
        destination: u32::from_be_bytes(h.destination()),
    })
}

/// `etherparse::TcpHeaderSlice::from_slice`, with the fields read through
/// the slice's getters. It succeeds exactly on the inputs that pass its
/// checks (length and data offset), and each getter returns the bytes of its
/// field.
#[verifier::external_body]
pub(crate) fn tcp_header_from_slice(data: &[u8]) -> (r: Result<TcpHeaderView, etherparse::ReadError>)
    ensures
        r is Ok <==> tcp_header_well_formed(data@),
        r matches Ok(h) ==> h == tcp_header_view(data@),
{
    let h = etherparse::TcpHeaderSlice::from_slice(data)?;
    Ok(TcpHeaderView {
        source_port: h.source_port(),
        destination_port: h.destination_port(),
        sequence_number: h.sequence_number(),
        acknowledgment_number: h.acknowledgment_number(),
        window_size: h.window_size(),
        syn: h.syn(),
        ack: h.ack(),
        fin: h.fin(),
        checksum: h.checksum(),
    })
}

/// `etherparse::TcpHeader::calc_checksum_ipv4_raw` on a header without
/// options. It fails only when the 20 bytes of the header and the payload
/// together exceed 65535 bytes.
#[verifier::external_body]
pub(crate) fn tcp_checksum(
    header: &TcpHeaderView,
    source: u32,
    destination: u32,
    payload: &[u8],
) -> (r: Result<u16, etherparse::WriteError>)
    ensures
        r is Ok <==> 20 + payload@.len() <= 0xffff,
        r matches Ok(sum) ==> sum == tcp_checksum_ipv4(*header, source, destination, payload@),
{
    let mut t = etherparse::TcpHeader::new(
        header.source_port,
        header.destination_port,
        header.sequence_number,
        header.window_size,
    );
    t.acknowledgment_number = header.acknowledgment_number;
    t.syn = header.syn;
    t.ack = header.ack;
    t.fin = header.fin;
    Ok(t.calc_checksum_ipv4_raw(source.to_be_bytes(), destination.to_be_bytes(), payload)?)
}

/// `etherparse::TcpHeader::write` into an empty vector, for a header
/// without options. Writing to a vector cannot fail, and the bytes are the
/// header's fields in wire order with the checksum as stored.
#[verifier::external_body]
pub(crate) fn tcp_header_bytes(header: &TcpHeaderView) -> (r: Result<Vec<u8>, etherparse::WriteError>)
    ensures
        r is Ok,
        r matches Ok(bytes) ==> bytes@ == tcp_header_wire(*header),
{
    let mut t = etherparse::TcpHeader::new(
        header.source_port,
        header.destination_port,
        header.sequence_number,
        header.window_size,
    );
    t.acknowledgment_number = header.acknowledgment_number;
    t.syn = header.syn;
    t.ack = header.ack;
    t.fin = header.fin;
    t.checksum = header.checksum;
    let mut bytes = Vec::new();
    t.write(&mut bytes)?;
    Ok(bytes)
}

/// `etherparse::Ipv4Header::write` into an empty vector, for the header
/// that `etherparse::Ipv4Header::new` makes from these values. It fails only
/// when header and payload together exceed 65535 bytes; otherwise the bytes
/// are the header's fields in wire order, with the checksum it computes.
#[verifier::external_body]
pub(crate) fn ipv4_header_bytes(
    payload_len: u16,
    time_to_live: u8,
    protocol: u8,
    source: u32,
    destination: u32,
) -> (r: Result<Vec<u8>, etherparse::WriteError>)
    ensures
        r is Ok <==> payload_len + 20 <= 0xffff,
        r matches Ok(bytes) ==> bytes@ == ipv4_header_wire(
            payload_len,
            time_to_live,
            protocol,
            source,
            destination,
            ipv4_header_checksum(payload_len, time_to_live, protocol, source, destination),
        ),
{
    let mut bytes = Vec::new();
    etherparse::Ipv4Header::new(
        payload_len,
        time_to_live,
        protocol,
        source.to_be_bytes(),
        destination.to_be_bytes(),
    ).write(&mut bytes)?;
    Ok(bytes)
}

} // verus!
