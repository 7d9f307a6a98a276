use tuntcp::codec::{parse_ipv4, parse_tcp, tcp_checksum, write_ipv4, write_tcp, ParseError};

fn ones_sum(bytes: &[u8]) -> u32 {
    let mut sum: u32 = 0;
    let mut i = 0;
    while i < bytes.len() {
        let lo = if i + 1 < bytes.len() { bytes[i + 1] as u32 } else { 0 };
        sum += ((bytes[i] as u32) << 8) | lo;
        i += 2;
    }
    while sum > 0xffff {
        sum = (sum & 0xffff) + (sum >> 16);
    }
    sum
}

// A header as captured on a link, checksum included.
const SAMPLE_IPV4: [u8; 20] = [
    0x45, 0x00, 0x00, 0x73, 0x00, 0x00, 0x40, 0x00, 0x40, 0x11, 0xb8, 0x61, 0xc0, 0xa8, 0x00, 0x01,
    0xc0, 0xa8, 0x00, 0xc7,
];

#[test]
fn parse_ipv4_fields() {
    let h = parse_ipv4(&SAMPLE_IPV4).unwrap();
    assert_eq!(h.ihl, 5);
    assert_eq!(h.header_len(), 20);
    assert_eq!(h.total_len, 0x73);
    assert_eq!(h.payload_len(), 0x73 - 20);
    assert!(h.dont_fragment);
    assert!(!h.more_fragments);
    assert!(!h.reserved_flag);
    assert_eq!(h.fragment_offset, 0);
    assert_eq!(h.time_to_live, 64);
    assert_eq!(h.protocol, 0x11);
    assert_eq!(h.header_checksum, 0xb861);
    assert_eq!(h.source, 0xc0a8_0001);
    assert_eq!(h.destination, 0xc0a8_00c7);
}

#[test]
fn ipv4_round_trip_reproduces_bytes() {
    let h = parse_ipv4(&SAMPLE_IPV4).unwrap();
    let mut out = vec![9u8];
    assert_eq!(write_ipv4(&h, &mut out), 20);
    assert_eq!(out[0], 9);
    assert_eq!(&out[1..], &SAMPLE_IPV4[..]);
}

#[test]
fn ipv4_round_trip_recomputes_checksum() {
    let mut bytes = SAMPLE_IPV4;
    bytes[10] = 0;
    bytes[11] = 0;
    bytes[6] = 0xa1;
    bytes[7] = 0x02;
    bytes[1] = 0xb9;
    let h = parse_ipv4(&bytes).unwrap();
    assert!(h.reserved_flag && h.more_fragments && !h.dont_fragment);
    assert_eq!(h.fragment_offset, 0x0102);
    assert_eq!(h.dscp, 0xb9 >> 2);
    assert_eq!(h.ecn, 1);
    let mut out = Vec::new();
    write_ipv4(&h, &mut out);
    for i in 0..20 {
        if i != 10 && i != 11 {
            assert_eq!(out[i], bytes[i]);
        }
    }
    assert_eq!(ones_sum(&out), 0xffff);
    assert_ne!(&out[10..12], &[0, 0]);
}

#[test]
fn parse_ipv4_errors() {
    assert_eq!(parse_ipv4(&SAMPLE_IPV4[..19]), Err(ParseError::TruncatedHeader));
    let mut b = SAMPLE_IPV4;
    b[0] = 0x44;
    assert_eq!(parse_ipv4(&b), Err(ParseError::MalformedHeader));
    b[0] = 0x46;
    assert_eq!(parse_ipv4(&b), Err(ParseError::MalformedHeader));
    b[0] = 0x55;
    assert_eq!(parse_ipv4(&b), Err(ParseError::MalformedHeader));
    b[0] = 0x45;
    b[2] = 0;
    b[3] = 10;
    assert_eq!(parse_ipv4(&b), Err(ParseError::MalformedHeader));
}

#[test]
fn parse_ipv4_with_options_gives_header_length() {
    let mut b = SAMPLE_IPV4.to_vec();
    b[0] = 0x46;
    b.extend_from_slice(&[1, 1, 1, 0]);
    let h = parse_ipv4(&b).unwrap();
    assert_eq!(h.ihl, 6);
    assert_eq!(h.header_len(), 24);
}

const SAMPLE_TCP: [u8; 20] = [
    0x13, 0x88, 0x00, 0x50, 0x00, 0x00, 0x03, 0xe8, 0x00, 0x00, 0x00, 0x07, 0x50, 0x3f, 0x10, 0x00,
    0xab, 0xcd, 0x00, 0x02,
];

#[test]
fn parse_tcp_fields() {
    let h = parse_tcp(&SAMPLE_TCP).unwrap();
    assert_eq!(h.source_port, 5000);
    assert_eq!(h.destination_port, 80);
    assert_eq!(h.sequence_number, 1000);
    assert_eq!(h.acknowledgment_number, 7);
    assert_eq!(h.data_offset, 5);
    assert_eq!(h.header_len(), 20);
    assert!(h.fin && h.syn && h.rst && h.psh && h.ack && h.urg);
    assert!(!h.ece && !h.cwr && !h.ns);
    assert_eq!(h.window_size, 4096);
    assert_eq!(h.checksum, 0xabcd);
    assert_eq!(h.urgent_pointer, 2);
}

#[test]
fn tcp_round_trip() {
    let h = parse_tcp(&SAMPLE_TCP).unwrap();
    let mut out = Vec::new();
    assert_eq!(write_tcp(&h, &mut out), 20);
    assert_eq!(&out[..], &SAMPLE_TCP[..]);
}

#[test]
fn parse_tcp_errors() {
    assert_eq!(parse_tcp(&SAMPLE_TCP[..19]), Err(ParseError::TruncatedHeader));
    let mut b = SAMPLE_TCP;
    b[12] = 0x40;
    assert_eq!(parse_tcp(&b), Err(ParseError::MalformedHeader));
    b[12] = 0x60;
    assert_eq!(parse_tcp(&b), Err(ParseError::MalformedHeader));
}

#[test]
fn tcp_checksum_validates_segment() {
    let mut h = parse_tcp(&SAMPLE_TCP).unwrap();
    let payload = [1u8, 2, 3];
    let src = 0x0a00_0002u32;
    let dst = 0x0a00_0001u32;
    h.checksum = tcp_checksum(&h, src, dst, &payload);
    let mut seg = Vec::new();
    seg.extend_from_slice(&src.to_be_bytes());
    seg.extend_from_slice(&dst.to_be_bytes());
    seg.extend_from_slice(&[0, 6, 0, 23]);
    write_tcp(&h, &mut seg);
    seg.extend_from_slice(&payload);
    assert_eq!(ones_sum(&seg), 0xffff);
}
