//! Parsing and writing of option-less IPv4 and TCP headers.
use vstd::prelude::*;
use crate::checksum::{checksum_valid, internet_checksum, lemma_checksum_fills_word, ones_complement_checksum};

verus! {

/// Why a header could not be parsed.
#[derive(Clone, Copy, Debug, PartialEq, Eq, Structural)]
pub enum ParseError {
    /// Fewer bytes than the fixed 20-byte header.
    TruncatedHeader,
    /// Header fields that contradict each other or the buffer.
    MalformedHeader,
}

/// Big-endian 16-bit value at `i`.
pub open spec fn be16(b: Seq<u8>, i: int) -> int {
    b[i] as int * 256 + b[i + 1] as int
}

/// Big-endian 32-bit value at `i`.
pub open spec fn be32(b: Seq<u8>, i: int) -> int {
    b[i] as int * 0x100_0000 + b[i + 1] as int * 0x1_0000 + b[i + 2] as int * 256 + b[i + 3] as int
}

/// The four big-endian bytes of `x`.
pub open spec fn bytes32(x: u32) -> Seq<u8> {
    seq![
        (x / 0x100_0000) as u8,
        ((x / 0x1_0000) % 256) as u8,
        ((x / 256) % 256) as u8,
        (x % 256) as u8,
    ]
}

/// The two big-endian bytes of `x`.
pub open spec fn bytes16(x: u16) -> Seq<u8> {
    seq![(x / 256) as u8, (x % 256) as u8]
}

// ---------------------------------------------------------------- IPv4

/// The fields of an IPv4 header. Options, if the parsed header had any, are
/// skipped; `ihl` still gives the header's length in 32-bit words.
#[derive(Clone, Copy, Debug, PartialEq, Eq, Structural)]
pub struct Ipv4Header {
    pub ihl: u8,
    pub dscp: u8,
    pub ecn: u8,
    pub total_len: u16,
    pub identification: u16,
    pub reserved_flag: bool,
    pub dont_fragment: bool,
    pub more_fragments: bool,
    pub fragment_offset: u16,
    pub time_to_live: u8,
    pub protocol: u8,
    pub header_checksum: u16,
    pub source: u32,
    pub destination: u32,
}

/// What etherparse accepts as an IPv4 header: 20 bytes at least, version 4,
/// an IHL of 5 or more, and all IHL * 4 bytes present.
pub open spec fn ipv4_acceptable(b: Seq<u8>) -> bool {
    &&& b.len() >= 20
    &&& b[0] / 16 == 4
    &&& b[0] % 16 >= 5
    &&& b.len() >= (b[0] % 16) * 4
}

/// An acceptable header whose total length covers the header itself.
pub open spec fn ipv4_well_formed(b: Seq<u8>) -> bool {
    ipv4_acceptable(b) && be16(b, 2) >= (b[0] % 16) * 4
}

/// The header whose fields are read from the bytes `b`.
pub open spec fn ipv4_of(b: Seq<u8>) -> Ipv4Header {
    Ipv4Header {
        ihl: b[0] % 16,
        dscp: b[1] / 4,
        ecn: b[1] % 4,
        total_len: be16(b, 2) as u16,
        identification: be16(b, 4) as u16,
        reserved_flag: b[6] >= 128,
        dont_fragment: (b[6] / 64) % 2 == 1,
        more_fragments: (b[6] / 32) % 2 == 1,
        fragment_offset: ((b[6] % 32) * 256 + b[7]) as u16,
        time_to_live: b[8],
        protocol: b[9],
        header_checksum: be16(b, 10) as u16,
        source: be32(b, 12) as u32,
        destination: be32(b, 16) as u32,
    }
}

/// Byte 6 of the header: the three flag bits and the top of the fragment offset.
pub open spec fn ipv4_flags_byte(h: Ipv4Header) -> int {
    (if h.reserved_flag { 128int } else { 0 }) + (if h.dont_fragment { 64int } else { 0 }) + (
    if h.more_fragments { 32int } else { 0 }) + h.fragment_offset / 256
}

/// The 20 header bytes of `h` with `csum` in the checksum field.
pub open spec fn ipv4_layout(h: Ipv4Header, csum: u16) -> Seq<u8> {
    seq![
        (64 + h.ihl) as u8,
        (h.dscp * 4 + h.ecn) as u8,
    ] + bytes16(h.total_len) + bytes16(h.identification) + seq![
        ipv4_flags_byte(h) as u8,
        (h.fragment_offset % 256) as u8,
        h.time_to_live,
        h.protocol,
    ] + bytes16(csum) + bytes32(h.source) + bytes32(h.destination)
}

/// The header as written: its checksum computed over the other fields.
pub open spec fn ipv4_wire(h: Ipv4Header) -> Seq<u8> {
    ipv4_layout(h, internet_checksum(ipv4_layout(h, 0)))
}

impl Ipv4Header {
    /// Field ranges: a 4-bit IHL of at least 5, a 6-bit DSCP, a 2-bit ECN,
    /// a 13-bit fragment offset, and a total length covering the header.
    pub open spec fn wf(&self) -> bool {
        &&& 5 <= self.ihl <= 15
        &&& self.dscp < 64
        &&& self.ecn < 4
        &&& self.fragment_offset < 8192
        &&& self.total_len >= self.ihl * 4
    }

    /// Length of the header in bytes.
    pub fn header_len(&self) -> (r: usize)
        requires
            self.wf(),
        ensures
            r == self.ihl * 4,
    {
        self.ihl as usize * 4
    }

    /// Length of the payload that follows the header.
    pub fn payload_len(&self) -> (r: u16)
        requires
            self.wf(),
        ensures
            r == self.total_len - self.ihl * 4,
    {
        self.total_len - self.ihl as u16 * 4
    }
}

/// Relies on etherparse's `Ipv4HeaderSlice::from_slice`: it accepts a slice
/// of at least 20 bytes whose high nibble (version) is 4, whose low nibble
/// (IHL) is at least 5, and which holds IHL * 4 bytes; the slice of the
/// accepted header is those IHL * 4 bytes.
#[verifier::external_body]
fn ipv4_header_slice_len(b: &[u8]) -> (r: Option<usize>)
    ensures
        r is Some <==> ipv4_acceptable(b@),
        r is Some ==> r->0 == (b@[0] % 16) * 4,
{
    match etherparse::Ipv4HeaderSlice::from_slice(b) {
        Ok(h) => Some(h.slice().len()),
        Err(_) => None,
    }
}

fn read_be16(b: &[u8], i: usize) -> (r: u16)
    requires
        i + 1 < b@.len(),
    ensures
        r == be16(b@, i as int),
{
    b[i] as u16 * 256 + b[i + 1] as u16
}

fn read_be32(b: &[u8], i: usize) -> (r: u32)
    requires
        i + 3 < b@.len(),
    ensures
        r == be32(b@, i as int),
{
    b[i] as u32 * 0x100_0000 + b[i + 1] as u32 * 0x1_0000 + b[i + 2] as u32 * 256 + b[i + 3] as u32
}

/// Parses the IPv4 header at the start of `b`.
pub fn parse_ipv4(b: &[u8]) -> (r: Result<Ipv4Header, ParseError>)
    ensures
        b@.len() < 20 ==> r == Err::<Ipv4Header, ParseError>(ParseError::TruncatedHeader),
        b@.len() >= 20 && !ipv4_well_formed(b@) ==> r == Err::<Ipv4Header, ParseError>(
            ParseError::MalformedHeader,
        ),
        ipv4_well_formed(b@) ==> r == Ok::<Ipv4Header, ParseError>(ipv4_of(b@)) && ipv4_of(b@).wf(),
{
    if b.len() < 20 {
        return Err(ParseError::TruncatedHeader);
    }
    let hlen = match ipv4_header_slice_len(b) {
        Some(n) => n,
        None => return Err(ParseError::MalformedHeader),
    };
    let total_len = read_be16(b, 2);
    if (total_len as usize) < hlen {
        return Err(ParseError::MalformedHeader);
    }
    let h = Ipv4Header {
        ihl: b[0] % 16,
        dscp: b[1] / 4,
        ecn: b[1] % 4,
        total_len,
        identification: read_be16(b, 4),
        reserved_flag: b[6] >= 128,
        dont_fragment: (b[6] / 64) % 2 == 1,
        more_fragments: (b[6] / 32) % 2 == 1,
        fragment_offset: (b[6] % 32) as u16 * 256 + b[7] as u16,
        time_to_live: b[8],
        protocol: b[9],
        header_checksum: read_be16(b, 10),
        source: read_be32(b, 12),
        destination: read_be32(b, 16),
    };
    Ok(h)
}

fn push_be16(out: &mut Vec<u8>, x: u16)
    ensures
        final(out)@ == old(out)@ + bytes16(x),
{
    out.push((x / 256) as u8);
    out.push((x % 256) as u8);
    assert(final(out)@ =~= old(out)@ + bytes16(x));
}

fn push_be32(out: &mut Vec<u8>, x: u32)
    ensures
        final(out)@ == old(out)@ + bytes32(x),
{
    out.push((x / 0x100_0000) as u8);
    out.push(((x / 0x1_0000) % 256) as u8);
    out.push(((x / 256) % 256) as u8);
    out.push((x % 256) as u8);
    assert(final(out)@ =~= old(out)@ + bytes32(x));
}

fn ipv4_layout_vec(h: &Ipv4Header, csum: u16) -> (r: Vec<u8>)
    requires
        h.wf(),
    ensures
        r@ == ipv4_layout(*h, csum),
{
    let mut v: Vec<u8> = Vec::new();
    v.push(64 + h.ihl);
    v.push(h.dscp * 4 + h.ecn);
    push_be16(&mut v, h.total_len);
    push_be16(&mut v, h.identification);
    let mut flags: u8 = (h.fragment_offset / 256) as u8;
    if h.reserved_flag {
        flags = flags + 128;
    }
    if h.dont_fragment {
        flags = flags + 64;
    }
    if h.more_fragments {
        flags = flags + 32;
    }
    v.push(flags);
    v.push((h.fragment_offset % 256) as u8);
    v.push(h.time_to_live);
    v.push(h.protocol);
    push_be16(&mut v, csum);
    push_be32(&mut v, h.source);
    push_be32(&mut v, h.destination);
    assert(v@ =~= ipv4_layout(*h, csum));
    v
}

/// Appends the 20 bytes of the option-less header `h` to `out`, with the
/// header checksum computed over its other fields; returns the count written.
pub fn write_ipv4(h: &Ipv4Header, out: &mut Vec<u8>) -> (r: usize)
    requires
        h.wf(),
        h.ihl == 5,
    ensures
        final(out)@ == old(out)@ + ipv4_wire(*h),
        r == 20,
        checksum_valid(ipv4_wire(*h)),
{
    let zeroed = ipv4_layout_vec(h, 0);
    let csum = ones_complement_checksum(zeroed.as_slice());
    let mut v = ipv4_layout_vec(h, csum);
    proof {
        lemma_ipv4_checksum_valid(*h);
    }
    out.append(&mut v);
    20
}

/// The written header sums, as 16-bit ones'-complement words, to all ones.
pub proof fn lemma_ipv4_checksum_valid(h: Ipv4Header)
    ensures
        checksum_valid(ipv4_wire(h)),
{
    let z = ipv4_layout(h, 0);
    let f = ipv4_wire(h);
    let c = internet_checksum(z);
    assert(c as int == (c / 256) as u8 as int * 256 + (c % 256) as u8 as int);
    lemma_checksum_fills_word(z, f, 5);
}

// ---------------------------------------------------------------- TCP

/// The fields of a TCP header. Options, if the parsed header had any, are
/// skipped; `data_offset` still gives the header's length in 32-bit words.
#[derive(Clone, Copy, Debug, PartialEq, Eq, Structural)]
pub struct TcpHeader {
    pub source_port: u16,
    pub destination_port: u16,
    pub sequence_number: u32,
    pub acknowledgment_number: u32,
    pub data_offset: u8,
    pub ns: bool,
    pub cwr: bool,
    pub ece: bool,
    pub urg: bool,
    pub ack: bool,
    pub psh: bool,
    pub rst: bool,
    pub syn: bool,
    pub fin: bool,
    pub window_size: u16,
    pub checksum: u16,
    pub urgent_pointer: u16,
}

/// What etherparse accepts as a TCP header: 20 bytes at least, a data
/// offset of 5 or more, and all data offset * 4 bytes present.
pub open spec fn tcp_acceptable(b: Seq<u8>) -> bool {
    &&& b.len() >= 20
    &&& b[12] / 16 >= 5
    &&& b.len() >= (b[12] / 16) * 4
}

/// The bit of weight `m` (a power of two) in the byte `x`.
pub open spec fn bit(x: u8, m: int) -> bool {
    (x as int / m) % 2 == 1
}

/// The header whose fields are read from the bytes `b`.
pub open spec fn tcp_of(b: Seq<u8>) -> TcpHeader {
    TcpHeader {
        source_port: be16(b, 0) as u16,
        destination_port: be16(b, 2) as u16,
        sequence_number: be32(b, 4) as u32,
        acknowledgment_number: be32(b, 8) as u32,
        data_offset: b[12] / 16,
        ns: bit(b[12], 1),
        cwr: bit(b[13], 128),
        ece: bit(b[13], 64),
        urg: bit(b[13], 32),
        ack: bit(b[13], 16),
        psh: bit(b[13], 8),
        rst: bit(b[13], 4),
        syn: bit(b[13], 2),
        fin: bit(b[13], 1),
        window_size: be16(b, 14) as u16,
        checksum: be16(b, 16) as u16,
        urgent_pointer: be16(b, 18) as u16,
    }
}

/// Byte 13 of the header: the eight flag bits.
pub open spec fn tcp_flags_byte(h: TcpHeader) -> int {
    (if h.cwr { 128int } else { 0 }) + (if h.ece { 64int } else { 0 }) + (if h.urg { 32int } else {
        0
    }) + (if h.ack { 16int } else { 0 }) + (if h.psh { 8int } else { 0 }) + (if h.rst { 4int } else {
        0
    }) + (if h.syn { 2int } else { 0 }) + (if h.fin { 1int } else { 0 })
}

/// The 20 header bytes of `h` with `csum` in the checksum field.
pub open spec fn tcp_layout(h: TcpHeader, csum: u16) -> Seq<u8> {
    bytes16(h.source_port) + bytes16(h.destination_port) + bytes32(h.sequence_number) + bytes32(
        h.acknowledgment_number,
    ) + seq![
        (h.data_offset * 16 + if h.ns { 1int } else { 0 }) as u8,
        tcp_flags_byte(h) as u8,
    ] + bytes16(h.window_size) + bytes16(csum) + bytes16(h.urgent_pointer)
}

/// The IPv4 pseudo header that the TCP checksum covers.
pub open spec fn tcp_pseudo_header(source: u32, destination: u32, tcp_len: u16) -> Seq<u8> {
    bytes32(source) + bytes32(destination) + seq![0u8, 6u8] + bytes16(tcp_len)
}

/// What the TCP checksum of a segment is computed over, checksum field zeroed.
pub open spec fn tcp_checksum_input(h: TcpHeader, source: u32, destination: u32, payload: Seq<u8>) -> Seq<u8> {
    tcp_pseudo_header(source, destination, (20 + payload.len()) as u16) + tcp_layout(h, 0) + payload
}

impl TcpHeader {
    /// The data offset is a 4-bit count of at least 5 words.
    pub open spec fn wf(&self) -> bool {
        5 <= self.data_offset <= 15
    }

    /// Length of the header in bytes.
    pub fn header_len(&self) -> (r: usize)
        requires
            self.wf(),
        ensures
            r == self.data_offset * 4,
    {
        self.data_offset as usize * 4
    }
}

/// Relies on etherparse's `TcpHeaderSlice::from_slice`: it accepts a slice
/// of at least 20 bytes whose data offset (high nibble of byte 12) is at
/// least 5 and which holds data offset * 4 bytes; the slice of the accepted
/// header is those bytes.
#[verifier::external_body]
fn tcp_header_slice_len(b: &[u8]) -> (r: Option<usize>)
    ensures
        r is Some <==> tcp_acceptable(b@),
        r is Some ==> r->0 == (b@[12] / 16) * 4,
{
    match etherparse::TcpHeaderSlice::from_slice(b) {
        Ok(h) => Some(h.slice().len()),
        Err(_) => None,
    }
}

fn read_bit(x: u8, m: u8) -> (r: bool)
    requires
        m > 0,
    ensures
        r == bit(x, m as int),
{
    (x / m) % 2 == 1
}

/// Parses the TCP header at the start of `b`.
pub fn parse_tcp(b: &[u8]) -> (r: Result<TcpHeader, ParseError>)
    ensures
        b@.len() < 20 ==> r == Err::<TcpHeader, ParseError>(ParseError::TruncatedHeader),
        b@.len() >= 20 && !tcp_acceptable(b@) ==> r == Err::<TcpHeader, ParseError>(
            ParseError::MalformedHeader,
        ),
        tcp_acceptable(b@) ==> r == Ok::<TcpHeader, ParseError>(tcp_of(b@)) && tcp_of(b@).wf(),
{
    if b.len() < 20 {
        return Err(ParseError::TruncatedHeader);
    }
    if tcp_header_slice_len(b).is_none() {
        return Err(ParseError::MalformedHeader);
    }
    let f = b[13];
    let h = TcpHeader {
        source_port: read_be16(b, 0),
        destination_port: read_be16(b, 2),
        sequence_number: read_be32(b, 4),
        acknowledgment_number: read_be32(b, 8),
        data_offset: b[12] / 16,
        ns: read_bit(b[12], 1),
        cwr: read_bit(f, 128),
        ece: read_bit(f, 64),
        urg: read_bit(f, 32),
        ack: read_bit(f, 16),
        psh: read_bit(f, 8),
        rst: read_bit(f, 4),
        syn: read_bit(f, 2),
        fin: read_bit(f, 1),
        window_size: read_be16(b, 14),
        checksum: read_be16(b, 16),
        urgent_pointer: read_be16(b, 18),
    };
    Ok(h)
}

fn tcp_layout_vec(h: &TcpHeader, csum: u16) -> (r: Vec<u8>)
    requires
        h.wf(),
    ensures
        r@ == tcp_layout(*h, csum),
{
    let mut v: Vec<u8> = Vec::new();
    push_be16(&mut v, h.source_port);
    push_be16(&mut v, h.destination_port);
    push_be32(&mut v, h.sequence_number);
    push_be32(&mut v, h.acknowledgment_number);
    v.push(h.data_offset * 16 + if h.ns { 1 } else { 0 });
    let mut f: u8 = 0;
    if h.cwr {
        f = f + 128;
    }
    if h.ece {
        f = f + 64;
    }
    if h.urg {
        f = f + 32;
    }
    if h.ack {
        f = f + 16;
    }
    if h.psh {
        f = f + 8;
    }
    if h.rst {
        f = f + 4;
    }
    if h.syn {
        f = f + 2;
    }
    if h.fin {
        f = f + 1;
    }
    v.push(f);
    push_be16(&mut v, h.window_size);
    push_be16(&mut v, csum);
    push_be16(&mut v, h.urgent_pointer);
    assert(v@ =~= tcp_layout(*h, csum));
    v
}

/// Appends the 20 bytes of the option-less header `h` to `out`, checksum
/// field as `h` holds it; returns the count written.
pub fn write_tcp(h: &TcpHeader, out: &mut Vec<u8>) -> (r: usize)
    requires
        h.wf(),
        h.data_offset == 5,
    ensures
        final(out)@ == old(out)@ + tcp_layout(*h, h.checksum),
        r == 20,
{
    let mut v = tcp_layout_vec(h, h.checksum);
    out.append(&mut v);
    20
}

/// The checksum of the option-less TCP header `h` carrying `payload` from
/// `source` to `destination`, over the IPv4 pseudo header, the header with a
/// zero checksum field, and the payload.
pub fn tcp_checksum(h: &TcpHeader, source: u32, destination: u32, payload: &[u8]) -> (r: u16)
    requires
        h.wf(),
        h.data_offset == 5,
        20 + payload@.len() <= 0xffff,
    ensures
        r == internet_checksum(tcp_checksum_input(*h, source, destination, payload@)),
{
    let mut v: Vec<u8> = Vec::new();
    push_be32(&mut v, source);
    push_be32(&mut v, destination);
    v.push(0);
    v.push(6);
    push_be16(&mut v, (20 + payload.len()) as u16);
    let mut t = tcp_layout_vec(h, 0);
    v.append(&mut t);
    v.extend_from_slice(payload);
    assert(v@ =~= tcp_checksum_input(*h, source, destination, payload@));
    ones_complement_checksum(v.as_slice())
}

/// A segment whose checksum field holds `tcp_checksum` sums to all ones.
pub proof fn lemma_tcp_checksum_valid(h: TcpHeader, source: u32, destination: u32, payload: Seq<u8>)
    requires
        20 + payload.len() <= 0xffff,
    ensures
        checksum_valid(
            tcp_pseudo_header(source, destination, (20 + payload.len()) as u16) + tcp_layout(
                h,
                internet_checksum(tcp_checksum_input(h, source, destination, payload)),
            ) + payload,
        ),
{
    let c = internet_checksum(tcp_checksum_input(h, source, destination, payload));
    let p = tcp_pseudo_header(source, destination, (20 + payload.len()) as u16);
    let z = tcp_checksum_input(h, source, destination, payload);
    let f = p + tcp_layout(h, c) + payload;
    assert(c as int == (c / 256) as u8 as int * 256 + (c % 256) as u8 as int);
    assert forall|i: int| 0 <= i < z.len() && i != 28 && i != 29 implies z[i] == f[i] by {
        if i < 12 {
            assert(z[i] == p[i] && f[i] == p[i]);
        } else if i < 32 {
            assert(z[i] == tcp_layout(h, 0)[i - 12] && f[i] == tcp_layout(h, c)[i - 12]);
        } else {
            assert(z[i] == payload[i - 32] && f[i] == payload[i - 32]);
        }
    }
    assert(z[28] == tcp_layout(h, 0)[16] && z[29] == tcp_layout(h, 0)[17]);
    assert(f[28] == tcp_layout(h, c)[16] && f[29] == tcp_layout(h, c)[17]);
    lemma_checksum_fills_word(z, f, 14);
}

proof fn lemma_bytes16_be16(b: Seq<u8>, i: int)
    requires
        0 <= i && i + 1 < b.len(),
    ensures
        bytes16(be16(b, i) as u16) == b.subrange(i, i + 2),
{
    let x = be16(b, i);
    assert(x / 256 == b[i] as int && x % 256 == b[i + 1] as int) by (nonlinear_arith)
        requires
            x == b[i] as int * 256 + b[i + 1] as int,
            0 <= b[i] < 256,
            0 <= b[i + 1] < 256,
    ;
    assert(bytes16(x as u16) =~= b.subrange(i, i + 2));
}

proof fn lemma_bytes32_be32(b: Seq<u8>, i: int)
    requires
        0 <= i && i + 3 < b.len(),
    ensures
        bytes32(be32(b, i) as u32) == b.subrange(i, i + 4),
{
    let x = be32(b, i);
    let (b0, b1, b2, b3) = (b[i] as int, b[i + 1] as int, b[i + 2] as int, b[i + 3] as int);
    assert(x / 0x100_0000 == b0 && (x / 0x1_0000) % 256 == b1 && (x / 256) % 256 == b2 && x % 256
        == b3) by (nonlinear_arith)
        requires
            x == b0 * 0x100_0000 + b1 * 0x1_0000 + b2 * 256 + b3,
            0 <= b0 < 256,
            0 <= b1 < 256,
            0 <= b2 < 256,
            0 <= b3 < 256,
    ;
    assert(bytes32(x as u32) =~= b.subrange(i, i + 4));
}

/// Parsing an option-less IPv4 header and writing it back gives the same
/// bytes but for the checksum field, which the writer recomputes so that
/// the written header sums, as 16-bit ones'-complement words, to all ones.
pub proof fn lemma_ipv4_round_trip(b: Seq<u8>)
    requires
        ipv4_well_formed(b),
        b[0] % 16 == 5,
    ensures
        ipv4_of(b).wf(),
        ipv4_wire(ipv4_of(b)).len() == 20,
        forall|i: int|
            0 <= i < 20 && i != 10 && i != 11 ==> #[trigger] ipv4_wire(ipv4_of(b))[i] == b[i],
        checksum_valid(ipv4_wire(ipv4_of(b))),
{
    let h = ipv4_of(b);
    lemma_ipv4_round_trip_fields(b, h);
}

proof fn lemma_ipv4_round_trip_fields(b: Seq<u8>, h: Ipv4Header)
    requires
        ipv4_well_formed(b),
        b[0] % 16 == 5,
        h == ipv4_of(b),
    ensures
        h.wf(),
        ipv4_wire(h).len() == 20,
        forall|i: int| 0 <= i < 20 && i != 10 && i != 11 ==> #[trigger] ipv4_wire(h)[i] == b[i],
        checksum_valid(ipv4_wire(h)),
{
    let w = ipv4_wire(h);
    let b0 = b[0];
    let b1 = b[1];
    let b6 = b[6];
    assert(64 + b0 % 16 == b0 && (b1 / 4) * 4 + b1 % 4 == b1);
    assert(ipv4_flags_byte(h) == b6) by {
        assert((if b6 >= 128 { 128int } else { 0 }) + (if (b6 / 64) % 2 == 1 { 64int } else { 0 })
            + (if (b6 / 32) % 2 == 1 { 32int } else { 0 }) + b6 % 32 == b6 as int) by (
        bit_vector);
        assert(((b6 % 32) as int * 256 + b[7] as int) / 256 == b6 % 32) by (nonlinear_arith)
            requires
                0 <= b[7] < 256,
        ;
    }
    assert(((b6 % 32) as int * 256 + b[7] as int) % 256 == b[7]) by (nonlinear_arith)
        requires
            0 <= b[7] < 256,
    ;
    lemma_bytes16_be16(b, 2);
    lemma_bytes16_be16(b, 4);
    lemma_bytes32_be32(b, 12);
    lemma_bytes32_be32(b, 16);
    assert forall|i: int| 0 <= i < 20 && i != 10 && i != 11 implies #[trigger] w[i] == b[i] by {
        if 2 <= i < 4 {
            assert(b.subrange(2, 4)[i - 2] == b[i]);
        } else if 4 <= i < 6 {
            assert(b.subrange(4, 6)[i - 4] == b[i]);
        } else if 12 <= i < 16 {
            assert(b.subrange(12, 16)[i - 12] == b[i]);
        } else if 16 <= i < 20 {
            assert(b.subrange(16, 20)[i - 16] == b[i]);
        }
    }
    lemma_ipv4_checksum_valid(h);
}

} // verus!
