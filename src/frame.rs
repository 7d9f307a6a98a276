//! Processing of one raw inbound frame: parse, classify, route to the
//! connection, and serialize the reply.
use vstd::prelude::*;
use vstd::slice::slice_subrange;
use crate::codec::{
    ipv4_of, ipv4_well_formed, parse_ipv4, parse_tcp, tcp_acceptable, tcp_of, Ipv4Header, ParseError,
    TcpHeader,
};
use crate::quad::Quad;
use crate::table::{with_listener, ConnectionTable};
use crate::tcp::{lemma_syn_ack_checksums, next_connection, reply_of, segment_wire};

verus! {

/// Fewest bytes a frame needs before its IPv4 header is looked at.
pub const MIN_FRAME_LEN: usize = 20;

/// IP protocol number of ICMP.
pub const PROTO_ICMP: u8 = 1;

/// The traffic classes that frame processing tells apart.
#[derive(Clone, Copy, Debug, PartialEq, Eq, Structural)]
pub enum Proto {
    Tcp,
    Icmp,
    Other,
}

/// Why a frame was dropped.
#[derive(Clone, Copy, Debug, PartialEq, Eq, Structural)]
pub enum FrameError {
    /// Fewer bytes than a header needs.
    TruncatedFrame,
    /// Header fields that contradict each other or the frame.
    MalformedHeader,
}

/// The class of the IP protocol number `p`.
pub open spec fn proto_of(p: u8) -> Proto {
    if p == 6 {
        Proto::Tcp
    } else if p == PROTO_ICMP {
        Proto::Icmp
    } else {
        Proto::Other
    }
}

/// Classifies an IP protocol number.
pub fn classify(protocol: u8) -> (r: Proto)
    ensures
        r == proto_of(protocol),
{
    match protocol {
        6 => Proto::Tcp,
        1 => Proto::Icmp,
        _ => Proto::Other,
    }
}

/// The quad of an inbound segment: its source as `src`, its destination as `dest`.
pub open spec fn quad_of(ip: Ipv4Header, tcp: TcpHeader) -> Quad {
    Quad {
        src_addr: ip.source,
        src_port: tcp.source_port,
        dest_addr: ip.destination,
        dest_port: tcp.destination_port,
    }
}

/// Derives the quad of an inbound segment.
pub fn quad_from_headers(ip: &Ipv4Header, tcp: &TcpHeader) -> (r: Quad)
    ensures
        r == quad_of(*ip, *tcp),
{
    Quad {
        src_addr: ip.source,
        src_port: tcp.source_port,
        dest_addr: ip.destination,
        dest_port: tcp.destination_port,
    }
}

/// The bytes of `raw` after its IPv4 header.
pub open spec fn after_ipv4(raw: Seq<u8>) -> Seq<u8> {
    raw.subrange((raw[0] % 16) * 4, raw.len() as int)
}

/// A frame that carries a TCP segment whose header parses.
pub open spec fn tcp_frame(raw: Seq<u8>) -> bool {
    ipv4_well_formed(raw) && raw[9] == 6 && tcp_acceptable(after_ipv4(raw))
}

fn frame_error(e: ParseError) -> (r: FrameError)
    ensures
        e == ParseError::TruncatedHeader ==> r == FrameError::TruncatedFrame,
        e == ParseError::MalformedHeader ==> r == FrameError::MalformedHeader,
{
    match e {
        ParseError::TruncatedHeader => FrameError::TruncatedFrame,
        ParseError::MalformedHeader => FrameError::MalformedHeader,
    }
}

/// Processes one raw inbound frame against `table`, with `iss` as the
/// initial send sequence number of a connection that accepts a SYN here.
/// Returns the bytes to send back, if any. A dropped frame leaves the table
/// as it was.
pub fn process_one_frame(table: &mut ConnectionTable, raw: &[u8], iss: u32) -> (r: Result<
    Option<Vec<u8>>,
    FrameError,
>)
    requires
        old(table).wf(),
    ensures
        final(table).wf(),
        raw@.len() < 20 ==> r == Err::<Option<Vec<u8>>, FrameError>(FrameError::TruncatedFrame)
            && final(table)@ == old(table)@,
        raw@.len() >= 20 && !ipv4_well_formed(raw@) ==> r == Err::<Option<Vec<u8>>, FrameError>(
            FrameError::MalformedHeader,
        ),
        ipv4_well_formed(raw@) && raw@[9] != 6 ==> r == Ok::<Option<Vec<u8>>, FrameError>(None),
        ipv4_well_formed(raw@) && raw@[9] == 6 && after_ipv4(raw@).len() < 20 ==> r == Err::<
            Option<Vec<u8>>,
            FrameError,
        >(FrameError::TruncatedFrame),
        ipv4_well_formed(raw@) && raw@[9] == 6 && after_ipv4(raw@).len() >= 20 && !tcp_acceptable(
            after_ipv4(raw@),
        ) ==> r == Err::<Option<Vec<u8>>, FrameError>(FrameError::MalformedHeader),
        !tcp_frame(raw@) ==> final(table)@ == old(table)@,
        tcp_frame(raw@) ==> {
            let ip = ipv4_of(raw@);
            let tcp = tcp_of(after_ipv4(raw@));
            let q = quad_of(ip, tcp);
            let c = with_listener(old(table)@, q)[q];
            &&& final(table)@ == old(table)@.insert(q, next_connection(c, tcp, iss))
            &&& match reply_of(c, ip, tcp, iss) {
                Some(s) => r matches Ok(Some(v)) && v@ == segment_wire(s),
                None => r == Ok::<Option<Vec<u8>>, FrameError>(None),
            }
        },
{
    if raw.len() < MIN_FRAME_LEN {
        return Err(FrameError::TruncatedFrame);
    }
    let ip = match parse_ipv4(raw) {
        Ok(h) => h,
        Err(e) => return Err(frame_error(e)),
    };
    match classify(ip.protocol) {
        Proto::Tcp => {},
        _ => return Ok(None),
    }
    let hl = ip.header_len();
    let rest = slice_subrange(raw, hl, raw.len());
    assert(rest@ == after_ipv4(raw@));
    let tcp = match parse_tcp(rest) {
        Ok(h) => h,
        Err(e) => return Err(frame_error(e)),
    };
    let data = slice_subrange(rest, tcp.header_len(), rest.len());
    let quad = quad_from_headers(&ip, &tcp);
    let mut conn = table.get_or_create(quad);
    let reply = conn.on_packet(&ip, &tcp, data, iss);
    table.insert(quad, conn);
    proof {
        assert(with_listener(old(table)@, quad).insert(quad, conn) =~= old(table)@.insert(
            quad,
            conn,
        ));
    }
    match reply {
        Some(seg) => {
            proof {
                lemma_syn_ack_checksums(ip, tcp, iss);
            }
            Ok(Some(seg.to_bytes()))
        },
        None => Ok(None),
    }
}

} // verus!
