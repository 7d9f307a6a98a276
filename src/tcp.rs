//! The per-connection TCP state machine and its sequence-space trackers.
use vstd::prelude::*;
use crate::checksum::{checksum_valid, internet_checksum};
use crate::codec::{
    ipv4_wire, lemma_ipv4_checksum_valid, lemma_tcp_checksum_valid, tcp_checksum, tcp_checksum_input,
    tcp_layout, tcp_pseudo_header, write_ipv4, write_tcp, Ipv4Header, TcpHeader,
};

verus! {

/// Window advertised on a synthesized SYN-ACK.
pub const SYN_ACK_WINDOW: u16 = 10;

/// Time to live of synthesized datagrams.
pub const DEFAULT_TTL: u8 = 64;

/// IP protocol number of TCP.
pub const PROTO_TCP: u8 = 6;

/// The states of a connection that this endpoint distinguishes.
#[derive(Clone, Copy, Debug, PartialEq, Eq, Structural)]
pub enum State {
    Closed,
    Listen,
    SynReceived,
    Established,
}

/// This endpoint's view of the data it has sent.
#[derive(Clone, Copy, Debug, PartialEq, Eq, Structural)]
pub struct SendSequenceSpace {
    /// oldest unacknowledged sequence number
    pub una: u32,
    /// next sequence number to send
    pub nxt: u32,
    /// window the peer advertised
    pub wnd: u32,
    /// urgent pointer
    pub up: bool,
    /// segment sequence number of the last window update
    pub wl1: u32,
    /// segment acknowledgment number of the last window update
    pub wl2: u32,
    /// initial send sequence number
    pub iss: u32,
}

/// This endpoint's view of the data it receives.
#[derive(Clone, Copy, Debug, PartialEq, Eq, Structural)]
pub struct ReceiveSequenceSpace {
    /// next sequence number expected from the peer
    pub nxt: u32,
    /// receive window
    pub wnd: u32,
    /// urgent pointer
    pub up: bool,
    /// the peer's initial sequence number
    pub irs: u32,
}

/// One connection: its state and its two sequence spaces.
#[derive(Clone, Copy, Debug, PartialEq, Eq, Structural)]
pub struct Connection {
    pub state: State,
    pub send: SendSequenceSpace,
    pub recv: ReceiveSequenceSpace,
}

/// A synthesized outbound segment: its IPv4 and TCP headers, no payload.
#[derive(Clone, Copy, Debug, PartialEq, Eq, Structural)]
pub struct Segment {
    pub ip: Ipv4Header,
    pub tcp: TcpHeader,
}

/// The sequence number after `s`, modulo 2^32.
pub open spec fn seq_next(s: u32) -> u32 {
    ((s as int + 1) % 0x1_0000_0000) as u32
}

fn next_seq(s: u32) -> (r: u32)
    ensures
        r == seq_next(s),
{
    if s == u32::MAX {
        0
    } else {
        s + 1
    }
}

/// A send space with all counters zero.
pub open spec fn zero_send() -> SendSequenceSpace {
    SendSequenceSpace { una: 0, nxt: 0, wnd: 0, up: false, wl1: 0, wl2: 0, iss: 0 }
}

/// A receive space with all counters zero.
pub open spec fn zero_recv() -> ReceiveSequenceSpace {
    ReceiveSequenceSpace { nxt: 0, wnd: 0, up: false, irs: 0 }
}

/// A fresh connection: listening, sequence spaces zeroed.
pub open spec fn listening() -> Connection {
    Connection { state: State::Listen, send: zero_send(), recv: zero_recv() }
}

/// The connection after it handles the inbound segment `tcp`, with `iss`
/// as the initial send sequence number should it accept a SYN.
pub open spec fn next_connection(c: Connection, tcp: TcpHeader, iss: u32) -> Connection {
    match c.state {
        State::Listen => if tcp.syn {
            Connection {
                state: State::SynReceived,
                send: SendSequenceSpace {
                    una: iss,
                    nxt: iss,
                    wnd: tcp.window_size as u32,
                    up: c.send.up,
                    wl1: c.send.wl1,
                    wl2: c.send.wl2,
                    iss,
                },
                recv: ReceiveSequenceSpace {
                    nxt: seq_next(tcp.sequence_number),
                    wnd: tcp.window_size as u32,
                    up: false,
                    irs: tcp.sequence_number,
                },
            }
        } else {
            c
        },
        State::SynReceived => if tcp.ack && tcp.acknowledgment_number == seq_next(c.send.nxt) {
            Connection {
                state: State::Established,
                send: SendSequenceSpace {
                    una: tcp.acknowledgment_number,
                    nxt: tcp.acknowledgment_number,
                    ..c.send
                },
                recv: c.recv,
            }
        } else {
            c
        },
        _ => c,
    }
}

/// The SYN-ACK header answering `tcp`, before its checksum is filled in.
pub open spec fn syn_ack_tcp_unsummed(tcp: TcpHeader, iss: u32) -> TcpHeader {
    TcpHeader {
        source_port: tcp.destination_port,
        destination_port: tcp.source_port,
        sequence_number: iss,
        acknowledgment_number: seq_next(tcp.sequence_number),
        data_offset: 5,
        ns: false,
        cwr: false,
        ece: false,
        urg: false,
        ack: true,
        psh: false,
        rst: false,
        syn: true,
        fin: false,
        window_size: SYN_ACK_WINDOW,
        checksum: 0,
        urgent_pointer: 0,
    }
}

/// The IPv4 header of a reply to `ip`: addresses swapped, a 20-byte TCP
/// header and no payload, don't-fragment set.
pub open spec fn reply_ip(ip: Ipv4Header) -> Ipv4Header {
    Ipv4Header {
        ihl: 5,
        dscp: 0,
        ecn: 0,
        total_len: 40,
        identification: 0,
        reserved_flag: false,
        dont_fragment: true,
        more_fragments: false,
        fragment_offset: 0,
        time_to_live: DEFAULT_TTL,
        protocol: PROTO_TCP,
        header_checksum: 0,
        source: ip.destination,
        destination: ip.source,
    }
}

/// The SYN-ACK segment answering the SYN `tcp` carried in `ip`.
pub open spec fn syn_ack(ip: Ipv4Header, tcp: TcpHeader, iss: u32) -> Segment {
    let t = syn_ack_tcp_unsummed(tcp, iss);
    Segment {
        ip: reply_ip(ip),
        tcp: TcpHeader {
            checksum: internet_checksum(tcp_checksum_input(t, ip.destination, ip.source, seq![])),
            ..t
        },
    }
}

/// The segment, if any, that the connection `c` sends in answer to `tcp`.
pub open spec fn reply_of(c: Connection, ip: Ipv4Header, tcp: TcpHeader, iss: u32) -> Option<
    Segment,
> {
    if c.state == State::Listen && tcp.syn {
        Some(syn_ack(ip, tcp, iss))
    } else {
        None
    }
}

/// The bytes of a segment on the wire.
pub open spec fn segment_wire(s: Segment) -> Seq<u8> {
    ipv4_wire(s.ip) + tcp_layout(s.tcp, s.tcp.checksum)
}

impl Connection {
    /// No unacknowledged data is ahead of the next sequence number.
    pub open spec fn wf(&self) -> bool {
        self.send.una <= self.send.nxt
    }

    /// Handles one inbound segment: moves the state machine and returns the
    /// segment to send back, if any.
    pub fn on_packet(
        &mut self,
        ipv4_header: &Ipv4Header,
        tcp_header: &TcpHeader,
        _data: &[u8],
        iss: u32,
    ) -> (r: Option<Segment>)
        ensures
            *final(self) == next_connection(*old(self), *tcp_header, iss),
            r == reply_of(*old(self), *ipv4_header, *tcp_header, iss),
            old(self).wf() ==> final(self).wf(),
    {
        match self.state {
            State::Listen => {
                if !tcp_header.syn {
                    return None;
                }
                self.recv.irs = tcp_header.sequence_number;
                self.recv.nxt = next_seq(tcp_header.sequence_number);
                self.recv.wnd = tcp_header.window_size as u32;
                self.recv.up = false;
                self.send.iss = iss;
                self.send.una = iss;
                self.send.nxt = iss;
                self.send.wnd = tcp_header.window_size as u32;
                self.state = State::SynReceived;
                let mut syn_ack = TcpHeader {
                    source_port: tcp_header.destination_port,
                    destination_port: tcp_header.source_port,
                    sequence_number: iss,
                    acknowledgment_number: self.recv.nxt,
                    data_offset: 5,
                    ns: false,
                    cwr: false,
                    ece: false,
                    urg: false,
                    ack: true,
                    psh: false,
                    rst: false,
                    syn: true,
                    fin: false,
                    window_size: SYN_ACK_WINDOW,
                    checksum: 0,
                    urgent_pointer: 0,
                };
                let ip = Ipv4Header {
                    ihl: 5,
                    dscp: 0,
                    ecn: 0,
                    total_len: 40,
                    identification: 0,
                    reserved_flag: false,
                    dont_fragment: true,
                    more_fragments: false,
                    fragment_offset: 0,
                    time_to_live: DEFAULT_TTL,
                    protocol: PROTO_TCP,
                    header_checksum: 0,
                    source: ipv4_header.destination,
                    destination: ipv4_header.source,
                };
                let empty: [u8; 0] = [];
                syn_ack.checksum = tcp_checksum(&syn_ack, ip.source, ip.destination, &empty);
                proof {
                    assert(empty@ =~= seq![]);
                }
                Some(Segment { ip, tcp: syn_ack })
            },
            State::SynReceived => {
                if tcp_header.ack && tcp_header.acknowledgment_number == next_seq(self.send.nxt) {
                    self.send.una = tcp_header.acknowledgment_number;
                    self.send.nxt = tcp_header.acknowledgment_number;
                    self.state = State::Established;
                }
                None
            },
            _ => None,
        }
    }
}

impl Default for Connection {
    /// A listening connection with zeroed sequence spaces.
    fn default() -> (r: Self)
        ensures
            r == listening(),
    {
        Connection {
            state: State::Listen,
            send: SendSequenceSpace { una: 0, nxt: 0, wnd: 0, up: false, wl1: 0, wl2: 0, iss: 0 },
            recv: ReceiveSequenceSpace { nxt: 0, wnd: 0, up: false, irs: 0 },
        }
    }
}

impl Segment {
    /// The segment's IPv4 header followed by its TCP header, as sent.
    pub fn to_bytes(&self) -> (r: Vec<u8>)
        requires
            self.ip.wf(),
            self.ip.ihl == 5,
            self.tcp.wf(),
            self.tcp.data_offset == 5,
        ensures
            r@ == segment_wire(*self),
            r@.len() == 40,
    {
        let mut out: Vec<u8> = Vec::new();
        write_ipv4(&self.ip, &mut out);
        write_tcp(&self.tcp, &mut out);
        assert(out@ =~= segment_wire(*self));
        out
    }
}

/// A synthesized SYN-ACK is a well-formed, option-less segment whose IPv4
/// and TCP checksums are both valid.
pub proof fn lemma_syn_ack_checksums(ip: Ipv4Header, tcp: TcpHeader, iss: u32)
    ensures
        syn_ack(ip, tcp, iss).ip.wf(),
        syn_ack(ip, tcp, iss).ip.ihl == 5,
        syn_ack(ip, tcp, iss).tcp.wf(),
        syn_ack(ip, tcp, iss).tcp.data_offset == 5,
        checksum_valid(ipv4_wire(syn_ack(ip, tcp, iss).ip)),
        checksum_valid(
            tcp_pseudo_header(ip.destination, ip.source, 20) + tcp_layout(
                syn_ack(ip, tcp, iss).tcp,
                syn_ack(ip, tcp, iss).tcp.checksum,
            ),
        ),
{
    let s = syn_ack(ip, tcp, iss);
    let t = syn_ack_tcp_unsummed(tcp, iss);
    lemma_ipv4_checksum_valid(s.ip);
    lemma_tcp_checksum_valid(t, ip.destination, ip.source, seq![]);
    assert(tcp_layout(s.tcp, s.tcp.checksum) == tcp_layout(t, s.tcp.checksum));
    assert(tcp_pseudo_header(ip.destination, ip.source, 20) + tcp_layout(t, s.tcp.checksum) + seq![]
        =~= tcp_pseudo_header(ip.destination, ip.source, 20) + tcp_layout(t, s.tcp.checksum));
}

/// A listening connection that receives a SYN with sequence number `S` and
/// window `W` answers with an ACK of `S + 1` and moves to SYN-received with
/// `recv.nxt == S + 1`, `recv.irs == S` and `send.wnd == W`.
pub proof fn lemma_listen_accepts_syn(c: Connection, ip: Ipv4Header, tcp: TcpHeader, iss: u32)
    requires
        c.state == State::Listen,
        tcp.syn,
    ensures
        reply_of(c, ip, tcp, iss) is Some,
        reply_of(c, ip, tcp, iss)->0.tcp.syn,
        reply_of(c, ip, tcp, iss)->0.tcp.ack,
        reply_of(c, ip, tcp, iss)->0.tcp.acknowledgment_number == seq_next(tcp.sequence_number),
        next_connection(c, tcp, iss).state == State::SynReceived,
        next_connection(c, tcp, iss).recv.nxt == seq_next(tcp.sequence_number),
        next_connection(c, tcp, iss).recv.irs == tcp.sequence_number,
        next_connection(c, tcp, iss).send.wnd == tcp.window_size as u32,
{
}

/// A listening connection ignores a segment without SYN: nothing is sent
/// and the connection, still listening, is unchanged.
pub proof fn lemma_listen_ignores_non_syn(c: Connection, ip: Ipv4Header, tcp: TcpHeader, iss: u32)
    requires
        c.state == State::Listen,
        !tcp.syn,
    ensures
        reply_of(c, ip, tcp, iss) is None,
        next_connection(c, tcp, iss) == c,
        next_connection(c, tcp, iss).state == State::Listen,
{
}

/// A SYN-received connection that gets an ACK of `send.nxt + 1` is
/// established.
pub proof fn lemma_syn_received_accepts_ack(c: Connection, ip: Ipv4Header, tcp: TcpHeader, iss: u32)
    requires
        c.state == State::SynReceived,
        tcp.ack,
        tcp.acknowledgment_number == seq_next(c.send.nxt),
    ensures
        reply_of(c, ip, tcp, iss) is None,
        next_connection(c, tcp, iss).state == State::Established,
        next_connection(c, tcp, iss).send.una == next_connection(c, tcp, iss).send.nxt,
{
}

} // verus!
