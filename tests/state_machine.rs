use tuntcp::codec::{Ipv4Header, TcpHeader};
use tuntcp::quad::Quad;
use tuntcp::table::ConnectionTable;
use tuntcp::tcp::{Connection, State};

fn ip() -> Ipv4Header {
    Ipv4Header {
        ihl: 5,
        dscp: 0,
        ecn: 0,
        total_len: 40,
        identification: 0,
        reserved_flag: false,
        dont_fragment: true,
        more_fragments: false,
        fragment_offset: 0,
        time_to_live: 64,
        protocol: 6,
        header_checksum: 0,
        source: 0x0A00_0002,
        destination: 0x0A00_0001,
    }
}

fn tcp(seq: u32, ack_no: u32, syn: bool, ack: bool, window: u16) -> TcpHeader {
    TcpHeader {
        source_port: 5000,
        destination_port: 80,
        sequence_number: seq,
        acknowledgment_number: ack_no,
        data_offset: 5,
        ns: false,
        cwr: false,
        ece: false,
        urg: false,
        ack,
        psh: false,
        rst: false,
        syn,
        fin: false,
        window_size: window,
        checksum: 0,
        urgent_pointer: 0,
    }
}

#[test]
fn listen_syn_moves_to_syn_received() {
    let mut c = Connection::default();
    let seg = c.on_packet(&ip(), &tcp(1000, 0, true, false, 4096), &[], 42).unwrap();
    assert!(seg.tcp.ack && seg.tcp.syn);
    assert_eq!(seg.tcp.acknowledgment_number, 1001);
    assert_eq!(seg.tcp.sequence_number, 42);
    assert_eq!(seg.tcp.source_port, 80);
    assert_eq!(seg.tcp.destination_port, 5000);
    assert_eq!(seg.ip.source, 0x0A00_0001);
    assert_eq!(seg.ip.destination, 0x0A00_0002);
    assert_eq!(seg.ip.total_len, 40);
    assert_eq!(c.state, State::SynReceived);
    assert_eq!(c.recv.nxt, 1001);
    assert_eq!(c.recv.irs, 1000);
    assert_eq!(c.recv.wnd, 4096);
    assert_eq!(c.send.wnd, 4096);
    assert_eq!(c.send.una, 42);
    assert_eq!(c.send.nxt, 42);
    assert_eq!(c.send.iss, 42);
    assert_eq!(seg.to_bytes().len(), 40);
}

#[test]
fn syn_sequence_number_wraps() {
    let mut c = Connection::default();
    let seg = c.on_packet(&ip(), &tcp(u32::MAX, 0, true, false, 1), &[], 0).unwrap();
    assert_eq!(seg.tcp.acknowledgment_number, 0);
    assert_eq!(c.recv.nxt, 0);
}

#[test]
fn listen_without_syn_is_ignored() {
    let mut c = Connection::default();
    assert!(c.on_packet(&ip(), &tcp(1000, 0, false, true, 4096), &[], 42).is_none());
    assert_eq!(c, Connection::default());
    assert_eq!(c.state, State::Listen);
}

#[test]
fn syn_received_right_ack_establishes() {
    let mut c = Connection::default();
    c.on_packet(&ip(), &tcp(1000, 0, true, false, 4096), &[], 42).unwrap();
    assert!(c.on_packet(&ip(), &tcp(1001, 43, false, true, 4096), &[], 0).is_none());
    assert_eq!(c.state, State::Established);
    assert_eq!(c.send.una, 43);
}

#[test]
fn syn_received_wrong_ack_is_ignored() {
    let mut c = Connection::default();
    c.on_packet(&ip(), &tcp(1000, 0, true, false, 4096), &[], 42).unwrap();
    let before = c;
    assert!(c.on_packet(&ip(), &tcp(1001, 42, false, true, 4096), &[], 0).is_none());
    assert!(c.on_packet(&ip(), &tcp(1001, 43, false, false, 4096), &[], 0).is_none());
    assert_eq!(c, before);
}

#[test]
fn closed_and_established_ignore_segments() {
    let mut c = Connection::default();
    c.state = State::Closed;
    let before = c;
    assert!(c.on_packet(&ip(), &tcp(1, 0, true, false, 1), &[], 0).is_none());
    assert_eq!(c, before);
    c.state = State::Established;
    let before = c;
    assert!(c.on_packet(&ip(), &tcp(1, 0, true, true, 1), &[], 0).is_none());
    assert_eq!(c, before);
}

#[test]
fn table_creates_listening_connection_once() {
    let mut t = ConnectionTable::new();
    let q = Quad { src_addr: 1, src_port: 2, dest_addr: 3, dest_port: 4 };
    assert!(t.get(&q).is_none());
    let c = t.get_or_create(q);
    assert_eq!(c, Connection::default());
    let mut changed = c;
    changed.state = State::SynReceived;
    t.insert(q, changed);
    assert_eq!(t.get_or_create(q), changed);
    assert_eq!(t.get_or_create(q), changed);
    let other = Quad { src_addr: 1, src_port: 2, dest_addr: 3, dest_port: 5 };
    assert_eq!(t.get_or_create(other), Connection::default());
    assert_eq!(t.get(&q), Some(changed));
}

#[test]
fn quad_keys_differ_per_field() {
    let q = Quad { src_addr: 1, src_port: 2, dest_addr: 3, dest_port: 4 };
    assert_eq!(q.key(), (1u128 << 64) | (2u128 << 48) | (3u128 << 16) | 4);
    let mut r = q;
    r.src_port = 3;
    assert_ne!(q.key(), r.key());
}
