//! Connection identity: the four-tuple that routes a segment.
use vstd::prelude::*;

verus! {

/// A TCP port number.
pub type Port = u16;

/// Source and destination address and port, as seen on an inbound
/// segment. Addresses are IPv4 addresses read as big-endian integers.
#[derive(Clone, Copy, Debug, PartialEq, Eq, Hash, Structural)]
pub struct Quad {
    pub src_addr: u32,
    pub src_port: Port,
    pub dest_addr: u32,
    pub dest_port: Port,
}

/// The four fields packed into one integer, most significant first.
pub open spec fn quad_key(q: Quad) -> u128 {
    (q.src_addr as int * 0x1_0000_0000_0000_0000 + q.src_port as int * 0x1_0000_0000_0000 + q.dest_addr as int
        * 0x1_0000 + q.dest_port as int) as u128
}

impl Quad {
    /// The integer under which the connection table files this quad.
    pub fn key(&self) -> (r: u128)
        ensures
            r == quad_key(*self),
    {
        self.src_addr as u128 * 0x1_0000_0000_0000_0000 + self.src_port as u128 * 0x1_0000_0000_0000
            + self.dest_addr as u128 * 0x1_0000 + self.dest_port as u128
    }
}

/// Distinct quads have distinct keys.
pub proof fn lemma_quad_key_injective(a: Quad, b: Quad)
    requires
        quad_key(a) == quad_key(b),
    ensures
        a == b,
{
    let (a0, a1, a2, a3) = (a.src_addr as int, a.src_port as int, a.dest_addr as int, a.dest_port as int);
    let (b0, b1, b2, b3) = (b.src_addr as int, b.src_port as int, b.dest_addr as int, b.dest_port as int);
    let ka = a0 * 0x1_0000_0000_0000_0000 + a1 * 0x1_0000_0000_0000 + a2 * 0x1_0000 + a3;
    let kb = b0 * 0x1_0000_0000_0000_0000 + b1 * 0x1_0000_0000_0000 + b2 * 0x1_0000 + b3;
    assert(ka < 0x1_0000_0000_0000_0000_0000_0000) by (nonlinear_arith)
        requires
            ka == a0 * 0x1_0000_0000_0000_0000 + a1 * 0x1_0000_0000_0000 + a2 * 0x1_0000 + a3,
            0 <= a0 < 0x1_0000_0000,
            0 <= a1 < 0x1_0000,
            0 <= a2 < 0x1_0000_0000,
            0 <= a3 < 0x1_0000,
    ;
    assert(kb < 0x1_0000_0000_0000_0000_0000_0000) by (nonlinear_arith)
        requires
            kb == b0 * 0x1_0000_0000_0000_0000 + b1 * 0x1_0000_0000_0000 + b2 * 0x1_0000 + b3,
            0 <= b0 < 0x1_0000_0000,
            0 <= b1 < 0x1_0000,
            0 <= b2 < 0x1_0000_0000,
            0 <= b3 < 0x1_0000,
    ;
    assert(ka == kb);
    assert(a0 == b0 && a1 == b1 && a2 == b2 && a3 == b3) by (nonlinear_arith)
        requires
            ka == a0 * 0x1_0000_0000_0000_0000 + a1 * 0x1_0000_0000_0000 + a2 * 0x1_0000 + a3,
            kb == b0 * 0x1_0000_0000_0000_0000 + b1 * 0x1_0000_0000_0000 + b2 * 0x1_0000 + b3,
            ka == kb,
            0 <= a0 < 0x1_0000_0000,
            0 <= a1 < 0x1_0000,
            0 <= a2 < 0x1_0000_0000,
            0 <= a3 < 0x1_0000,
            0 <= b0 < 0x1_0000_0000,
            0 <= b1 < 0x1_0000,
            0 <= b2 < 0x1_0000_0000,
            0 <= b3 < 0x1_0000,
    ;
}

} // verus!
