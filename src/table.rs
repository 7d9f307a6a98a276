//! The connection table: one connection per quad, created on first use.
use vstd::prelude::*;
use std::collections::HashMap;
use crate::quad::{lemma_quad_key_injective, quad_key, Quad};
use crate::tcp::{listening, Connection, ReceiveSequenceSpace, SendSequenceSpace, State};

verus! {

broadcast use vstd::std_specs::hash::group_hash_axioms;

/// Connections filed by quad.
pub struct ConnectionTable {
    connections: HashMap<u128, Connection>,
}

/// The table `m` after a lookup of `q` that creates a listening connection
/// when there is none.
pub open spec fn with_listener(m: Map<Quad, Connection>, q: Quad) -> Map<Quad, Connection> {
    if m.contains_key(q) {
        m
    } else {
        m.insert(q, listening())
    }
}

impl View for ConnectionTable {
    type V = Map<Quad, Connection>;

    closed spec fn view(&self) -> Map<Quad, Connection> {
        Map::new(
            |q: Quad| self.connections@.contains_key(quad_key(q)),
            |q: Quad| self.connections@[quad_key(q)],
        )
    }
}

impl ConnectionTable {
    /// Every connection in the table is well formed.
    pub open spec fn wf(&self) -> bool {
        forall|q: Quad| #[trigger] self@.contains_key(q) ==> self@[q].wf()
    }

    /// An empty table.
    pub fn new() -> (r: Self)
        ensures
            r@ == Map::<Quad, Connection>::empty(),
            r.wf(),
    {
        let r = ConnectionTable { connections: HashMap::new() };
        assert(r@ =~= Map::<Quad, Connection>::empty());
        r
    }

    /// The connection filed under `quad`, if any.
    pub fn get(&self, quad: &Quad) -> (r: Option<Connection>)
        ensures
            r == (if self@.contains_key(*quad) {
                Some(self@[*quad])
            } else {
                None
            }),
    {
        match self.connections.get(&quad.key()) {
            Some(c) => Some(*c),
            None => None,
        }
    }

    /// Whether a connection is filed under `quad`.
    pub fn contains(&self, quad: &Quad) -> (r: bool)
        ensures
            r == self@.contains_key(*quad),
    {
        self.connections.contains_key(&quad.key())
    }

    /// Files `c` under `quad`, replacing what was there.
    pub fn insert(&mut self, quad: Quad, c: Connection)
        requires
            old(self).wf(),
            c.wf(),
        ensures
            final(self)@ == old(self)@.insert(quad, c),
            final(self).wf(),
    {
        let ghost before = self@;
        self.connections.insert(quad.key(), c);
        assert forall|q: Quad| #[trigger] self@.contains_key(q) == before.insert(quad, c).contains_key(q)
            && (self@.contains_key(q) ==> self@[q] == before.insert(quad, c)[q]) by {
            if q != quad && quad_key(q) == quad_key(quad) {
                lemma_quad_key_injective(q, quad);
            }
        }
        assert(self@ =~= before.insert(quad, c));
    }

    /// The connection filed under `quad`; a listening one with zeroed
    /// sequence spaces is filed there first when there is none.
    pub fn get_or_create(&mut self, quad: Quad) -> (r: Connection)
        requires
            old(self).wf(),
        ensures
            final(self)@ == with_listener(old(self)@, quad),
            r == final(self)@[quad],
            final(self).wf(),
    {
        match self.get(&quad) {
            Some(c) => c,
            None => {
                let c = Connection {
                    state: State::Listen,
                    send: SendSequenceSpace { una: 0, nxt: 0, wnd: 0, up: false, wl1: 0, wl2: 0, iss: 0 },
                    recv: ReceiveSequenceSpace { nxt: 0, wnd: 0, up: false, irs: 0 },
                };
                self.insert(quad, c);
                c
            },
        }
    }
}

/// Lookups of one quad are stable: a second lookup finds the connection the
/// first one returned and changes nothing; a connection filed under the quad
/// is what the next lookup returns; other quads are never touched.
pub proof fn lemma_lookup_stable(m: Map<Quad, Connection>, q: Quad, c: Connection, other: Quad)
    requires
        other != q,
    ensures
        with_listener(with_listener(m, q), q) == with_listener(m, q),
        with_listener(m, q)[q] == (if m.contains_key(q) {
            m[q]
        } else {
            listening()
        }),
        with_listener(m.insert(q, c), q)[q] == c,
        with_listener(m, q).contains_key(other) == m.contains_key(other),
        m.contains_key(other) ==> with_listener(m, q)[other] == m[other],
        m.insert(q, c).contains_key(other) == m.contains_key(other),
        m.contains_key(other) ==> m.insert(q, c)[other] == m[other],
{
}

} // verus!
