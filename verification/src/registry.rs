//! The session registry: which live connections exist, and which rooms each
//! one is a member of. Rooms come into being implicitly on first join and
//! simply have no members once everyone has left.

use vstd::prelude::*;

use crate::lookup::contains_u64;
use crate::ops::OpError;

verus! {

/// The four kinds of broadcast topic.
#[derive(Clone, Copy, Debug, PartialEq, Eq, Structural)]
pub enum RoomKind {
    User,
    Community,
    Moderator,
    Post,
}

/// A broadcast topic, keyed by entity kind and id.
#[derive(Clone, Copy, Debug, PartialEq, Eq, Structural)]
pub struct Room {
    pub kind: RoomKind,
    pub entity_id: u64,
}

/// Live connections and the connection-to-room membership relation.
pub struct SessionRegistry {
    pub connections: Vec<u64>,
    pub memberships: Vec<(Room, u64)>,
}

impl SessionRegistry {
    /// A connection the transport has registered and not yet unregistered.
    pub open spec fn registered(self, conn: u64) -> bool {
        self.connections@.contains(conn)
    }

    /// The membership relation: `conn` currently belongs to `room`.
    pub open spec fn is_member(self, room: Room, conn: u64) -> bool {
        self.memberships@.contains((room, conn))
    }

    /// Well-formed: no duplicate connections, no duplicate membership
    /// entries, and every member is a registered connection.
    pub open spec fn wf(self) -> bool {
        &&& forall|i: int, j: int|
            0 <= i < j < self.connections@.len() ==> self.connections@[i] != self.connections@[j]
        &&& forall|i: int, j: int|
            0 <= i < j < self.memberships@.len() ==> self.memberships@[i] != self.memberships@[j]
        &&& forall|i: int|
            0 <= i < self.memberships@.len() ==> self.connections@.contains(
                #[trigger] self.memberships@[i].1,
            )
    }

    /// An empty registry: nothing registered, nothing joined.
    pub fn new() -> (r: Self)
        ensures
            r.wf(),
            r.connections@.len() == 0,
            r.memberships@.len() == 0,
    {
        SessionRegistry { connections: Vec::new(), memberships: Vec::new() }
    }

    /// Register a connection; idempotent per connection identity.
    pub fn register(&mut self, conn: u64) -> (added: bool)
        requires
            old(self).wf(),
        ensures
            final(self).wf(),
            added == !old(self).registered(conn),
            forall|c: u64| final(self).registered(c) <==> (old(self).registered(c) || c == conn),
            final(self).memberships@ == old(self).memberships@,
            old(self).registered(conn) ==> final(self).connections@ == old(self).connections@,
            !old(self).registered(conn) ==> final(self).connections@ == old(
                self,
            ).connections@.push(conn),
    {
        if contains_u64(&self.connections, conn) {
            false
        } else {
            let ghost pre = self.connections@;
            self.connections.push(conn);
            proof {
                assert forall|c: u64|
                    self.registered(c) <==> (old(self).registered(c) || c == conn) by {
                    lemma_push_contains(pre, conn, c);
                }
                assert forall|i: int, j: int|
                    0 <= i < j < self.connections@.len() implies self.connections@[i]
                    != self.connections@[j] by {
                    if j == pre.len() {
                        assert(pre.contains(self.connections@[i])) by {
                            assert(pre[i] == self.connections@[i]);
                        }
                    }
                }
                assert forall|i: int|
                    0 <= i < self.memberships@.len() implies self.connections@.contains(
                    #[trigger] self.memberships@[i].1) by {
                    lemma_push_contains(pre, conn, self.memberships@[i].1);
                }
            }
            true
        }
    }

    /// Whether `conn` is currently registered.
    pub fn is_registered(&self, conn: u64) -> (r: bool)
        ensures
            r == self.registered(conn),
    {
        contains_u64(&self.connections, conn)
    }

    /// Whether `(room, conn)` is a membership entry.
    fn has_entry(&self, room: Room, conn: u64) -> (r: bool)
        ensures
            r == self.is_member(room, conn),
    {
        let mut i: usize = 0;
        while i < self.memberships.len()
            invariant
                i <= self.memberships@.len(),
                forall|k: int| 0 <= k < i ==> self.memberships@[k] != (room, conn),
            decreases self.memberships@.len() - i,
        {
            let (rm, c) = self.memberships[i];
            if rm == room && c == conn {
                assert(self.memberships@[i as int] == (room, conn));
                return true;
            }
            i += 1;
        }
        false
    }

    /// Add `conn` to `room`'s member set. A duplicate join is a no-op, so a
    /// connection never holds more than one membership entry per room. Fails
    /// with `UnknownConnection` when `conn` was never registered or was
    /// already unregistered, leaving the registry untouched.
    pub fn join(&mut self, conn: u64, room: Room) -> (r: Result<bool, OpError>)
        requires
            old(self).wf(),
        ensures
            final(self).wf(),
            final(self).connections@ == old(self).connections@,
            r is Ok <==> old(self).registered(conn),
            match r {
                Ok(added) => {
                    &&& added == !old(self).is_member(room, conn)
                    &&& old(self).is_member(room, conn) ==> final(self).memberships@ == old(
                        self,
                    ).memberships@
                    &&& !old(self).is_member(room, conn) ==> final(self).memberships@ == old(
                        self,
                    ).memberships@.push((room, conn))
                    &&& forall|rm: Room, c: u64|
                        final(self).is_member(rm, c) <==> (old(self).is_member(rm, c) || (rm
                            == room && c == conn))
                },
                Err(e) => e == OpError::UnknownConnection && final(self).memberships@ == old(
                    self,
                ).memberships@,
            },
    {
        if !contains_u64(&self.connections, conn) {
            return Err(OpError::UnknownConnection);
        }
        if self.has_entry(room, conn) {
            return Ok(false);
        }
        let ghost pre = self.memberships@;
        self.memberships.push((room, conn));
        proof {
            assert forall|rm: Room, c: u64|
                self.is_member(rm, c) <==> (old(self).is_member(rm, c) || (rm == room && c
                    == conn)) by {
                lemma_push_contains(pre, (room, conn), (rm, c));
            }
            assert forall|i: int, j: int|
                0 <= i < j < self.memberships@.len() implies self.memberships@[i]
                != self.memberships@[j] by {
                if j == pre.len() {
                    assert(pre.contains(self.memberships@[i])) by {
                        assert(pre[i] == self.memberships@[i]);
                    }
                }
            }
            assert forall|i: int|
                0 <= i < self.memberships@.len() implies self.connections@.contains(
                #[trigger] self.memberships@[i].1) by {
                if i < pre.len() {
                    assert(self.memberships@[i] == pre[i]);
                }
            }
        }
        Ok(true)
    }

    /// Snapshot of `room`'s current members, free of duplicates. The result
    /// is a copy: mutating it does not touch the registry.
    pub fn members(&self, room: Room) -> (r: Vec<u64>)
        requires
            self.wf(),
        ensures
            forall|c: u64| r@.contains(c) <==> self.is_member(room, c),
            forall|i: int, j: int| 0 <= i < j < r@.len() ==> r@[i] != r@[j],
    {
        let mut r: Vec<u64> = Vec::new();
        let mut i: usize = 0;
        while i < self.memberships.len()
            invariant
                self.wf(),
                i <= self.memberships@.len(),
                forall|c: u64|
                    r@.contains(c) <==> exists|k: int|
                        0 <= k < i && self.memberships@[k] == (room, c),
                forall|p: int, q: int| 0 <= p < q < r@.len() ==> r@[p] != r@[q],
            decreases self.memberships@.len() - i,
        {
            let (rm, c) = self.memberships[i];
            let ghost pre = r@;
            if rm == room {
                proof {
                    assert(self.memberships@[i as int] == (room, c));
                    if pre.contains(c) {
                        let k = choose|k: int| 0 <= k < i && self.memberships@[k] == (room, c);
                        assert(false);
                    }
                }
                r.push(c);
                proof {
                    assert forall|cc: u64|
                        r@.contains(cc) <==> exists|k: int|
                            0 <= k < i + 1 && self.memberships@[k] == (room, cc) by {
                        lemma_push_contains(pre, c, cc);
                        if cc == c {
                            assert(self.memberships@[i as int] == (room, c));
                        } else {
                            assert((exists|k: int| 0 <= k < i && self.memberships@[k] == (room, cc))
                                <==> exists|k: int|
                                0 <= k < i + 1 && self.memberships@[k] == (room, cc)) by {
                                if exists|k: int|
                                    0 <= k < i + 1 && self.memberships@[k] == (room, cc) {
                                    let k = choose|k: int|
                                        0 <= k < i + 1 && self.memberships@[k] == (room, cc);
                                    assert(k != i);
                                }
                            }
                        }
                    }
                    assert forall|p: int, q: int|
                        0 <= p < q < r@.len() implies r@[p] != r@[q] by {
                        if q == pre.len() {
                            assert(pre.contains(r@[p])) by {
                                assert(pre[p] == r@[p]);
                            }
                        }
                    }
                }
            } else {
                proof {
                    assert forall|cc: u64|
                        r@.contains(cc) <==> exists|k: int|
                            0 <= k < i + 1 && self.memberships@[k] == (room, cc) by {
                        if exists|k: int| 0 <= k < i + 1 && self.memberships@[k] == (room, cc) {
                            let k = choose|k: int|
                                0 <= k < i + 1 && self.memberships@[k] == (room, cc);
                            assert(self.memberships@[i as int].0 == rm);
                            assert(k != i);
                        }
                    }
                }
            }
            i += 1;
        }
        proof {
            assert forall|c: u64| r@.contains(c) <==> self.is_member(room, c) by {
                if self.is_member(room, c) {
                    let k = choose|k: int|
                        0 <= k < self.memberships@.len() && self.memberships@[k] == (room, c);
                    assert(0 <= k < i && self.memberships@[k] == (room, c));
                }
            }
        }
        r
    }

    /// Remove `conn` from the registry and from every room it belonged to.
    /// Unregistering an unknown connection is a harmless no-op.
    pub fn unregister(&mut self, conn: u64)
        requires
            old(self).wf(),
        ensures
            final(self).wf(),
            !final(self).registered(conn),
            forall|c: u64| c != conn ==> (final(self).registered(c) <==> old(self).registered(c)),
            forall|rm: Room, c: u64|
                final(self).is_member(rm, c) <==> (old(self).is_member(rm, c) && c != conn),
    {
        let conns = retain_without_u64(&self.connections, conn);
        let pairs = retain_without_member(&self.memberships, conn);
        self.connections = conns;
        self.memberships = pairs;
        proof {
            assert forall|i: int|
                0 <= i < self.memberships@.len() implies self.connections@.contains(
                #[trigger] self.memberships@[i].1) by {
                let p = self.memberships@[i];
                assert(self.memberships@.contains(p));
                assert(old(self).memberships@.contains(p) && p.1 != conn);
                let k = choose|k: int|
                    0 <= k < old(self).memberships@.len() && old(self).memberships@[k] == p;
                assert(old(self).connections@.contains(p.1));
            }
            assert forall|rm: Room, c: u64|
                final(self).is_member(rm, c) <==> (old(self).is_member(rm, c) && c
                    != conn) by {
                assert(self.memberships@.contains((rm, c)) <==> (old(self).memberships@.contains(
                    (rm, c),
                ) && c != conn));
            }
        }
    }
}

/// Joining the same room twice with the same connection leaves exactly one
/// membership entry: a well-formed registry never holds two entries for one
/// (room, connection) pair, and `join` on an existing member changes
/// nothing, so the member count of the room is unaffected.
pub proof fn lemma_membership_entry_unique(
    reg: SessionRegistry,
    room: Room,
    conn: u64,
    i: int,
    j: int,
)
    requires
        reg.wf(),
        0 <= i < reg.memberships@.len(),
        0 <= j < reg.memberships@.len(),
        reg.memberships@[i] == (room, conn),
        reg.memberships@[j] == (room, conn),
    ensures
        i == j,
{
}

/// `s.push(x)` holds `y` exactly when `s` held it or `y == x`.
pub proof fn lemma_push_contains<T>(s: Seq<T>, x: T, y: T)
    ensures
        s.push(x).contains(y) <==> (s.contains(y) || y == x),
{
    if s.contains(y) {
        let k = choose|k: int| 0 <= k < s.len() && s[k] == y;
        assert(s.push(x)[k] == y);
    }
    if y == x {
        assert(s.push(x)[s.len() as int] == y);
    }
    if s.push(x).contains(y) && y != x {
        let k = choose|k: int| 0 <= k < s.push(x).len() && s.push(x)[k] == y;
        assert(k < s.len());
        assert(s[k] == y);
    }
}

/// Copy of `v` without the occurrences of `x`, order kept, duplicates kept.
fn retain_without_u64(v: &Vec<u64>, x: u64) -> (r: Vec<u64>)
    ensures
        forall|c: u64| r@.contains(c) <==> (v@.contains(c) && c != x),
        forall|i: int, j: int|
            (forall|p: int, q: int| 0 <= p < q < v@.len() ==> v@[p] != v@[q]) && 0 <= i < j
                < r@.len() ==> r@[i] != r@[j],
{
    let mut r: Vec<u64> = Vec::new();
    let mut i: usize = 0;
    while i < v.len()
        invariant
            i <= v@.len(),
            forall|c: u64|
                r@.contains(c) <==> (c != x && exists|k: int| 0 <= k < i && v@[k] == c),
            (forall|p: int, q: int| 0 <= p < q < v@.len() ==> v@[p] != v@[q]) ==> forall|
                p: int,
                q: int,
            | 0 <= p < q < r@.len() ==> r@[p] != r@[q],
        decreases v@.len() - i,
    {
        let c = v[i];
        let ghost pre = r@;
        if c != x {
            r.push(c);
            proof {
                assert forall|cc: u64|
                    r@.contains(cc) <==> (cc != x && exists|k: int|
                        0 <= k < i + 1 && v@[k] == cc) by {
                    lemma_push_contains(pre, c, cc);
                    if cc == c {
                        assert(v@[i as int] == c);
                    } else {
                        if exists|k: int| 0 <= k < i + 1 && v@[k] == cc {
                            let k = choose|k: int| 0 <= k < i + 1 && v@[k] == cc;
                            assert(k != i);
                        }
                    }
                }
                if forall|p: int, q: int| 0 <= p < q < v@.len() ==> v@[p] != v@[q] {
                    assert forall|p: int, q: int|
                        0 <= p < q < r@.len() implies r@[p] != r@[q] by {
                        if q == pre.len() {
                            assert(pre.contains(r@[p])) by {
                                assert(pre[p] == r@[p]);
                            }
                            let k = choose|k: int| 0 <= k < i && v@[k] == r@[p];
                            assert(v@[i as int] == r@[q]);
                        }
                    }
                }
            }
        } else {
            proof {
                assert forall|cc: u64|
                    r@.contains(cc) <==> (cc != x && exists|k: int|
                        0 <= k < i + 1 && v@[k] == cc) by {
                    if cc != x && (exists|k: int| 0 <= k < i + 1 && v@[k] == cc) {
                        let k = choose|k: int| 0 <= k < i + 1 && v@[k] == cc;
                        assert(k != i);
                    }
                }
            }
        }
        i += 1;
    }
    proof {
        assert forall|c: u64| r@.contains(c) <==> (v@.contains(c) && c != x) by {
            if v@.contains(c) && c != x {
                let k = choose|k: int| 0 <= k < v@.len() && v@[k] == c;
                assert(0 <= k < i && v@[k] == c);
            }
        }
    }
    r
}

/// Copy of `v` without the entries of connection `x`, order kept.
fn retain_without_member(v: &Vec<(Room, u64)>, x: u64) -> (r: Vec<(Room, u64)>)
    ensures
        forall|p: (Room, u64)| r@.contains(p) <==> (v@.contains(p) && p.1 != x),
        forall|i: int, j: int|
            (forall|p: int, q: int| 0 <= p < q < v@.len() ==> v@[p] != v@[q]) && 0 <= i < j
                < r@.len() ==> r@[i] != r@[j],
{
    let mut r: Vec<(Room, u64)> = Vec::new();
    let mut i: usize = 0;
    while i < v.len()
        invariant
            i <= v@.len(),
            forall|p: (Room, u64)|
                r@.contains(p) <==> (p.1 != x && exists|k: int| 0 <= k < i && v@[k] == p),
            (forall|p: int, q: int| 0 <= p < q < v@.len() ==> v@[p] != v@[q]) ==> forall|
                p: int,
                q: int,
            | 0 <= p < q < r@.len() ==> r@[p] != r@[q],
        decreases v@.len() - i,
    {
        let (rm, c) = v[i];
        let ghost pre = r@;
        if c != x {
            r.push((rm, c));
            proof {
                assert(v@[i as int] == (rm, c));
                assert forall|pp: (Room, u64)|
                    r@.contains(pp) <==> (pp.1 != x && exists|k: int|
                        0 <= k < i + 1 && v@[k] == pp) by {
                    lemma_push_contains(pre, (rm, c), pp);
                    if pp != (rm, c) {
                        if exists|k: int| 0 <= k < i + 1 && v@[k] == pp {
                            let k = choose|k: int| 0 <= k < i + 1 && v@[k] == pp;
                            assert(k != i);
                        }
                    }
                }
                if forall|p: int, q: int| 0 <= p < q < v@.len() ==> v@[p] != v@[q] {
                    assert forall|p: int, q: int|
                        0 <= p < q < r@.len() implies r@[p] != r@[q] by {
                        if q == pre.len() {
                            assert(pre.contains(r@[p])) by {
                                assert(pre[p] == r@[p]);
                            }
                            let k = choose|k: int| 0 <= k < i && v@[k] == r@[p];
                            assert(v@[i as int] == r@[q]);
                        }
                    }
                }
            }
        } else {
            proof {
                assert(v@[i as int] == (rm, c));
                assert forall|pp: (Room, u64)|
                    r@.contains(pp) <==> (pp.1 != x && exists|k: int|
                        0 <= k < i + 1 && v@[k] == pp) by {
                    if pp.1 != x && (exists|k: int| 0 <= k < i + 1 && v@[k] == pp) {
                        let k = choose|k: int| 0 <= k < i + 1 && v@[k] == pp;
                        assert(k != i);
                    }
                }
            }
        }
        i += 1;
    }
    proof {
        assert forall|p: (Room, u64)| r@.contains(p) <==> (v@.contains(p) && p.1 != x) by {
            if v@.contains(p) && p.1 != x {
                let k = choose|k: int| 0 <= k < v@.len() && v@[k] == p;
                assert(0 <= k < i && v@[k] == p);
            }
        }
    }
    r
}

} // verus!
