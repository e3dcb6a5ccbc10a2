//! The room hub: fans a notification out to every current member of a room
//! by appending it to a per-connection outbox. Delivery is at-most-once per
//! connection per publish, and each outbox preserves publish order, which
//! gives the per-room FIFO guarantee. The transport drains outboxes; a
//! drained or never-filled outbox holds nothing, so a reconnecting client
//! gets no backlog.

use vstd::prelude::*;

use crate::ops::OpKind;
use crate::registry::Room;
use crate::registry::SessionRegistry;

verus! {

/// What the hub delivers: the operation's kind, its target, the observable
/// result, and the originating connection if the operation arrived over one.
#[derive(Clone, Copy, Debug, PartialEq, Eq)]
pub struct Notification {
    pub kind: OpKind,
    pub target_id: u64,
    pub locked: bool,
    pub origin: Option<u64>,
}

/// Per-connection outboxes, keyed by connection id.
pub struct RoomHub {
    pub outboxes: Vec<(u64, Vec<Notification>)>,
}

impl RoomHub {
    /// Whether `conn` has an outbox entry.
    pub open spec fn has_box(self, conn: u64) -> bool {
        exists|k: int| 0 <= k < self.outboxes@.len() && self.outboxes@[k].0 == conn
    }

    /// Index of `conn`'s outbox entry (meaningful when `has_box`).
    pub open spec fn box_index(self, conn: u64) -> int {
        choose|k: int| 0 <= k < self.outboxes@.len() && self.outboxes@[k].0 == conn
    }

    /// The notifications queued for `conn`, oldest first; empty when `conn`
    /// has never been delivered to.
    pub open spec fn outbox_of(self, conn: u64) -> Seq<Notification> {
        if self.has_box(conn) {
            self.outboxes@[self.box_index(conn)].1@
        } else {
            Seq::empty()
        }
    }

    /// Well-formed: one outbox per connection.
    pub open spec fn wf(self) -> bool {
        forall|i: int, j: int|
            0 <= i < j < self.outboxes@.len() ==> self.outboxes@[i].0 != self.outboxes@[j].0
    }

    /// The entry at `k` is the one `outbox_of` speaks about for its key.
    proof fn lemma_box_index_of(self, k: int)
        requires
            self.wf(),
            0 <= k < self.outboxes@.len(),
        ensures
            self.has_box(self.outboxes@[k].0),
            self.box_index(self.outboxes@[k].0) == k,
            self.outbox_of(self.outboxes@[k].0) == self.outboxes@[k].1@,
    {
        let conn = self.outboxes@[k].0;
        assert(self.has_box(conn));
        let m = self.box_index(conn);
        assert(0 <= m < self.outboxes@.len() && self.outboxes@[m].0 == conn);
        if m != k {
            assert(false);
        }
    }

    /// A hub with no outboxes: nothing pending for anyone.
    pub fn new() -> (r: Self)
        ensures
            r.wf(),
            forall|c: u64| r.outbox_of(c) == Seq::<Notification>::empty(),
    {
        let r = RoomHub { outboxes: Vec::new() };
        proof {
            assert forall|c: u64| r.outbox_of(c) == Seq::<Notification>::empty() by {
                assert(!r.has_box(c));
            }
        }
        r
    }

    /// Position of `conn`'s outbox entry, if any.
    fn find_box(&self, conn: u64) -> (r: Option<usize>)
        requires
            self.wf(),
        ensures
            match r {
                Some(k) => self.has_box(conn) && self.box_index(conn) == k && k
                    < self.outboxes@.len() && self.outboxes@[k as int].0 == conn,
                None => !self.has_box(conn),
            },
    {
        let mut i: usize = 0;
        while i < self.outboxes.len()
            invariant
                self.wf(),
                i <= self.outboxes@.len(),
                forall|k: int| 0 <= k < i ==> self.outboxes@[k].0 != conn,
            decreases self.outboxes@.len() - i,
        {
            if self.outboxes[i].0 == conn {
                proof {
                    self.lemma_box_index_of(i as int);
                }
                return Some(i);
            }
            i += 1;
        }
        None
    }

    /// Append `n` to `conn`'s outbox, creating the outbox on first delivery.
    fn deliver(&mut self, conn: u64, n: Notification)
        requires
            old(self).wf(),
        ensures
            final(self).wf(),
            final(self).outbox_of(conn) == old(self).outbox_of(conn).push(n),
            forall|c: u64| c != conn ==> final(self).outbox_of(c) == old(self).outbox_of(c),
    {
        let ghost orig = self.outboxes@;
        match self.find_box(conn) {
            Some(k) => {
                let (key, mut q) = self.outboxes.remove(k);
                q.push(n);
                self.outboxes.insert(k, (key, q));
                proof {
                    let entry = (key, q);
                    assert(self.outboxes@ =~= orig.update(k as int, entry));
                    assert forall|i: int, j: int|
                        0 <= i < j < self.outboxes@.len() implies self.outboxes@[i].0
                        != self.outboxes@[j].0 by {
                        assert(self.outboxes@[i].0 == orig[i].0);
                        assert(self.outboxes@[j].0 == orig[j].0);
                    }
                    self.lemma_box_index_of(k as int);
                    assert(self.outbox_of(conn) == old(self).outbox_of(conn).push(n));
                    assert forall|c: u64|
                        c != conn implies self.outbox_of(c) == old(self).outbox_of(c) by {
                        assert forall|m: int|
                            0 <= m < self.outboxes@.len() implies #[trigger] self.outboxes@[m].0
                            == orig[m].0 by {}
                        if old(self).has_box(c) {
                            let m = old(self).box_index(c);
                            old(self).lemma_box_index_of(m);
                            assert(self.outboxes@[m].0 == c);
                            self.lemma_box_index_of(m);
                            assert(m != k);
                            assert(self.outboxes@[m].1 == orig[m].1);
                        } else {
                            if self.has_box(c) {
                                let m = self.box_index(c);
                                assert(orig[m].0 == c);
                                assert(old(self).has_box(c));
                            }
                        }
                    }
                }
            },
            None => {
                let mut q: Vec<Notification> = Vec::new();
                q.push(n);
                self.outboxes.push((conn, q));
                proof {
                    assert(self.outboxes@[orig.len() as int].0 == conn);
                    assert forall|i: int, j: int|
                        0 <= i < j < self.outboxes@.len() implies self.outboxes@[i].0
                        != self.outboxes@[j].0 by {
                        if j == orig.len() {
                            assert(self.outboxes@[i].0 == orig[i].0);
                        }
                    }
                    self.lemma_box_index_of(orig.len() as int);
                    assert(old(self).outbox_of(conn) == Seq::<Notification>::empty());
                    assert(q@ =~= Seq::<Notification>::empty().push(n));
                    assert(self.outbox_of(conn) == old(self).outbox_of(conn).push(n));
                    assert forall|c: u64|
                        c != conn implies self.outbox_of(c) == old(self).outbox_of(c) by {
                        if old(self).has_box(c) {
                            let m = old(self).box_index(c);
                            old(self).lemma_box_index_of(m);
                            assert(self.outboxes@[m].0 == c);
                            self.lemma_box_index_of(m);
                            assert(self.outboxes@[m].1 == orig[m].1);
                        } else {
                            if self.has_box(c) {
                                let m = self.box_index(c);
                                assert(m < orig.len());
                                assert(orig[m].0 == c);
                                assert(old(self).has_box(c));
                            }
                        }
                    }
                }
            },
        }
    }

    /// Deliver `n` once to every connection in `members`, skipping `skip`.
    fn fan_out(&mut self, members: &Vec<u64>, skip: Option<u64>, n: Notification)
        requires
            old(self).wf(),
            forall|i: int, j: int| 0 <= i < j < members@.len() ==> members@[i] != members@[j],
        ensures
            final(self).wf(),
            forall|c: u64|
                members@.contains(c) && skip != Some(c) ==> final(self).outbox_of(c) == old(
                    self,
                ).outbox_of(c).push(n),
            forall|c: u64|
                !(members@.contains(c) && skip != Some(c)) ==> final(self).outbox_of(c) == old(
                    self,
                ).outbox_of(c),
    {
        let ghost pre = *self;
        let mut i: usize = 0;
        while i < members.len()
            invariant
                self.wf(),
                i <= members@.len(),
                forall|p: int, q: int| 0 <= p < q < members@.len() ==> members@[p] != members@[q],
                forall|c: u64|
                    members@.subrange(0, i as int).contains(c) && skip != Some(c)
                        ==> self.outbox_of(c) == pre.outbox_of(c).push(n),
                forall|c: u64|
                    !(members@.subrange(0, i as int).contains(c) && skip != Some(c))
                        ==> self.outbox_of(c) == pre.outbox_of(c),
            decreases members@.len() - i,
        {
            let m = members[i];
            let ghost mid = *self;
            let deliver_this = match skip {
                Some(s) => s != m,
                None => true,
            };
            proof {
                lemma_subrange_succ(members@, i as int);
                assert(!members@.subrange(0, i as int).contains(m)) by {
                    if members@.subrange(0, i as int).contains(m) {
                        let k = choose|k: int|
                            0 <= k < i && members@.subrange(0, i as int)[k] == m;
                        assert(members@[k] == m && members@[i as int] == m);
                    }
                }
            }
            if deliver_this {
                self.deliver(m, n);
            }
            proof {
                assert forall|c: u64|
                    members@.subrange(0, i + 1).contains(c) && skip != Some(c)
                        implies self.outbox_of(c) == pre.outbox_of(c).push(n) by {
                    lemma_push_contains_seq(members@.subrange(0, i as int), m, c);
                    if c == m {
                        assert(mid.outbox_of(m) == pre.outbox_of(m));
                    }
                }
                assert forall|c: u64|
                    !(members@.subrange(0, i + 1).contains(c) && skip != Some(c))
                        implies self.outbox_of(c) == pre.outbox_of(c) by {
                    lemma_push_contains_seq(members@.subrange(0, i as int), m, c);
                }
            }
            i += 1;
        }
        proof {
            assert(members@.subrange(0, members@.len() as int) =~= members@);
        }
    }

    /// Deliver `n` to every current member of `room`, exactly once each.
    /// Connections outside the room see nothing.
    pub fn publish(&mut self, registry: &SessionRegistry, room: Room, n: Notification)
        requires
            old(self).wf(),
            registry.wf(),
        ensures
            final(self).wf(),
            forall|c: u64|
                registry.is_member(room, c) ==> final(self).outbox_of(c) == old(self).outbox_of(
                    c,
                ).push(n),
            forall|c: u64|
                !registry.is_member(room, c) ==> final(self).outbox_of(c) == old(self).outbox_of(
                    c,
                ),
    {
        let members = registry.members(room);
        self.fan_out(&members, None, n);
    }

    /// Like `publish`, but `excluded` receives nothing for this call.
    pub fn publish_excluding(
        &mut self,
        registry: &SessionRegistry,
        room: Room,
        n: Notification,
        excluded: u64,
    )
        requires
            old(self).wf(),
            registry.wf(),
        ensures
            final(self).wf(),
            forall|c: u64|
                registry.is_member(room, c) && c != excluded ==> final(self).outbox_of(c) == old(
                    self,
                ).outbox_of(c).push(n),
            forall|c: u64|
                !(registry.is_member(room, c) && c != excluded) ==> final(self).outbox_of(c)
                    == old(self).outbox_of(c),
    {
        let members = registry.members(room);
        self.fan_out(&members, Some(excluded), n);
    }

    /// Number of notifications pending for `conn`.
    pub fn outbox_len(&self, conn: u64) -> (r: usize)
        requires
            self.wf(),
        ensures
            r == self.outbox_of(conn).len(),
    {
        match self.find_box(conn) {
            Some(k) => self.outboxes[k].1.len(),
            None => 0,
        }
    }

    /// The `i`-th pending notification for `conn`, oldest first.
    pub fn outbox_at(&self, conn: u64, i: usize) -> (r: Notification)
        requires
            self.wf(),
            i < self.outbox_of(conn).len(),
        ensures
            r == self.outbox_of(conn)[i as int],
    {
        let k = self.find_box(conn).unwrap();
        self.outboxes[k].1[i]
    }

    /// Hand the transport everything pending for `conn` and clear the
    /// outbox: what was taken is never delivered again.
    pub fn take_outbox(&mut self, conn: u64) -> (r: Vec<Notification>)
        requires
            old(self).wf(),
        ensures
            final(self).wf(),
            r@ == old(self).outbox_of(conn),
            final(self).outbox_of(conn) == Seq::<Notification>::empty(),
            forall|c: u64| c != conn ==> final(self).outbox_of(c) == old(self).outbox_of(c),
    {
        let ghost orig = self.outboxes@;
        match self.find_box(conn) {
            Some(k) => {
                let (key, q) = self.outboxes.remove(k);
                let drained: Vec<Notification> = Vec::new();
                self.outboxes.insert(k, (key, drained));
                proof {
                    let entry = self.outboxes@[k as int];
                    assert(self.outboxes@ =~= orig.update(k as int, entry));
                    assert forall|i: int, j: int|
                        0 <= i < j < self.outboxes@.len() implies self.outboxes@[i].0
                        != self.outboxes@[j].0 by {
                        assert(self.outboxes@[i].0 == orig[i].0);
                        assert(self.outboxes@[j].0 == orig[j].0);
                    }
                    self.lemma_box_index_of(k as int);
                    assert(entry.1@ =~= Seq::<Notification>::empty());
                    assert(self.outbox_of(conn) == Seq::<Notification>::empty());
                    assert(q@ == old(self).outbox_of(conn));
                    assert forall|c: u64|
                        c != conn implies self.outbox_of(c) == old(self).outbox_of(c) by {
                        assert forall|m: int|
                            0 <= m < self.outboxes@.len() implies #[trigger] self.outboxes@[m].0
                            == orig[m].0 by {}
                        if old(self).has_box(c) {
                            let m = old(self).box_index(c);
                            old(self).lemma_box_index_of(m);
                            assert(self.outboxes@[m].0 == c);
                            self.lemma_box_index_of(m);
                            assert(m != k);
                            assert(self.outboxes@[m].1 == orig[m].1);
                        } else {
                            if self.has_box(c) {
                                let m = self.box_index(c);
                                assert(orig[m].0 == c);
                                assert(old(self).has_box(c));
                            }
                        }
                    }
                }
                q
            },
            None => {
                let r: Vec<Notification> = Vec::new();
                proof {
                    assert(old(self).outbox_of(conn) == Seq::<Notification>::empty());
                    assert(r@ =~= Seq::<Notification>::empty());
                }
                r
            },
        }
    }
}

/// `subrange(0, i + 1)` is `subrange(0, i)` with `s[i]` appended.
proof fn lemma_subrange_succ<T>(s: Seq<T>, i: int)
    requires
        0 <= i < s.len(),
    ensures
        s.subrange(0, i + 1) == s.subrange(0, i).push(s[i]),
{
    assert(s.subrange(0, i + 1) =~= s.subrange(0, i).push(s[i]));
}

/// `s.push(x)` holds `y` exactly when `s` held it or `y == x`.
proof fn lemma_push_contains_seq<T>(s: Seq<T>, x: T, y: T)
    ensures
        s.push(x).contains(y) <==> (s.contains(y) || y == x),
{
    if s.contains(y) {
        let k = choose|k: int| 0 <= k < s.len() && s[k] == y;
        assert(s.push(x)[k] == y);
    }
    if y == x {
        assert(s.push(x)[s.len() as int] == y);
    }
    if s.push(x).contains(y) && y != x {
        let k = choose|k: int| 0 <= k < s.push(x).len() && s.push(x)[k] == y;
        assert(k < s.len());
        assert(s[k] == y);
    }
}

/// Per-room FIFO: a member that is present for two successive publishes to
/// its room sees the first notification strictly before the second in its
/// outbox, at adjacent positions.
pub proof fn lemma_publish_fifo(
    h0: RoomHub,
    h1: RoomHub,
    h2: RoomHub,
    conn: u64,
    n1: Notification,
    n2: Notification,
)
    requires
        h1.outbox_of(conn) == h0.outbox_of(conn).push(n1),
        h2.outbox_of(conn) == h1.outbox_of(conn).push(n2),
    ensures
        h2.outbox_of(conn).len() == h0.outbox_of(conn).len() + 2,
        h2.outbox_of(conn)[h0.outbox_of(conn).len() as int] == n1,
        h2.outbox_of(conn)[h0.outbox_of(conn).len() as int + 1] == n2,
{
}

} // verus!
