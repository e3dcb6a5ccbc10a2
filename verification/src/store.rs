//! The in-memory state store: posts, communities, bans, roles, credential
//! sessions, and the append-only audit log. Every mutation that the pipeline
//! performs goes through `apply_lock`, which updates the post and appends
//! the audit record as one unit: either both happen or neither.

use vstd::prelude::*;

use crate::lookup::contains_pair;
use crate::lookup::contains_u64;
use crate::ops::OpError;
use crate::ops::OpKind;

verus! {

/// A post row: identity, owning community, and the moderation flag this
/// fragment mutates.
#[derive(Clone, Copy, Debug, PartialEq, Eq, Structural)]
pub struct PostRecord {
    pub id: u64,
    pub community_id: u64,
    pub locked: bool,
}

/// A community row: identity and the liveness flags the guards consult.
#[derive(Clone, Copy, Debug, PartialEq, Eq, Structural)]
pub struct CommunityRecord {
    pub id: u64,
    pub removed: bool,
    pub deleted: bool,
}

/// One immutable audit log entry; exactly one exists per successful
/// mutation, and this core never updates or deletes one.
#[derive(Clone, Copy, Debug, PartialEq, Eq, Structural)]
pub struct AuditRecord {
    pub actor_id: u64,
    pub target_id: u64,
    pub action: OpKind,
    pub locked: bool,
    pub timestamp: u64,
}

/// The audit record written for a lock mutation.
pub open spec fn lock_audit_record(
    actor_id: u64,
    post_id: u64,
    locked: bool,
    timestamp: u64,
) -> AuditRecord {
    AuditRecord { actor_id, target_id: post_id, action: OpKind::LockPost, locked, timestamp }
}

/// The whole mutable state the pipeline reads and writes.
pub struct StateStore {
    pub posts: Vec<PostRecord>,
    pub communities: Vec<CommunityRecord>,
    pub bans: Vec<(u64, u64)>,
    pub moderators: Vec<(u64, u64)>,
    pub admins: Vec<u64>,
    pub sessions: Vec<(u64, u64)>,
    pub audit: Vec<AuditRecord>,
}

impl StateStore {
    /// Whether a post with this id exists.
    pub open spec fn has_post(self, id: u64) -> bool {
        exists|k: int| 0 <= k < self.posts@.len() && self.posts@[k].id == id
    }

    /// Index of the post with this id (meaningful when `has_post`).
    pub open spec fn post_index(self, id: u64) -> int {
        choose|k: int| 0 <= k < self.posts@.len() && self.posts@[k].id == id
    }

    /// The post with this id (meaningful when `has_post`).
    pub open spec fn spec_post(self, id: u64) -> PostRecord {
        self.posts@[self.post_index(id)]
    }

    /// Whether a community with this id exists.
    pub open spec fn community_exists(self, id: u64) -> bool {
        exists|k: int| 0 <= k < self.communities@.len() && self.communities@[k].id == id
    }

    /// Index of the community with this id (meaningful when it exists).
    pub open spec fn community_index(self, id: u64) -> int {
        choose|k: int| 0 <= k < self.communities@.len() && self.communities@[k].id == id
    }

    /// The community with this id (meaningful when it exists).
    pub open spec fn spec_community(self, id: u64) -> CommunityRecord {
        self.communities@[self.community_index(id)]
    }

    /// A community that was removed by an admin or deleted by its owner.
    pub open spec fn community_inactive(self, id: u64) -> bool {
        self.spec_community(id).removed || self.spec_community(id).deleted
    }

    /// Whether `person` is banned from `community`.
    pub open spec fn is_banned(self, person: u64, community: u64) -> bool {
        self.bans@.contains((person, community))
    }

    /// Whether `person` moderates `community`.
    pub open spec fn is_moderator(self, person: u64, community: u64) -> bool {
        self.moderators@.contains((person, community))
    }

    /// Whether `person` is a site admin.
    pub open spec fn is_admin(self, person: u64) -> bool {
        self.admins@.contains(person)
    }

    /// The role the lock guard requires.
    pub open spec fn is_mod_or_admin(self, person: u64, community: u64) -> bool {
        self.is_moderator(person, community) || self.is_admin(person)
    }

    /// Whether a session with this credential token exists.
    pub open spec fn has_session(self, token: u64) -> bool {
        exists|k: int| 0 <= k < self.sessions@.len() && self.sessions@[k].0 == token
    }

    /// Index of the session with this token (meaningful when it exists).
    pub open spec fn session_index(self, token: u64) -> int {
        choose|k: int| 0 <= k < self.sessions@.len() && self.sessions@[k].0 == token
    }

    /// Who a credential token resolves to, if anyone.
    pub open spec fn spec_resolve(self, token: u64) -> Option<u64> {
        if self.has_session(token) {
            Some(self.sessions@[self.session_index(token)].1)
        } else {
            None
        }
    }

    /// Well-formed: ids and tokens are unique keys, and every post belongs
    /// to an existing community.
    pub open spec fn wf(self) -> bool {
        &&& forall|i: int, j: int|
            0 <= i < j < self.posts@.len() ==> self.posts@[i].id != self.posts@[j].id
        &&& forall|i: int, j: int|
            0 <= i < j < self.communities@.len() ==> self.communities@[i].id
                != self.communities@[j].id
        &&& forall|i: int, j: int|
            0 <= i < j < self.sessions@.len() ==> self.sessions@[i].0 != self.sessions@[j].0
        &&& forall|i: int|
            0 <= i < self.posts@.len() ==> self.community_exists(
                #[trigger] self.posts@[i].community_id,
            )
    }

    /// The post at `k` is the one `spec_post` speaks about for its id.
    pub proof fn lemma_post_index_of(self, k: int)
        requires
            self.wf(),
            0 <= k < self.posts@.len(),
        ensures
            self.has_post(self.posts@[k].id),
            self.post_index(self.posts@[k].id) == k,
            self.spec_post(self.posts@[k].id) == self.posts@[k],
    {
        let id = self.posts@[k].id;
        assert(self.has_post(id));
        let m = self.post_index(id);
        assert(0 <= m < self.posts@.len() && self.posts@[m].id == id);
        if m != k {
            assert(false);
        }
    }

    /// The community at `k` is the one `spec_community` speaks about.
    pub proof fn lemma_community_index_of(self, k: int)
        requires
            self.wf(),
            0 <= k < self.communities@.len(),
        ensures
            self.community_exists(self.communities@[k].id),
            self.community_index(self.communities@[k].id) == k,
            self.spec_community(self.communities@[k].id) == self.communities@[k],
    {
        let id = self.communities@[k].id;
        assert(self.community_exists(id));
        let m = self.community_index(id);
        assert(0 <= m < self.communities@.len() && self.communities@[m].id == id);
        if m != k {
            assert(false);
        }
    }

    /// The session at `k` is the one `spec_resolve` speaks about.
    pub proof fn lemma_session_index_of(self, k: int)
        requires
            self.wf(),
            0 <= k < self.sessions@.len(),
        ensures
            self.has_session(self.sessions@[k].0),
            self.session_index(self.sessions@[k].0) == k,
            self.spec_resolve(self.sessions@[k].0) == Some(self.sessions@[k].1),
    {
        let token = self.sessions@[k].0;
        assert(self.has_session(token));
        let m = self.session_index(token);
        assert(0 <= m < self.sessions@.len() && self.sessions@[m].0 == token);
        if m != k {
            assert(false);
        }
    }

    /// An empty store.
    pub fn new() -> (r: Self)
        ensures
            r.wf(),
            r.posts@.len() == 0,
            r.communities@.len() == 0,
            r.bans@.len() == 0,
            r.moderators@.len() == 0,
            r.admins@.len() == 0,
            r.sessions@.len() == 0,
            r.audit@.len() == 0,
    {
        StateStore {
            posts: Vec::new(),
            communities: Vec::new(),
            bans: Vec::new(),
            moderators: Vec::new(),
            admins: Vec::new(),
            sessions: Vec::new(),
            audit: Vec::new(),
        }
    }

    /// Add a community row; refused when the id is taken.
    pub fn add_community(&mut self, c: CommunityRecord) -> (added: bool)
        requires
            old(self).wf(),
        ensures
            final(self).wf(),
            added == !old(self).community_exists(c.id),
            added ==> final(self).communities@ == old(self).communities@.push(c),
            !added ==> final(self).communities@ == old(self).communities@,
            final(self).posts@ == old(self).posts@,
            final(self).bans@ == old(self).bans@,
            final(self).moderators@ == old(self).moderators@,
            final(self).admins@ == old(self).admins@,
            final(self).sessions@ == old(self).sessions@,
            final(self).audit@ == old(self).audit@,
            added ==> final(self).community_exists(c.id) && final(self).spec_community(c.id) == c,
    {
        if self.has_community(c.id) {
            return false;
        }
        let ghost pre = self.communities@;
        self.communities.push(c);
        proof {
            assert forall|i: int, j: int|
                0 <= i < j < self.communities@.len() implies self.communities@[i].id
                != self.communities@[j].id by {
                if j == pre.len() {
                    assert(pre[i] == self.communities@[i]);
                    assert(old(self).community_exists(self.communities@[i].id)) by {
                        old(self).lemma_community_index_of(i);
                    }
                }
            }
            assert forall|i: int|
                0 <= i < self.posts@.len() implies self.community_exists(
                #[trigger] self.posts@[i].community_id) by {
                let m = old(self).community_index(self.posts@[i].community_id);
                assert(self.communities@[m] == pre[m]);
            }
            self.lemma_community_index_of(pre.len() as int);
        }
        true
    }

    /// Whether a community with this id exists.
    pub fn has_community(&self, id: u64) -> (r: bool)
        requires
            self.wf(),
        ensures
            r == self.community_exists(id),
    {
        let mut i: usize = 0;
        while i < self.communities.len()
            invariant
                i <= self.communities@.len(),
                forall|k: int| 0 <= k < i ==> self.communities@[k].id != id,
            decreases self.communities@.len() - i,
        {
            if self.communities[i].id == id {
                assert(self.community_exists(id));
                return true;
            }
            i += 1;
        }
        false
    }

    /// Read a community row.
    pub fn read_community(&self, id: u64) -> (r: Option<CommunityRecord>)
        requires
            self.wf(),
        ensures
            match r {
                Some(c) => self.community_exists(id) && c == self.spec_community(id),
                None => !self.community_exists(id),
            },
    {
        let mut i: usize = 0;
        while i < self.communities.len()
            invariant
                self.wf(),
                i <= self.communities@.len(),
                forall|k: int| 0 <= k < i ==> self.communities@[k].id != id,
            decreases self.communities@.len() - i,
        {
            if self.communities[i].id == id {
                proof {
                    self.lemma_community_index_of(i as int);
                }
                return Some(self.communities[i]);
            }
            i += 1;
        }
        None
    }

    /// Add a post row; refused when the id is taken or the community is
    /// unknown.
    pub fn add_post(&mut self, p: PostRecord) -> (added: bool)
        requires
            old(self).wf(),
        ensures
            final(self).wf(),
            added == (!old(self).has_post(p.id) && old(self).community_exists(p.community_id)),
            added ==> final(self).posts@ == old(self).posts@.push(p),
            !added ==> final(self).posts@ == old(self).posts@,
            final(self).communities@ == old(self).communities@,
            final(self).bans@ == old(self).bans@,
            final(self).moderators@ == old(self).moderators@,
            final(self).admins@ == old(self).admins@,
            final(self).sessions@ == old(self).sessions@,
            final(self).audit@ == old(self).audit@,
            added ==> final(self).has_post(p.id) && final(self).spec_post(p.id) == p,
    {
        if self.find_post(p.id).is_some() {
            return false;
        }
        if !self.has_community(p.community_id) {
            return false;
        }
        let ghost pre = self.posts@;
        self.posts.push(p);
        proof {
            assert forall|i: int, j: int|
                0 <= i < j < self.posts@.len() implies self.posts@[i].id != self.posts@[j].id by {
                if j == pre.len() {
                    assert(pre[i] == self.posts@[i]);
                    assert(old(self).has_post(self.posts@[i].id)) by {
                        old(self).lemma_post_index_of(i);
                    }
                }
            }
            assert forall|i: int|
                0 <= i < self.posts@.len() implies self.community_exists(
                #[trigger] self.posts@[i].community_id) by {
                if i < pre.len() {
                    assert(self.posts@[i] == pre[i]);
                    assert(old(self).community_exists(pre[i].community_id));
                    let m = old(self).community_index(pre[i].community_id);
                    assert(self.communities@[m].id == self.posts@[i].community_id);
                } else {
                    assert(self.posts@[i] == p);
                    let m = old(self).community_index(p.community_id);
                    assert(self.communities@[m].id == p.community_id);
                }
            }
            self.lemma_post_index_of(pre.len() as int);
        }
        true
    }

    /// Position of the post with this id, if any.
    fn find_post(&self, id: u64) -> (r: Option<usize>)
        requires
            self.wf(),
        ensures
            match r {
                Some(k) => self.has_post(id) && self.post_index(id) == k && k < self.posts@.len()
                    && self.posts@[k as int].id == id,
                None => !self.has_post(id),
            },
    {
        let mut i: usize = 0;
        while i < self.posts.len()
            invariant
                self.wf(),
                i <= self.posts@.len(),
                forall|k: int| 0 <= k < i ==> self.posts@[k].id != id,
            decreases self.posts@.len() - i,
        {
            if self.posts[i].id == id {
                proof {
                    self.lemma_post_index_of(i as int);
                }
                return Some(i);
            }
            i += 1;
        }
        None
    }

    /// Read a post row; `None` when no post has this id.
    pub fn read_post(&self, id: u64) -> (r: Option<PostRecord>)
        requires
            self.wf(),
        ensures
            match r {
                Some(p) => self.has_post(id) && p == self.spec_post(id),
                None => !self.has_post(id),
            },
    {
        match self.find_post(id) {
            Some(k) => Some(self.posts[k]),
            None => None,
        }
    }

    /// Record that `person` is banned from `community`.
    pub fn add_ban(&mut self, person: u64, community: u64)
        requires
            old(self).wf(),
        ensures
            final(self).wf(),
            final(self).is_banned(person, community),
            forall|p: u64, c: u64|
                final(self).is_banned(p, c) <==> (old(self).is_banned(p, c) || (p == person && c
                    == community)),
            final(self).posts@ == old(self).posts@,
            final(self).communities@ == old(self).communities@,
            final(self).moderators@ == old(self).moderators@,
            final(self).admins@ == old(self).admins@,
            final(self).sessions@ == old(self).sessions@,
            final(self).audit@ == old(self).audit@,
    {
        let ghost pre = self.bans@;
        if !contains_pair(&self.bans, person, community) {
            self.bans.push((person, community));
            proof {
                assert(self.bans@.last() == (person, community));
                assert forall|p: u64, c: u64|
                    self.is_banned(p, c) <==> (old(self).is_banned(p, c) || (p == person
                        && c == community)) by {
                    crate::registry::lemma_push_contains(pre, (person, community), (p, c));
                }
            }
        }
    }

    /// Record that `person` moderates `community`.
    pub fn add_moderator(&mut self, person: u64, community: u64)
        requires
            old(self).wf(),
        ensures
            final(self).wf(),
            final(self).is_moderator(person, community),
            forall|p: u64, c: u64|
                final(self).is_moderator(p, c) <==> (old(self).is_moderator(p, c) || (p == person
                    && c == community)),
            final(self).posts@ == old(self).posts@,
            final(self).communities@ == old(self).communities@,
            final(self).bans@ == old(self).bans@,
            final(self).admins@ == old(self).admins@,
            final(self).sessions@ == old(self).sessions@,
            final(self).audit@ == old(self).audit@,
    {
        let ghost pre = self.moderators@;
        if !contains_pair(&self.moderators, person, community) {
            self.moderators.push((person, community));
            proof {
                assert(self.moderators@.last() == (person, community));
                assert forall|p: u64, c: u64|
                    self.is_moderator(p, c) <==> (old(self).is_moderator(p, c) || (p
                        == person && c == community)) by {
                    crate::registry::lemma_push_contains(pre, (person, community), (p, c));
                }
            }
        }
    }

    /// Record that `person` is a site admin.
    pub fn add_admin(&mut self, person: u64)
        requires
            old(self).wf(),
        ensures
            final(self).wf(),
            final(self).is_admin(person),
            forall|p: u64| final(self).is_admin(p) <==> (old(self).is_admin(p) || p == person),
            final(self).posts@ == old(self).posts@,
            final(self).communities@ == old(self).communities@,
            final(self).bans@ == old(self).bans@,
            final(self).moderators@ == old(self).moderators@,
            final(self).sessions@ == old(self).sessions@,
            final(self).audit@ == old(self).audit@,
    {
        let ghost pre = self.admins@;
        if !contains_u64(&self.admins, person) {
            self.admins.push(person);
            proof {
                assert(self.admins@.last() == person);
                assert forall|p: u64|
                    self.is_admin(p) <==> (old(self).is_admin(p) || p == person) by {
                    crate::registry::lemma_push_contains(pre, person, p);
                }
            }
        }
    }

    /// Record that credential `token` authenticates `person`; refused when
    /// the token is taken.
    pub fn add_session(&mut self, token: u64, person: u64) -> (added: bool)
        requires
            old(self).wf(),
        ensures
            final(self).wf(),
            added == !old(self).has_session(token),
            added ==> final(self).sessions@ == old(self).sessions@.push((token, person)),
            !added ==> final(self).sessions@ == old(self).sessions@,
            added ==> final(self).spec_resolve(token) == Some(person),
            final(self).posts@ == old(self).posts@,
            final(self).communities@ == old(self).communities@,
            final(self).bans@ == old(self).bans@,
            final(self).moderators@ == old(self).moderators@,
            final(self).admins@ == old(self).admins@,
            final(self).audit@ == old(self).audit@,
    {
        if self.find_session(token).is_some() {
            return false;
        }
        let ghost pre = self.sessions@;
        self.sessions.push((token, person));
        proof {
            assert forall|i2: int, j2: int|
                0 <= i2 < j2 < self.sessions@.len() implies self.sessions@[i2].0
                != self.sessions@[j2].0 by {
                if j2 == pre.len() {
                    assert(pre[i2] == self.sessions@[i2]);
                }
            }
            self.lemma_session_index_of(pre.len() as int);
        }
        true
    }

    /// Position of the session with this token, if any.
    fn find_session(&self, token: u64) -> (r: Option<usize>)
        requires
            self.wf(),
        ensures
            match r {
                Some(k) => self.has_session(token) && self.session_index(token) == k && k
                    < self.sessions@.len() && self.sessions@[k as int].0 == token,
                None => !self.has_session(token),
            },
    {
        let mut i: usize = 0;
        while i < self.sessions.len()
            invariant
                self.wf(),
                i <= self.sessions@.len(),
                forall|k: int| 0 <= k < i ==> self.sessions@[k].0 != token,
            decreases self.sessions@.len() - i,
        {
            if self.sessions[i].0 == token {
                proof {
                    self.lemma_session_index_of(i as int);
                }
                return Some(i);
            }
            i += 1;
        }
        None
    }

    /// Resolve a credential token to a person id.
    pub fn resolve(&self, token: u64) -> (r: Option<u64>)
        requires
            self.wf(),
        ensures
            r == self.spec_resolve(token),
    {
        match self.find_session(token) {
            Some(k) => Some(self.sessions[k].1),
            None => None,
        }
    }

    /// Set the post's `locked` field and append the audit record, as one
    /// atomic unit: on failure neither effect is visible. Fails only when
    /// the post does not exist.
    pub fn apply_lock(&mut self, actor_id: u64, post_id: u64, locked: bool, timestamp: u64) -> (r:
        Result<PostRecord, OpError>)
        requires
            old(self).wf(),
        ensures
            final(self).wf(),
            final(self).communities@ == old(self).communities@,
            final(self).bans@ == old(self).bans@,
            final(self).moderators@ == old(self).moderators@,
            final(self).admins@ == old(self).admins@,
            final(self).sessions@ == old(self).sessions@,
            r is Ok <==> old(self).has_post(post_id),
            match r {
                Ok(p) => {
                    &&& p == (PostRecord {
                        id: post_id,
                        community_id: old(self).spec_post(post_id).community_id,
                        locked,
                    })
                    &&& forall|pid: u64| final(self).has_post(pid) <==> old(self).has_post(pid)
                    &&& final(self).spec_post(post_id) == p
                    &&& forall|pid: u64|
                        pid != post_id && old(self).has_post(pid) ==> final(self).spec_post(pid)
                            == old(self).spec_post(pid)
                    &&& final(self).posts@.len() == old(self).posts@.len()
                    &&& final(self).audit@ == old(self).audit@.push(
                        lock_audit_record(actor_id, post_id, locked, timestamp),
                    )
                },
                Err(e) => {
                    &&& e == OpError::MutationFailed
                    &&& final(self).posts@ == old(self).posts@
                    &&& final(self).audit@ == old(self).audit@
                },
            },
    {
        let ghost orig = self.posts@;
        match self.find_post(post_id) {
            Some(k) => {
                let row = self.posts.remove(k);
                let updated = PostRecord { id: row.id, community_id: row.community_id, locked };
                self.posts.insert(k, updated);
                self.audit.push(
                    AuditRecord {
                        actor_id,
                        target_id: post_id,
                        action: OpKind::LockPost,
                        locked,
                        timestamp,
                    },
                );
                proof {
                    assert(self.posts@ =~= orig.update(k as int, updated));
                    assert forall|i: int, j: int|
                        0 <= i < j < self.posts@.len() implies self.posts@[i].id
                        != self.posts@[j].id by {
                        assert(self.posts@[i].id == orig[i].id);
                        assert(self.posts@[j].id == orig[j].id);
                    }
                    assert forall|i: int|
                        0 <= i < self.posts@.len() implies self.community_exists(
                        #[trigger] self.posts@[i].community_id) by {
                        assert(self.posts@[i].community_id == orig[i].community_id);
                        assert(old(self).community_exists(orig[i].community_id));
                        let m = old(self).community_index(orig[i].community_id);
                        assert(self.communities@[m].id == orig[i].community_id);
                    }
                    self.lemma_post_index_of(k as int);
                    assert forall|pid: u64|
                        self.has_post(pid) <==> old(self).has_post(pid) by {
                        if old(self).has_post(pid) {
                            let m = old(self).post_index(pid);
                            assert(self.posts@[m].id == orig[m].id);
                        }
                        if self.has_post(pid) {
                            let m = self.post_index(pid);
                            assert(orig[m].id == self.posts@[m].id);
                        }
                    }
                    assert forall|pid: u64|
                        pid != post_id && old(self).has_post(pid) implies self.spec_post(
                        pid,
                    ) == old(self).spec_post(pid) by {
                        let m = old(self).post_index(pid);
                        old(self).lemma_post_index_of(m);
                        assert(self.posts@[m].id == pid);
                        self.lemma_post_index_of(m);
                        assert(m != k);
                        assert(self.posts@[m] == orig[m]);
                    }
                }
                Ok(updated)
            },
            None => Err(OpError::MutationFailed),
        }
    }

    /// Number of audit records written so far.
    pub fn audit_len(&self) -> (r: usize)
        ensures
            r == self.audit@.len(),
    {
        self.audit.len()
    }

    /// The `i`-th audit record, oldest first.
    pub fn audit_at(&self, i: usize) -> (r: AuditRecord)
        requires
            i < self.audit@.len(),
        ensures
            r == self.audit@[i as int],
    {
        self.audit[i]
    }
}

} // verus!
