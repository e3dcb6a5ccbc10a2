//! The operation pipeline: resolve the actor, load the target, run the
//! guard chain, apply the mutation together with its audit record, and
//! publish the result to the target's room. A guard rejection or a missing
//! target stops the pipeline before any mutation, audit record or publish.
//!
//! Join-style operations run a simpler pipeline: resolve the actor where
//! the room demands it, then join the room; a join racing a disconnect is
//! reported by the registry and swallowed here, as the transport expects.

use vstd::prelude::*;

use crate::guard::eval_chain;
use crate::guard::spec_chain;
use crate::guard::GuardKind;
use crate::hub::Notification;
use crate::hub::RoomHub;
use crate::ops::CommunityJoinOp;
use crate::ops::JoinResponse;
use crate::ops::LockPostOp;
use crate::ops::ModJoinOp;
use crate::ops::OpError;
use crate::ops::OpKind;
use crate::ops::OpOutcome;
use crate::ops::Operation;
use crate::ops::PostJoinOp;
use crate::ops::PostResponse;
use crate::ops::UserJoinOp;
use crate::registry::Room;
use crate::registry::RoomKind;
use crate::registry::SessionRegistry;
use crate::store::lock_audit_record;
use crate::store::PostRecord;
use crate::store::StateStore;

verus! {

/// The room of one user's own events.
pub open spec fn user_room(person: u64) -> Room {
    Room { kind: RoomKind::User, entity_id: person }
}

/// The room of a community's events.
pub open spec fn community_room(community_id: u64) -> Room {
    Room { kind: RoomKind::Community, entity_id: community_id }
}

/// The room of a community's moderation events.
pub open spec fn mod_room(community_id: u64) -> Room {
    Room { kind: RoomKind::Moderator, entity_id: community_id }
}

/// The room of a post's events.
pub open spec fn post_room(post_id: u64) -> Room {
    Room { kind: RoomKind::Post, entity_id: post_id }
}

/// The guard chain of the lock operation, cheapest and most fundamental
/// check first: ban status, community liveness, then role.
pub open spec fn lock_chain() -> Seq<GuardKind> {
    seq![GuardKind::ActorNotBanned, GuardKind::CommunityActive, GuardKind::ActorModOrAdmin]
}

/// The lock chain as the pipeline evaluates it.
pub fn lock_guard_chain() -> (r: Vec<GuardKind>)
    ensures
        r@ == lock_chain(),
{
    let mut v: Vec<GuardKind> = Vec::new();
    v.push(GuardKind::ActorNotBanned);
    v.push(GuardKind::CommunityActive);
    v.push(GuardKind::ActorModOrAdmin);
    proof {
        assert(v@ =~= lock_chain());
    }
    v
}

/// How a lock operation is decided, before any effect: who the actor is,
/// whether the target exists, and what the guard chain says. `Ok` carries
/// the resolved actor.
pub open spec fn lock_decision(s: StateStore, op: LockPostOp) -> Result<u64, OpError> {
    match s.spec_resolve(op.auth) {
        None => Err(OpError::Unauthenticated),
        Some(actor) => if !s.has_post(op.post_id) {
            Err(OpError::NotFound)
        } else {
            match spec_chain(s, lock_chain(), actor, s.spec_post(op.post_id).community_id) {
                Some(reason) => Err(OpError::GuardRejected(reason)),
                None => Ok(actor),
            }
        },
    }
}

/// The notification a lock operation publishes to the post's room.
pub open spec fn lock_notification(op: LockPostOp, origin: Option<u64>) -> Notification {
    Notification { kind: OpKind::LockPost, target_id: op.post_id, locked: op.locked, origin }
}

/// No field of the store changed.
pub open spec fn store_unchanged(s0: StateStore, s1: StateStore) -> bool {
    &&& s1.posts@ == s0.posts@
    &&& s1.communities@ == s0.communities@
    &&& s1.bans@ == s0.bans@
    &&& s1.moderators@ == s0.moderators@
    &&& s1.admins@ == s0.admins@
    &&& s1.sessions@ == s0.sessions@
    &&& s1.audit@ == s0.audit@
}

/// The whole observable effect of a lock operation. On a rejection the
/// store and the hub are untouched; on success the post is locked as
/// requested, exactly one audit record is appended with the exact actor,
/// target and new state, and every current member of the post's room other
/// than the originating connection receives the notification exactly once.
pub open spec fn lock_post_effect(
    s0: StateStore,
    h0: RoomHub,
    reg: SessionRegistry,
    op: LockPostOp,
    origin: Option<u64>,
    now: u64,
    s1: StateStore,
    h1: RoomHub,
    r: Result<PostResponse, OpError>,
) -> bool {
    &&& s1.communities@ == s0.communities@
    &&& s1.bans@ == s0.bans@
    &&& s1.moderators@ == s0.moderators@
    &&& s1.admins@ == s0.admins@
    &&& s1.sessions@ == s0.sessions@
    &&& match lock_decision(s0, op) {
        Err(e) => {
            &&& r == Err::<PostResponse, OpError>(e)
            &&& store_unchanged(s0, s1)
            &&& h1.outboxes@ == h0.outboxes@
        },
        Ok(actor) => {
            &&& r == Ok::<PostResponse, OpError>(
                PostResponse { post_id: op.post_id, locked: op.locked, success: true },
            )
            &&& forall|pid: u64| s1.has_post(pid) <==> s0.has_post(pid)
            &&& s1.spec_post(op.post_id) == (PostRecord {
                id: op.post_id,
                community_id: s0.spec_post(op.post_id).community_id,
                locked: op.locked,
            })
            &&& forall|pid: u64|
                pid != op.post_id && s0.has_post(pid) ==> s1.spec_post(pid) == s0.spec_post(pid)
            &&& s1.posts@.len() == s0.posts@.len()
            &&& s1.audit@ == s0.audit@.push(lock_audit_record(actor, op.post_id, op.locked, now))
            &&& forall|c: u64|
                reg.is_member(post_room(op.post_id), c) && origin != Some(c) ==> h1.outbox_of(c)
                    == h0.outbox_of(c).push(lock_notification(op, origin))
            &&& forall|c: u64|
                !(reg.is_member(post_room(op.post_id), c) && origin != Some(c)) ==> h1.outbox_of(c)
                    == h0.outbox_of(c)
        },
    }
}

/// Lock or unlock a post: resolve the actor from `op.auth`, load the post,
/// run the guard chain, then atomically update the post and append the
/// audit record, and finally publish to the post's room, excluding the
/// originating connection. `now` is the host clock's timestamp for the
/// audit record.
pub fn perform_lock_post(
    store: &mut StateStore,
    registry: &SessionRegistry,
    hub: &mut RoomHub,
    op: LockPostOp,
    origin: Option<u64>,
    now: u64,
) -> (r: Result<PostResponse, OpError>)
    requires
        old(store).wf(),
        registry.wf(),
        old(hub).wf(),
    ensures
        final(store).wf(),
        final(hub).wf(),
        lock_post_effect(
            *old(store),
            *old(hub),
            *registry,
            op,
            origin,
            now,
            *final(store),
            *final(hub),
            r,
        ),
{
    let actor = match store.resolve(op.auth) {
        Some(a) => a,
        None => {
            return Err(OpError::Unauthenticated);
        },
    };
    let orig_post = match store.read_post(op.post_id) {
        Some(p) => p,
        None => {
            return Err(OpError::NotFound);
        },
    };
    proof {
        let k = store.post_index(op.post_id);
        assert(store.posts@[k].community_id == orig_post.community_id);
        assert(store.community_exists(orig_post.community_id));
    }
    let chain = lock_guard_chain();
    if let Some(reason) = eval_chain(store, &chain, actor, orig_post.community_id) {
        return Err(OpError::GuardRejected(reason));
    }
    let updated = match store.apply_lock(actor, op.post_id, op.locked, now) {
        Ok(p) => p,
        Err(e) => {
            return Err(e);
        },
    };
    let note = Notification {
        kind: OpKind::LockPost,
        target_id: op.post_id,
        locked: op.locked,
        origin,
    };
    let room = Room { kind: RoomKind::Post, entity_id: op.post_id };
    match origin {
        Some(conn) => hub.publish_excluding(registry, room, note, conn),
        None => hub.publish(registry, room, note),
    }
    Ok(PostResponse { post_id: op.post_id, locked: op.locked, success: true })
}

/// How a join changes the registry: nothing without a live connection,
/// nothing for an unknown connection (the race with a disconnect), and
/// otherwise exactly the one membership entry, idempotently.
pub open spec fn join_transition(
    reg0: SessionRegistry,
    reg1: SessionRegistry,
    room: Room,
    ws: Option<u64>,
) -> bool {
    match ws {
        None => reg1.connections@ == reg0.connections@ && reg1.memberships@ == reg0.memberships@,
        Some(id) => if reg0.registered(id) {
            &&& reg1.connections@ == reg0.connections@
            &&& reg0.is_member(room, id) ==> reg1.memberships@ == reg0.memberships@
            &&& !reg0.is_member(room, id) ==> reg1.memberships@ == reg0.memberships@.push(
                (room, id),
            )
            &&& forall|rm: Room, c: u64|
                reg1.is_member(rm, c) <==> (reg0.is_member(rm, c) || (rm == room && c == id))
        } else {
            reg1.connections@ == reg0.connections@ && reg1.memberships@ == reg0.memberships@
        },
    }
}

/// The whole observable effect of a user join: authentication decides, the
/// registry changes only by the one membership.
pub open spec fn user_join_effect(
    s: StateStore,
    reg0: SessionRegistry,
    reg1: SessionRegistry,
    op: UserJoinOp,
    ws: Option<u64>,
    r: Result<JoinResponse, OpError>,
) -> bool {
    match s.spec_resolve(op.auth) {
        None => {
            &&& r == Err::<JoinResponse, OpError>(OpError::Unauthenticated)
            &&& reg1.connections@ == reg0.connections@
            &&& reg1.memberships@ == reg0.memberships@
        },
        Some(person) => {
            &&& r == Ok::<JoinResponse, OpError>(JoinResponse { joined: true })
            &&& join_transition(reg0, reg1, user_room(person), ws)
        },
    }
}

/// The whole observable effect of an unauthenticated join.
pub open spec fn simple_join_effect(
    reg0: SessionRegistry,
    reg1: SessionRegistry,
    room: Room,
    ws: Option<u64>,
    r: Result<JoinResponse, OpError>,
) -> bool {
    &&& r == Ok::<JoinResponse, OpError>(JoinResponse { joined: true })
    &&& join_transition(reg0, reg1, room, ws)
}

/// Join the authenticated user's own room. The only join that demands a
/// credential.
pub fn perform_user_join(
    store: &StateStore,
    registry: &mut SessionRegistry,
    op: UserJoinOp,
    ws: Option<u64>,
) -> (r: Result<JoinResponse, OpError>)
    requires
        store.wf(),
        old(registry).wf(),
    ensures
        final(registry).wf(),
        user_join_effect(*store, *old(registry), *final(registry), op, ws, r),
{
    let person = match store.resolve(op.auth) {
        Some(p) => p,
        None => {
            return Err(OpError::Unauthenticated);
        },
    };
    if let Some(id) = ws {
        // An unknown connection here is a race with a disconnect: reported
        // by the registry, swallowed by the pipeline.
        match registry.join(id, Room { kind: RoomKind::User, entity_id: person }) {
            Ok(_) => (),
            Err(_) => (),
        }
    }
    Ok(JoinResponse { joined: true })
}

/// Join a community's room; no authentication required.
pub fn perform_community_join(
    registry: &mut SessionRegistry,
    op: CommunityJoinOp,
    ws: Option<u64>,
) -> (r: Result<JoinResponse, OpError>)
    requires
        old(registry).wf(),
    ensures
        final(registry).wf(),
        simple_join_effect(
            *old(registry),
            *final(registry),
            community_room(op.community_id),
            ws,
            r,
        ),
{
    if let Some(id) = ws {
        match registry.join(id, Room { kind: RoomKind::Community, entity_id: op.community_id }) {
            Ok(_) => (),
            Err(_) => (),
        }
    }
    Ok(JoinResponse { joined: true })
}

/// Join a community's moderator room; no authentication required.
pub fn perform_mod_join(registry: &mut SessionRegistry, op: ModJoinOp, ws: Option<u64>) -> (r:
    Result<JoinResponse, OpError>)
    requires
        old(registry).wf(),
    ensures
        final(registry).wf(),
        simple_join_effect(*old(registry), *final(registry), mod_room(op.community_id), ws, r),
{
    if let Some(id) = ws {
        match registry.join(id, Room { kind: RoomKind::Moderator, entity_id: op.community_id }) {
            Ok(_) => (),
            Err(_) => (),
        }
    }
    Ok(JoinResponse { joined: true })
}

/// Join a post's room; no authentication required.
pub fn perform_post_join(registry: &mut SessionRegistry, op: PostJoinOp, ws: Option<u64>) -> (r:
    Result<JoinResponse, OpError>)
    requires
        old(registry).wf(),
    ensures
        final(registry).wf(),
        simple_join_effect(*old(registry), *final(registry), post_room(op.post_id), ws, r),
{
    if let Some(id) = ws {
        match registry.join(id, Room { kind: RoomKind::Post, entity_id: op.post_id }) {
            Ok(_) => (),
            Err(_) => (),
        }
    }
    Ok(JoinResponse { joined: true })
}

/// Resolve an operation to its handler and run it. `conn` is the live
/// connection the operation arrived over, if any: joins subscribe it, and
/// the lock operation excludes it from its own notification.
pub fn dispatch(
    store: &mut StateStore,
    registry: &mut SessionRegistry,
    hub: &mut RoomHub,
    op: Operation,
    conn: Option<u64>,
    now: u64,
) -> (r: Result<OpOutcome, OpError>)
    requires
        old(store).wf(),
        old(registry).wf(),
        old(hub).wf(),
    ensures
        final(store).wf(),
        final(registry).wf(),
        final(hub).wf(),
        match op {
            Operation::LockPost(p) => {
                &&& final(registry).connections@ == old(registry).connections@
                &&& final(registry).memberships@ == old(registry).memberships@
                &&& match r {
                    Ok(out) => out matches OpOutcome::Post(resp) && lock_post_effect(
                        *old(store),
                        *old(hub),
                        *old(registry),
                        p,
                        conn,
                        now,
                        *final(store),
                        *final(hub),
                        Ok(resp),
                    ),
                    Err(e) => lock_post_effect(
                        *old(store),
                        *old(hub),
                        *old(registry),
                        p,
                        conn,
                        now,
                        *final(store),
                        *final(hub),
                        Err(e),
                    ),
                }
            },
            Operation::UserJoin(p) => {
                &&& store_unchanged(*old(store), *final(store))
                &&& final(hub).outboxes@ == old(hub).outboxes@
                &&& match r {
                    Ok(out) => out matches OpOutcome::Join(jr) && user_join_effect(
                        *old(store),
                        *old(registry),
                        *final(registry),
                        p,
                        conn,
                        Ok(jr),
                    ),
                    Err(e) => user_join_effect(
                        *old(store),
                        *old(registry),
                        *final(registry),
                        p,
                        conn,
                        Err(e),
                    ),
                }
            },
            Operation::CommunityJoin(p) => {
                &&& store_unchanged(*old(store), *final(store))
                &&& final(hub).outboxes@ == old(hub).outboxes@
                &&& match r {
                    Ok(out) => out matches OpOutcome::Join(jr) && simple_join_effect(
                        *old(registry),
                        *final(registry),
                        community_room(p.community_id),
                        conn,
                        Ok(jr),
                    ),
                    Err(_) => false,
                }
            },
            Operation::ModJoin(p) => {
                &&& store_unchanged(*old(store), *final(store))
                &&& final(hub).outboxes@ == old(hub).outboxes@
                &&& match r {
                    Ok(out) => out matches OpOutcome::Join(jr) && simple_join_effect(
                        *old(registry),
                        *final(registry),
                        mod_room(p.community_id),
                        conn,
                        Ok(jr),
                    ),
                    Err(_) => false,
                }
            },
            Operation::PostJoin(p) => {
                &&& store_unchanged(*old(store), *final(store))
                &&& final(hub).outboxes@ == old(hub).outboxes@
                &&& match r {
                    Ok(out) => out matches OpOutcome::Join(jr) && simple_join_effect(
                        *old(registry),
                        *final(registry),
                        post_room(p.post_id),
                        conn,
                        Ok(jr),
                    ),
                    Err(_) => false,
                }
            },
        },
{
    match op {
        Operation::LockPost(p) => {
            match perform_lock_post(store, &*registry, hub, p, conn, now) {
                Ok(resp) => Ok(OpOutcome::Post(resp)),
                Err(e) => Err(e),
            }
        },
        Operation::UserJoin(p) => {
            match perform_user_join(&*store, registry, p, conn) {
                Ok(jr) => Ok(OpOutcome::Join(jr)),
                Err(e) => Err(e),
            }
        },
        Operation::CommunityJoin(p) => {
            match perform_community_join(registry, p, conn) {
                Ok(jr) => Ok(OpOutcome::Join(jr)),
                Err(e) => Err(e),
            }
        },
        Operation::ModJoin(p) => {
            match perform_mod_join(registry, p, conn) {
                Ok(jr) => Ok(OpOutcome::Join(jr)),
                Err(e) => Err(e),
            }
        },
        Operation::PostJoin(p) => {
            match perform_post_join(registry, p, conn) {
                Ok(jr) => Ok(OpOutcome::Join(jr)),
                Err(e) => Err(e),
            }
        },
    }
}

} // verus!
