use ops_hub::hub::Notification;
use ops_hub::hub::RoomHub;
use ops_hub::ops::GuardReason;
use ops_hub::ops::JoinResponse;
use ops_hub::ops::LockPostOp;
use ops_hub::ops::OpError;
use ops_hub::ops::OpKind;
use ops_hub::ops::OpOutcome;
use ops_hub::ops::Operation;
use ops_hub::ops::PostJoinOp;
use ops_hub::ops::PostResponse;
use ops_hub::ops::UserJoinOp;
use ops_hub::ops::CommunityJoinOp;
use ops_hub::ops::ModJoinOp;
use ops_hub::pipeline::dispatch;
use ops_hub::pipeline::perform_community_join;
use ops_hub::pipeline::perform_lock_post;
use ops_hub::pipeline::perform_mod_join;
use ops_hub::pipeline::perform_post_join;
use ops_hub::pipeline::perform_user_join;
use ops_hub::registry::Room;
use ops_hub::registry::RoomKind;
use ops_hub::registry::SessionRegistry;
use ops_hub::store::AuditRecord;
use ops_hub::store::CommunityRecord;
use ops_hub::store::PostRecord;
use ops_hub::store::StateStore;

const COMMUNITY: u64 = 7;
const POST: u64 = 3;
const MOD_PERSON: u64 = 42;
const MOD_TOKEN: u64 = 10;
const PLAIN_PERSON: u64 = 55;
const PLAIN_TOKEN: u64 = 11;

fn post_room(id: u64) -> Room {
    Room { kind: RoomKind::Post, entity_id: id }
}

/// Community 7 with unlocked post 3; person 42 is a moderator reachable
/// via token 10; person 55 holds no role, via token 11.
fn fixture() -> StateStore {
    let mut s = StateStore::new();
    assert!(s.add_community(CommunityRecord {
        id: COMMUNITY,
        removed: false,
        deleted: false,
    }));
    assert!(s.add_post(PostRecord {
        id: POST,
        community_id: COMMUNITY,
        locked: false,
    }));
    assert!(s.add_session(MOD_TOKEN, MOD_PERSON));
    assert!(s.add_session(PLAIN_TOKEN, PLAIN_PERSON));
    s.add_moderator(MOD_PERSON, COMMUNITY);
    s
}

fn registry_with_members(conns: &[u64]) -> SessionRegistry {
    let mut reg = SessionRegistry::new();
    for &c in conns {
        reg.register(c);
        reg.join(c, post_room(POST)).unwrap();
    }
    reg
}

#[test]
fn moderator_locks_post_and_room_is_notified() {
    let mut store = fixture();
    let reg = registry_with_members(&[100, 101]);
    let mut hub = RoomHub::new();
    let op = LockPostOp {
        auth: MOD_TOKEN,
        post_id: POST,
        locked: true,
    };
    let r = perform_lock_post(&mut store, &reg, &mut hub, op, None, 777);
    assert_eq!(
        r,
        Ok(PostResponse {
            post_id: POST,
            locked: true,
            success: true,
        })
    );
    assert_eq!(store.read_post(POST).unwrap().locked, true);
    assert_eq!(store.audit_len(), 1);
    assert_eq!(
        store.audit_at(0),
        AuditRecord {
            actor_id: MOD_PERSON,
            target_id: POST,
            action: OpKind::LockPost,
            locked: true,
            timestamp: 777,
        }
    );
    let expected = Notification {
        kind: OpKind::LockPost,
        target_id: POST,
        locked: true,
        origin: None,
    };
    for conn in [100, 101] {
        assert_eq!(hub.outbox_len(conn), 1);
        assert_eq!(hub.outbox_at(conn, 0), expected);
    }
}

#[test]
fn non_moderator_is_rejected_with_no_effects() {
    let mut store = fixture();
    let reg = registry_with_members(&[100]);
    let mut hub = RoomHub::new();
    let op = LockPostOp {
        auth: PLAIN_TOKEN,
        post_id: POST,
        locked: true,
    };
    let r = perform_lock_post(&mut store, &reg, &mut hub, op, None, 777);
    assert_eq!(r, Err(OpError::GuardRejected(GuardReason::InsufficientRole)));
    assert_eq!(store.read_post(POST).unwrap().locked, false);
    assert_eq!(store.audit_len(), 0);
    assert_eq!(hub.outbox_len(100), 0);
}

#[test]
fn banned_moderator_is_rejected_as_banned() {
    let mut store = fixture();
    store.add_ban(MOD_PERSON, COMMUNITY);
    let reg = SessionRegistry::new();
    let mut hub = RoomHub::new();
    let op = LockPostOp {
        auth: MOD_TOKEN,
        post_id: POST,
        locked: true,
    };
    let r = perform_lock_post(&mut store, &reg, &mut hub, op, None, 0);
    assert_eq!(r, Err(OpError::GuardRejected(GuardReason::ActorBanned)));
    assert_eq!(store.audit_len(), 0);
}

#[test]
fn removed_community_rejects_the_lock() {
    let mut store = StateStore::new();
    assert!(store.add_community(CommunityRecord {
        id: COMMUNITY,
        removed: true,
        deleted: false,
    }));
    assert!(store.add_post(PostRecord {
        id: POST,
        community_id: COMMUNITY,
        locked: false,
    }));
    assert!(store.add_session(MOD_TOKEN, MOD_PERSON));
    store.add_moderator(MOD_PERSON, COMMUNITY);
    let reg = SessionRegistry::new();
    let mut hub = RoomHub::new();
    let op = LockPostOp {
        auth: MOD_TOKEN,
        post_id: POST,
        locked: true,
    };
    let r = perform_lock_post(&mut store, &reg, &mut hub, op, None, 0);
    assert_eq!(r, Err(OpError::GuardRejected(GuardReason::CommunityRemoved)));
}

#[test]
fn unknown_credential_is_unauthenticated() {
    let mut store = fixture();
    let reg = SessionRegistry::new();
    let mut hub = RoomHub::new();
    let op = LockPostOp {
        auth: 9999,
        post_id: POST,
        locked: true,
    };
    let r = perform_lock_post(&mut store, &reg, &mut hub, op, None, 0);
    assert_eq!(r, Err(OpError::Unauthenticated));
    assert_eq!(store.audit_len(), 0);
}

#[test]
fn missing_post_is_not_found() {
    let mut store = fixture();
    let reg = SessionRegistry::new();
    let mut hub = RoomHub::new();
    let op = LockPostOp {
        auth: MOD_TOKEN,
        post_id: 9999,
        locked: true,
    };
    let r = perform_lock_post(&mut store, &reg, &mut hub, op, None, 0);
    assert_eq!(r, Err(OpError::NotFound));
}

#[test]
fn lock_from_live_connection_skips_the_origin() {
    let mut store = fixture();
    let reg = registry_with_members(&[100, 101]);
    let mut hub = RoomHub::new();
    let op = LockPostOp {
        auth: MOD_TOKEN,
        post_id: POST,
        locked: true,
    };
    let r = perform_lock_post(&mut store, &reg, &mut hub, op, Some(100), 1);
    assert!(r.is_ok());
    assert_eq!(hub.outbox_len(100), 0);
    assert_eq!(hub.outbox_len(101), 1);
    assert_eq!(
        hub.outbox_at(101, 0),
        Notification {
            kind: OpKind::LockPost,
            target_id: POST,
            locked: true,
            origin: Some(100),
        }
    );
}

#[test]
fn unlock_writes_its_own_audit_record() {
    let mut store = fixture();
    let reg = SessionRegistry::new();
    let mut hub = RoomHub::new();
    let lock = LockPostOp {
        auth: MOD_TOKEN,
        post_id: POST,
        locked: true,
    };
    perform_lock_post(&mut store, &reg, &mut hub, lock, None, 1).unwrap();
    let unlock = LockPostOp {
        auth: MOD_TOKEN,
        post_id: POST,
        locked: false,
    };
    perform_lock_post(&mut store, &reg, &mut hub, unlock, None, 2).unwrap();
    assert_eq!(store.read_post(POST).unwrap().locked, false);
    assert_eq!(store.audit_len(), 2);
    assert_eq!(store.audit_at(0).locked, true);
    assert_eq!(store.audit_at(1).locked, false);
}

#[test]
fn apply_lock_on_missing_post_leaves_no_trace() {
    let mut store = fixture();
    let r = store.apply_lock(MOD_PERSON, 9999, true, 0);
    assert_eq!(r, Err(OpError::MutationFailed));
    assert_eq!(store.audit_len(), 0);
    assert_eq!(store.read_post(POST).unwrap().locked, false);
}

#[test]
fn user_join_requires_a_valid_credential() {
    let store = fixture();
    let mut reg = SessionRegistry::new();
    reg.register(100);
    let bad = perform_user_join(&store, &mut reg, UserJoinOp { auth: 9999 }, Some(100));
    assert_eq!(bad, Err(OpError::Unauthenticated));
    let good = perform_user_join(&store, &mut reg, UserJoinOp { auth: MOD_TOKEN }, Some(100));
    assert_eq!(good, Ok(JoinResponse { joined: true }));
    let members = reg.members(Room {
        kind: RoomKind::User,
        entity_id: MOD_PERSON,
    });
    assert_eq!(members, vec![100]);
}

#[test]
fn plain_joins_need_no_credential() {
    let mut reg = SessionRegistry::new();
    reg.register(100);
    let c = perform_community_join(&mut reg, CommunityJoinOp { community_id: COMMUNITY }, Some(100));
    assert_eq!(c, Ok(JoinResponse { joined: true }));
    let m = perform_mod_join(&mut reg, ModJoinOp { community_id: COMMUNITY }, Some(100));
    assert_eq!(m, Ok(JoinResponse { joined: true }));
    let p = perform_post_join(&mut reg, PostJoinOp { post_id: POST }, Some(100));
    assert_eq!(p, Ok(JoinResponse { joined: true }));
    assert_eq!(
        reg.members(Room {
            kind: RoomKind::Community,
            entity_id: COMMUNITY,
        }),
        vec![100]
    );
    assert_eq!(
        reg.members(Room {
            kind: RoomKind::Moderator,
            entity_id: COMMUNITY,
        }),
        vec![100]
    );
    assert_eq!(reg.members(post_room(POST)), vec![100]);
}

#[test]
fn join_without_live_connection_changes_nothing() {
    let mut reg = SessionRegistry::new();
    reg.register(100);
    let r = perform_post_join(&mut reg, PostJoinOp { post_id: POST }, None);
    assert_eq!(r, Ok(JoinResponse { joined: true }));
    assert_eq!(reg.members(post_room(POST)).len(), 0);
}

#[test]
fn join_racing_a_disconnect_is_swallowed() {
    let mut reg = SessionRegistry::new();
    let r = perform_post_join(&mut reg, PostJoinOp { post_id: POST }, Some(100));
    assert_eq!(r, Ok(JoinResponse { joined: true }));
    assert_eq!(reg.members(post_room(POST)).len(), 0);
}

#[test]
fn dispatch_routes_each_operation() {
    let mut store = fixture();
    let mut reg = SessionRegistry::new();
    reg.register(100);
    let mut hub = RoomHub::new();
    let join = dispatch(
        &mut store,
        &mut reg,
        &mut hub,
        Operation::PostJoin(PostJoinOp { post_id: POST }),
        Some(100),
        0,
    );
    assert_eq!(join, Ok(OpOutcome::Join(JoinResponse { joined: true })));
    let lock = dispatch(
        &mut store,
        &mut reg,
        &mut hub,
        Operation::LockPost(LockPostOp {
            auth: MOD_TOKEN,
            post_id: POST,
            locked: true,
        }),
        None,
        5,
    );
    assert_eq!(
        lock,
        Ok(OpOutcome::Post(PostResponse {
            post_id: POST,
            locked: true,
            success: true,
        }))
    );
    assert_eq!(hub.outbox_len(100), 1);
    let user = dispatch(
        &mut store,
        &mut reg,
        &mut hub,
        Operation::UserJoin(UserJoinOp { auth: 9999 }),
        Some(100),
        0,
    );
    assert_eq!(user, Err(OpError::Unauthenticated));
    let comm = dispatch(
        &mut store,
        &mut reg,
        &mut hub,
        Operation::CommunityJoin(CommunityJoinOp { community_id: COMMUNITY }),
        Some(100),
        0,
    );
    assert_eq!(comm, Ok(OpOutcome::Join(JoinResponse { joined: true })));
    let md = dispatch(
        &mut store,
        &mut reg,
        &mut hub,
        Operation::ModJoin(ModJoinOp { community_id: COMMUNITY }),
        Some(100),
        0,
    );
    assert_eq!(md, Ok(OpOutcome::Join(JoinResponse { joined: true })));
}

#[test]
fn resolve_maps_tokens_to_people() {
    let store = fixture();
    assert_eq!(store.resolve(MOD_TOKEN), Some(MOD_PERSON));
    assert_eq!(store.resolve(PLAIN_TOKEN), Some(PLAIN_PERSON));
    assert_eq!(store.resolve(9999), None);
}
