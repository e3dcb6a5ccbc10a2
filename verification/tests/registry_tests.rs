use ops_hub::ops::OpError;
use ops_hub::registry::Room;
use ops_hub::registry::RoomKind;
use ops_hub::registry::SessionRegistry;

fn post_room(id: u64) -> Room {
    Room { kind: RoomKind::Post, entity_id: id }
}

#[test]
fn register_is_idempotent() {
    let mut reg = SessionRegistry::new();
    assert!(reg.register(100));
    assert!(!reg.register(100));
    assert!(reg.is_registered(100));
    assert!(!reg.is_registered(101));
}

#[test]
fn join_unknown_connection_fails() {
    let mut reg = SessionRegistry::new();
    let r = reg.join(100, post_room(3));
    assert_eq!(r, Err(OpError::UnknownConnection));
    assert_eq!(reg.members(post_room(3)).len(), 0);
}

#[test]
fn duplicate_join_keeps_single_entry() {
    let mut reg = SessionRegistry::new();
    reg.register(100);
    assert_eq!(reg.join(100, post_room(3)), Ok(true));
    assert_eq!(reg.join(100, post_room(3)), Ok(false));
    let members = reg.members(post_room(3));
    assert_eq!(members, vec![100]);
}

#[test]
fn join_distinct_rooms_is_tracked_separately() {
    let mut reg = SessionRegistry::new();
    reg.register(100);
    reg.register(101);
    assert_eq!(reg.join(100, post_room(3)), Ok(true));
    assert_eq!(reg.join(101, post_room(3)), Ok(true));
    assert_eq!(reg.join(100, post_room(4)), Ok(true));
    let mut in_three = reg.members(post_room(3));
    in_three.sort();
    assert_eq!(in_three, vec![100, 101]);
    assert_eq!(reg.members(post_room(4)), vec![100]);
    assert_eq!(
        reg.members(Room { kind: RoomKind::Community, entity_id: 3 }).len(),
        0
    );
}

#[test]
fn unregister_removes_all_memberships() {
    let mut reg = SessionRegistry::new();
    reg.register(100);
    reg.register(101);
    reg.join(100, post_room(3)).unwrap();
    reg.join(100, post_room(4)).unwrap();
    reg.join(101, post_room(3)).unwrap();
    reg.unregister(100);
    assert!(!reg.is_registered(100));
    assert!(reg.is_registered(101));
    assert_eq!(reg.members(post_room(3)), vec![101]);
    assert_eq!(reg.members(post_room(4)).len(), 0);
    assert_eq!(reg.join(100, post_room(3)), Err(OpError::UnknownConnection));
}

#[test]
fn unregister_unknown_connection_is_harmless() {
    let mut reg = SessionRegistry::new();
    reg.register(100);
    reg.unregister(999);
    assert!(reg.is_registered(100));
}
