use ops_hub::hub::Notification;
use ops_hub::hub::RoomHub;
use ops_hub::ops::OpKind;
use ops_hub::registry::Room;
use ops_hub::registry::RoomKind;
use ops_hub::registry::SessionRegistry;

fn post_room(id: u64) -> Room {
    Room { kind: RoomKind::Post, entity_id: id }
}

fn note(target_id: u64, locked: bool) -> Notification {
    Notification {
        kind: OpKind::LockPost,
        target_id,
        locked,
        origin: None,
    }
}

#[test]
fn publish_reaches_each_member_exactly_once() {
    let mut reg = SessionRegistry::new();
    for conn in [100, 101, 102, 200] {
        reg.register(conn);
    }
    for conn in [100, 101, 102] {
        reg.join(conn, post_room(3)).unwrap();
    }
    let mut hub = RoomHub::new();
    hub.publish(&reg, post_room(3), note(3, true));
    for conn in [100, 101, 102] {
        assert_eq!(hub.outbox_len(conn), 1);
        assert_eq!(hub.outbox_at(conn, 0), note(3, true));
    }
    assert_eq!(hub.outbox_len(200), 0);
}

#[test]
fn publish_excluding_skips_exactly_the_excluded_member() {
    let mut reg = SessionRegistry::new();
    reg.register(100);
    reg.register(101);
    reg.join(100, post_room(3)).unwrap();
    reg.join(101, post_room(3)).unwrap();
    let mut hub = RoomHub::new();
    hub.publish_excluding(&reg, post_room(3), note(3, true), 100);
    assert_eq!(hub.outbox_len(100), 0);
    assert_eq!(hub.outbox_len(101), 1);
}

#[test]
fn successive_publishes_arrive_in_order() {
    let mut reg = SessionRegistry::new();
    reg.register(100);
    reg.register(101);
    reg.join(100, post_room(3)).unwrap();
    reg.join(101, post_room(3)).unwrap();
    let mut hub = RoomHub::new();
    hub.publish(&reg, post_room(3), note(3, true));
    hub.publish(&reg, post_room(3), note(3, false));
    for conn in [100, 101] {
        assert_eq!(hub.outbox_len(conn), 2);
        assert_eq!(hub.outbox_at(conn, 0), note(3, true));
        assert_eq!(hub.outbox_at(conn, 1), note(3, false));
    }
}

#[test]
fn publish_after_unregister_delivers_to_nobody() {
    let mut reg = SessionRegistry::new();
    reg.register(100);
    reg.join(100, post_room(3)).unwrap();
    reg.unregister(100);
    let mut hub = RoomHub::new();
    hub.publish(&reg, post_room(3), note(3, true));
    assert_eq!(hub.outbox_len(100), 0);
}

#[test]
fn member_joining_after_publish_misses_it() {
    let mut reg = SessionRegistry::new();
    reg.register(100);
    let mut hub = RoomHub::new();
    hub.publish(&reg, post_room(3), note(3, true));
    reg.join(100, post_room(3)).unwrap();
    assert_eq!(hub.outbox_len(100), 0);
    hub.publish(&reg, post_room(3), note(3, false));
    assert_eq!(hub.outbox_len(100), 1);
    assert_eq!(hub.outbox_at(100, 0), note(3, false));
}

#[test]
fn take_outbox_drains_without_touching_others() {
    let mut reg = SessionRegistry::new();
    reg.register(100);
    reg.register(101);
    reg.join(100, post_room(3)).unwrap();
    reg.join(101, post_room(3)).unwrap();
    let mut hub = RoomHub::new();
    hub.publish(&reg, post_room(3), note(3, true));
    let taken = hub.take_outbox(100);
    assert_eq!(taken, vec![note(3, true)]);
    assert_eq!(hub.outbox_len(100), 0);
    assert_eq!(hub.outbox_len(101), 1);
    assert_eq!(hub.take_outbox(100), vec![]);
}
