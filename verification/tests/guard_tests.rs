use ops_hub::guard::eval_chain;
use ops_hub::guard::eval_guard;
use ops_hub::guard::GuardKind;
use ops_hub::ops::GuardReason;
use ops_hub::pipeline::lock_guard_chain;
use ops_hub::store::CommunityRecord;
use ops_hub::store::StateStore;

fn store_with_community(removed: bool, deleted: bool) -> StateStore {
    let mut s = StateStore::new();
    assert!(s.add_community(CommunityRecord {
        id: 7,
        removed,
        deleted,
    }));
    s
}

#[test]
fn banned_actor_is_rejected_as_banned() {
    let mut s = store_with_community(false, false);
    s.add_ban(42, 7);
    let chain = lock_guard_chain();
    assert_eq!(eval_chain(&s, &chain, 42, 7), Some(GuardReason::ActorBanned));
}

#[test]
fn removed_or_deleted_community_is_rejected() {
    let s = store_with_community(true, false);
    let chain = lock_guard_chain();
    assert_eq!(
        eval_chain(&s, &chain, 42, 7),
        Some(GuardReason::CommunityRemoved)
    );
    let s2 = store_with_community(false, true);
    assert_eq!(
        eval_chain(&s2, &chain, 42, 7),
        Some(GuardReason::CommunityRemoved)
    );
}

#[test]
fn actor_without_role_is_rejected_last() {
    let s = store_with_community(false, false);
    let chain = lock_guard_chain();
    assert_eq!(
        eval_chain(&s, &chain, 42, 7),
        Some(GuardReason::InsufficientRole)
    );
}

#[test]
fn moderator_and_admin_pass_the_chain() {
    let mut s = store_with_community(false, false);
    s.add_moderator(42, 7);
    s.add_admin(43);
    let chain = lock_guard_chain();
    assert_eq!(eval_chain(&s, &chain, 42, 7), None);
    assert_eq!(eval_chain(&s, &chain, 43, 7), None);
}

#[test]
fn ban_check_precedes_role_check() {
    // A banned actor who also lacks the role is reported banned, not
    // role-less: the chain stops at the first failure.
    let mut s = store_with_community(false, false);
    s.add_ban(42, 7);
    let chain = lock_guard_chain();
    assert_eq!(eval_chain(&s, &chain, 42, 7), Some(GuardReason::ActorBanned));
}

#[test]
fn single_guards_decide_independently() {
    let mut s = store_with_community(false, false);
    s.add_ban(42, 7);
    s.add_moderator(42, 7);
    assert_eq!(
        eval_guard(&s, GuardKind::ActorNotBanned, 42, 7),
        Some(GuardReason::ActorBanned)
    );
    assert_eq!(eval_guard(&s, GuardKind::CommunityActive, 42, 7), None);
    assert_eq!(eval_guard(&s, GuardKind::ActorModOrAdmin, 42, 7), None);
    assert_eq!(
        eval_guard(&s, GuardKind::ActorModOrAdmin, 99, 7),
        Some(GuardReason::InsufficientRole)
    );
}
