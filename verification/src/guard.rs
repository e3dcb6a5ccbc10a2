//! The authorization guard chain. A guard is a pure predicate over the
//! store, the actor and the target community; a chain evaluates its guards
//! in a fixed order and stops at the first failure, so a banned actor is
//! rejected as banned even when they also lack the moderator role.

use vstd::prelude::*;

use crate::lookup::contains_pair;
use crate::lookup::contains_u64;
use crate::ops::GuardReason;
use crate::store::StateStore;

verus! {

/// The closed set of guards this fragment composes.
#[derive(Clone, Copy, Debug, PartialEq, Eq, Structural)]
pub enum GuardKind {
    ActorNotBanned,
    CommunityActive,
    ActorModOrAdmin,
}

/// What one guard decides: `None` passes, `Some(reason)` rejects. Guards
/// read the store and never change it.
pub open spec fn spec_guard(s: StateStore, kind: GuardKind, actor: u64, community: u64) -> Option<
    GuardReason,
> {
    match kind {
        GuardKind::ActorNotBanned => if s.is_banned(actor, community) {
            Some(GuardReason::ActorBanned)
        } else {
            None
        },
        GuardKind::CommunityActive => if s.community_inactive(community) {
            Some(GuardReason::CommunityRemoved)
        } else {
            None
        },
        GuardKind::ActorModOrAdmin => if !s.is_mod_or_admin(actor, community) {
            Some(GuardReason::InsufficientRole)
        } else {
            None
        },
    }
}

/// What a chain decides: the first failing guard's reason, or `None` when
/// every guard passes.
pub open spec fn spec_chain(
    s: StateStore,
    chain: Seq<GuardKind>,
    actor: u64,
    community: u64,
) -> Option<GuardReason>
    decreases chain.len(),
{
    if chain.len() == 0 {
        None
    } else {
        match spec_guard(s, chain[0], actor, community) {
            Some(reason) => Some(reason),
            None => spec_chain(s, chain.subrange(1, chain.len() as int), actor, community),
        }
    }
}

/// Ordered, short-circuit evaluation: a chain passes exactly when every
/// guard passes, and a rejection is the reason of the first failing guard,
/// every guard before it having passed.
pub proof fn lemma_chain_first_failure(
    s: StateStore,
    chain: Seq<GuardKind>,
    actor: u64,
    community: u64,
)
    ensures
        spec_chain(s, chain, actor, community) is None <==> (forall|k: int|
            0 <= k < chain.len() ==> spec_guard(s, #[trigger] chain[k], actor, community) is None),
        spec_chain(s, chain, actor, community) matches Some(reason) ==> exists|k: int|
            0 <= k < chain.len() && spec_guard(s, #[trigger] chain[k], actor, community) == Some(
                reason,
            ) && (forall|j: int|
                0 <= j < k ==> spec_guard(s, chain[j], actor, community) is None),
    decreases chain.len(),
{
    if chain.len() > 0 {
        let sub = chain.subrange(1, chain.len() as int);
        lemma_chain_first_failure(s, sub, actor, community);
        assert(forall|k: int| 0 <= k < sub.len() ==> sub[k] == chain[k + 1]);
        if spec_guard(s, chain[0], actor, community) is None {
            if spec_chain(s, chain, actor, community) is None {
                assert forall|k: int|
                    0 <= k < chain.len() implies spec_guard(
                    s,
                    #[trigger] chain[k],
                    actor,
                    community,
                ) is None by {
                    if k > 0 {
                        assert(chain[k] == sub[k - 1]);
                    }
                }
            } else {
                let reason = spec_chain(s, chain, actor, community)->0;
                let k = choose|k: int|
                    0 <= k < sub.len() && spec_guard(s, #[trigger] sub[k], actor, community)
                        == Some(reason) && (forall|j: int|
                        0 <= j < k ==> spec_guard(s, sub[j], actor, community) is None);
                assert(chain[k + 1] == sub[k]);
                assert forall|j: int|
                    0 <= j < k + 1 implies spec_guard(s, chain[j], actor, community) is None by {
                    if j > 0 {
                        assert(chain[j] == sub[j - 1]);
                    }
                }
            }
        }
    }
}

/// Evaluate one guard against the store.
pub fn eval_guard(s: &StateStore, kind: GuardKind, actor: u64, community: u64) -> (r: Option<
    GuardReason,
>)
    requires
        s.wf(),
        s.community_exists(community),
    ensures
        r == spec_guard(*s, kind, actor, community),
{
    match kind {
        GuardKind::ActorNotBanned => {
            if contains_pair(&s.bans, actor, community) {
                Some(GuardReason::ActorBanned)
            } else {
                None
            }
        },
        GuardKind::CommunityActive => {
            let c = s.read_community(community).unwrap();
            if c.removed || c.deleted {
                Some(GuardReason::CommunityRemoved)
            } else {
                None
            }
        },
        GuardKind::ActorModOrAdmin => {
            if contains_pair(&s.moderators, actor, community) || contains_u64(&s.admins, actor) {
                None
            } else {
                Some(GuardReason::InsufficientRole)
            }
        },
    }
}

/// Evaluate a chain in order, stopping at the first failure.
pub fn eval_chain(s: &StateStore, chain: &Vec<GuardKind>, actor: u64, community: u64) -> (r: Option<
    GuardReason,
>)
    requires
        s.wf(),
        s.community_exists(community),
    ensures
        r == spec_chain(*s, chain@, actor, community),
{
    let mut i: usize = 0;
    proof {
        assert(chain@.subrange(0, chain@.len() as int) =~= chain@);
    }
    while i < chain.len()
        invariant
            s.wf(),
            s.community_exists(community),
            i <= chain@.len(),
            spec_chain(*s, chain@, actor, community) == spec_chain(
                *s,
                chain@.subrange(i as int, chain@.len() as int),
                actor,
                community,
            ),
        decreases chain@.len() - i,
    {
        let g = eval_guard(s, chain[i], actor, community);
        proof {
            let rest = chain@.subrange(i as int, chain@.len() as int);
            assert(rest[0] == chain@[i as int]);
            assert(rest.subrange(1, rest.len() as int) =~= chain@.subrange(
                i as int + 1,
                chain@.len() as int,
            ));
        }
        if let Some(reason) = g {
            return Some(reason);
        }
        i += 1;
    }
    proof {
        assert(chain@.subrange(chain@.len() as int, chain@.len() as int).len() == 0);
    }
    None
}

} // verus!
