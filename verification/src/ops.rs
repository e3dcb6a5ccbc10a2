//! Operation payloads, responses, and the error taxonomy shared by the
//! guard chain, the state store, and the pipeline.

use vstd::prelude::*;

verus! {

/// The closed set of operation kinds this fragment dispatches on.
#[derive(Clone, Copy, Debug, PartialEq, Eq, Structural)]
pub enum OpKind {
    LockPost,
    UserJoin,
    CommunityJoin,
    ModJoin,
    PostJoin,
}

/// Why a guard in the authorization chain rejected an operation.
#[derive(Clone, Copy, Debug, PartialEq, Eq, Structural)]
pub enum GuardReason {
    ActorBanned,
    CommunityRemoved,
    InsufficientRole,
}

/// Every way an operation can fail. Guard rejections and not-found are
/// terminal and returned verbatim; `UnknownConnection` arises only from
/// room operations and is swallowed by join handlers.
#[derive(Clone, Copy, Debug, PartialEq, Eq, Structural)]
pub enum OpError {
    Unauthenticated,
    NotFound,
    GuardRejected(GuardReason),
    MutationFailed,
    AuditWriteFailed,
    UnknownConnection,
}

/// Request to set a post's `locked` field. `auth` is the actor's credential
/// token, resolved by the store's session table.
#[derive(Clone, Copy, Debug, PartialEq, Eq, Structural)]
pub struct LockPostOp {
    pub auth: u64,
    pub post_id: u64,
    pub locked: bool,
}

/// Request to join the room of the authenticated user.
#[derive(Clone, Copy, Debug, PartialEq, Eq, Structural)]
pub struct UserJoinOp {
    pub auth: u64,
}

/// Request to join a community's room. Requires no authentication.
#[derive(Clone, Copy, Debug, PartialEq, Eq, Structural)]
pub struct CommunityJoinOp {
    pub community_id: u64,
}

/// Request to join a community's moderator room. Requires no authentication.
#[derive(Clone, Copy, Debug, PartialEq, Eq, Structural)]
pub struct ModJoinOp {
    pub community_id: u64,
}

/// Request to join a post's room. Requires no authentication.
#[derive(Clone, Copy, Debug, PartialEq, Eq, Structural)]
pub struct PostJoinOp {
    pub post_id: u64,
}

/// Tagged-variant dispatch: each operation kind carries its own payload.
#[derive(Clone, Copy, Debug, PartialEq, Eq, Structural)]
pub enum Operation {
    LockPost(LockPostOp),
    UserJoin(UserJoinOp),
    CommunityJoin(CommunityJoinOp),
    ModJoin(ModJoinOp),
    PostJoin(PostJoinOp),
}

/// The observable result of a successful mutation on a post.
#[derive(Clone, Copy, Debug, PartialEq, Eq, Structural)]
pub struct PostResponse {
    pub post_id: u64,
    pub locked: bool,
    pub success: bool,
}

/// Acknowledgement payload of a join-style operation.
#[derive(Clone, Copy, Debug, PartialEq, Eq, Structural)]
pub struct JoinResponse {
    pub joined: bool,
}

/// The result of dispatching any operation.
#[derive(Clone, Copy, Debug, PartialEq, Eq, Structural)]
pub enum OpOutcome {
    Post(PostResponse),
    Join(JoinResponse),
}

} // verus!
