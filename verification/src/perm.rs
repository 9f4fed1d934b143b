//! The permission hierarchy that gates every mutation and broadcast.

use vstd::prelude::*;

verus! {

/// A participant's access level within a conversation, highest first.
/// `Apart` is a participant with no membership relation at all.
#[derive(Clone, Copy, PartialEq, Eq, Structural, Debug)]
pub enum Permissions {
    Owner,
    Admin,
    User,
    Banned,
    Apart,
}

/// Whether this level may mutate the conversation and receive broadcasts:
/// exactly `Owner`, `Admin` and `User` may; `Banned` and `Apart` may not.
pub open spec fn spec_may_mutate(p: Permissions) -> bool {
    match p {
        Permissions::Owner => true,
        Permissions::Admin => true,
        Permissions::User => true,
        Permissions::Banned => false,
        Permissions::Apart => false,
    }
}

/// Whether a participant at level `p` may mutate the conversation.
pub fn may_mutate(p: Permissions) -> (r: bool)
    ensures
        r == spec_may_mutate(p),
{
    match p {
        Permissions::Owner => true,
        Permissions::Admin => true,
        Permissions::User => true,
        Permissions::Banned => false,
        Permissions::Apart => false,
    }
}

} // verus!
