//! Permission resolution: the first gate of every handler.
//!
//! Each caller holds a permission level on a target resource; an
//! operation demands a level. The check passes exactly when the caller is
//! an admin or holds at least the demanded level, and it runs before any
//! side effect: a refused caller produces no update and touches nothing.

use vstd::prelude::*;

verus! {

/// The caller lacks the demanded permission on the target.
#[derive(Clone, Copy, PartialEq, Eq, Structural, Debug)]
pub struct UnauthorizedError;

/// What a caller may do with a resource, from nothing to full writes.
#[derive(Clone, Copy, PartialEq, Eq, Structural, Debug)]
pub enum PermissionLevel {
    NoAccess,
    Read,
    Execute,
    Write,
}

/// The strictness rank of a level: higher ranks include lower ones.
pub open spec fn level_rank(level: PermissionLevel) -> int {
    match level {
        PermissionLevel::NoAccess => 0,
        PermissionLevel::Read => 1,
        PermissionLevel::Execute => 2,
        PermissionLevel::Write => 3,
    }
}

/// Whether a held level satisfies a demanded one.
pub fn level_allows(held: PermissionLevel, required: PermissionLevel) -> (r: bool)
    ensures
        r == (level_rank(held) >= level_rank(required)),
{
    let h: u8 = match held {
        PermissionLevel::NoAccess => 0,
        PermissionLevel::Read => 1,
        PermissionLevel::Execute => 2,
        PermissionLevel::Write => 3,
    };
    let q: u8 = match required {
        PermissionLevel::NoAccess => 0,
        PermissionLevel::Read => 1,
        PermissionLevel::Execute => 2,
        PermissionLevel::Write => 3,
    };
    h >= q
}

/// The permission gate: an admin passes always, anyone else passes
/// exactly when they hold at least the demanded level.
pub fn check_permission(admin: bool, held: PermissionLevel, required: PermissionLevel) -> (r:
    Result<(), UnauthorizedError>)
    ensures
        r is Ok <==> admin || level_rank(held) >= level_rank(required),
{
    if admin || level_allows(held, required) {
        Ok(())
    } else {
        Err(UnauthorizedError)
    }
}

/// A higher held level passes wherever a lower one does: granting more
/// permission never revokes an allowed operation.
pub proof fn lemma_permission_monotone(
    a: PermissionLevel,
    b: PermissionLevel,
    required: PermissionLevel,
)
    requires
        level_rank(a) <= level_rank(b),
        level_rank(a) >= level_rank(required),
    ensures
        level_rank(b) >= level_rank(required),
{
}

} // verus!
