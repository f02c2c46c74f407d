//! Identities of users and roles.

use vstd::prelude::*;

verus! {

#[derive(Debug, Clone, Copy, PartialEq, Eq, Structural)]
pub struct UserId(pub u64);

impl UserId {
    pub fn as_u64(self) -> (r: u64)
        ensures
            r == self.0,
    {
        self.0
    }
}

#[derive(Debug, Clone, Copy, PartialEq, Eq, Structural)]
pub struct RoleId(pub u64);

impl RoleId {
    pub fn as_u64(self) -> (r: u64)
        ensures
            r == self.0,
    {
        self.0
    }
}

/// Who is acting: a user and the role it acts in.
#[derive(Debug, Clone, Copy, PartialEq, Eq, Structural)]
pub struct Credentials {
    pub user: UserId,
    pub role: RoleId,
}

} // verus!
