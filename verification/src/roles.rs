//! Roles and the authorization error type.
//!
//! A [`Role`] is a per-(user, account) capability level, totally ordered
//! `Read < Write < Admin`. Raw role strings exist only at the storage
//! boundary; everything else works on the enumeration.

use vstd::prelude::*;

verus! {

/// Capability level of a user on an account.
#[derive(Clone, Copy, PartialEq, Eq, Structural, Debug)]
pub enum Role {
    Read,
    Write,
    Admin,
}

/// Failure of the authorization gate, or of the role string boundary.
#[derive(Debug)]
pub enum AuthError {
    /// The (account, user) relationship does not exist: `(user_id, account_id)`.
    NotMember(u128, u128),
    /// The stored role is strictly below the required one: `(user_id, account_id)`.
    InsufficientRole(u128, u128),
    /// A stored role string was not one of `Read`, `Write`, `Admin`.
    CouldNotParseRole(String),
}

impl Role {
    /// Numeric rank realizing the total order `Read < Write < Admin`.
    pub open spec fn rank(self) -> int {
        match self {
            Role::Read => 0,
            Role::Write => 1,
            Role::Admin => 2,
        }
    }

    /// True when `self` grants at least the capabilities of `min`.
    pub fn at_least(self, min: Role) -> (r: bool)
        ensures
            r == (self.rank() >= min.rank()),
    {
        let a: u8 = match self {
            Role::Read => 0,
            Role::Write => 1,
            Role::Admin => 2,
        };
        let b: u8 = match min {
            Role::Read => 0,
            Role::Write => 1,
            Role::Admin => 2,
        };
        a >= b
    }

    /// Parses a role from its storage string form; the inverse of [`Role::to_string`].
    pub fn parse(s: &String) -> (r: Result<Role, AuthError>)
        ensures
            s@ == "Read"@ ==> (r matches Ok(ro) && ro == Role::Read),
            s@ == "Write"@ ==> (r matches Ok(ro) && ro == Role::Write),
            s@ == "Admin"@ ==> (r matches Ok(ro) && ro == Role::Admin),
            s@ != "Read"@ && s@ != "Write"@ && s@ != "Admin"@ ==> (r matches Err(
                AuthError::CouldNotParseRole(raw),
            ) && raw@ == s@),
    {
        proof {
            reveal_strlit("Read");
            reveal_strlit("Write");
            reveal_strlit("Admin");
            assert("Read"@.len() != "Write"@.len());
            assert("Read"@.len() != "Admin"@.len());
            assert("Write"@[0] != "Admin"@[0]);
            assert("Write"@ != "Admin"@);
        }
        if *s == String::from_str("Read") {
            Ok(Role::Read)
        } else if *s == String::from_str("Write") {
            Ok(Role::Write)
        } else if *s == String::from_str("Admin") {
            Ok(Role::Admin)
        } else {
            Err(AuthError::CouldNotParseRole(s.clone()))
        }
    }

    /// The storage string form of the role.
    pub fn to_string(&self) -> (r: String)
        ensures
            self is Read ==> r@ == "Read"@,
            self is Write ==> r@ == "Write"@,
            self is Admin ==> r@ == "Admin"@,
    {
        match self {
            Role::Read => String::from_str("Read"),
            Role::Write => String::from_str("Write"),
            Role::Admin => String::from_str("Admin"),
        }
    }
}

} // verus!
