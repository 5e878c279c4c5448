//! Accounts with a role, as kept by the role-based authorization backend.

use crate::text::str_eq;
use vstd::prelude::*;
use vstd::string::*;
use vstd::utf8::*;

verus! {

pub type UserId = u64;

/// What an account may do.
#[derive(Clone, Copy, Debug, PartialEq, Eq, PartialOrd)]
pub enum Role {
    Default,
    Admin,
}

/// An account of the role-based backend.
#[derive(Clone, Debug)]
pub struct User {
    pub id: UserId,
    pub email: String,
    pub password_hash: String,
    pub role: Role,
}

/// The role a stored role name denotes: `Admin` or `admin` make an admin,
/// anything else a default user.
pub open spec fn role_of_name(name: Seq<char>) -> Role {
    if name == "Admin"@ || name == "admin"@ {
        Role::Admin
    } else {
        Role::Default
    }
}

/// The name under which a role is stored.
pub open spec fn name_of_role(role: Role) -> Seq<char> {
    match role {
        Role::Admin => "Admin"@,
        Role::Default => "Default"@,
    }
}

impl Role {
    pub fn from_name(value: &str) -> (r: Role)
        ensures
            r == role_of_name(value@),
    {
        if str_eq(value, "Admin") || str_eq(value, "admin") {
            Role::Admin
        } else {
            Role::Default
        }
    }

    pub fn name(self) -> (r: String)
        ensures
            r@ == name_of_role(self),
    {
        match self {
            Role::Admin => String::from_str("Admin"),
            Role::Default => String::from_str("Default"),
        }
    }
}

impl From<String> for Role {
    fn from(value: String) -> (r: Role) {
        Role::from_name(value.as_str())
    }
}

impl vstd::std_specs::convert::FromSpecImpl<String> for Role {
    open spec fn obeys_from_spec() -> bool {
        true
    }

    open spec fn from_spec(v: String) -> Role {
        role_of_name(v@)
    }
}

impl Default for Role {
    fn default() -> (r: Role)
        ensures
            r == Role::Default,
    {
        Role::Default
    }
}

impl User {
    pub fn get_id(&self) -> (r: UserId)
        ensures
            r == self.id,
    {
        self.id
    }

    pub fn get_password_hash(&self) -> (r: Vec<u8>)
        ensures
            r@ == encode_utf8(self.password_hash@),
    {
        self.password_hash.as_str().as_bytes_vec()
    }

    pub fn get_role(&self) -> (r: Option<Role>)
        ensures
            r == Some(self.role),
    {
        Some(self.role)
    }
}

/// A role read back from the name it is stored under is the same role.
pub proof fn lemma_role_name_round_trip(role: Role)
    ensures
        role_of_name(name_of_role(role)) == role,
{
    reveal_strlit("Admin");
    reveal_strlit("admin");
    reveal_strlit("Default");
    assert("Default"@ != "Admin"@) by {
        assert("Default"@[0] != "Admin"@[0]);
    }
    assert("Default"@ != "admin"@) by {
        assert("Default"@[0] != "admin"@[0]);
    }
}

} // verus!
