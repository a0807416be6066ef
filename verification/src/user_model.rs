//! Identity data: users, roles, and the public projection of a user.

use vstd::prelude::*;
use crate::error::AppError;

verus! {

/// The role of an identity, ordered `user < admin`.
#[derive(Clone, Copy, Debug, PartialEq, Eq, Structural)]
pub enum Role {
    User,
    Admin,
}

impl Role {
    /// The ordinal ranking behind the role order.
    pub open spec fn rank(self) -> nat {
        match self {
            Role::User => 0,
            Role::Admin => 1,
        }
    }

    /// The lowercase wire form of the role.
    pub open spec fn spec_as_str(self) -> Seq<char> {
        match self {
            Role::User => "user"@,
            Role::Admin => "admin"@,
        }
    }

    /// `greater-or-equal` on the role order: any role ranked at or above the
    /// required one passes.
    pub fn at_least(&self, required: &Role) -> (r: bool)
        ensures
            r == (self.rank() >= required.rank()),
    {
        match (self, required) {
            (Role::Admin, _) => true,
            (Role::User, Role::User) => true,
            (Role::User, Role::Admin) => false,
        }
    }

    pub fn as_str(&self) -> (r: &'static str)
        ensures
            r@ == self.spec_as_str(),
    {
        match self {
            Role::User => "user",
            Role::Admin => "admin",
        }
    }

    /// Parse the lowercase wire form of a role.
    pub fn try_from(value: &str) -> (r: Result<Role, AppError>)
        ensures
            value@ == "user"@ ==> r == Ok::<Role, AppError>(Role::User),
            value@ == "admin"@ ==> r == Ok::<Role, AppError>(Role::Admin),
            value@ != "user"@ && value@ != "admin"@ ==> r == Err::<Role, AppError>(
                AppError::BadRequest,
            ),
    {
        proof {
            reveal_strlit("user");
            reveal_strlit("admin");
            assert("user"@.len() == 4);
            assert("admin"@.len() == 5);
            assert("user"@ != "admin"@);
        }
        if str_eq(value, "user") {
            Ok(Role::User)
        } else if str_eq(value, "admin") {
            Ok(Role::Admin)
        } else {
            Err(AppError::BadRequest)
        }
    }
}

/// Character-wise string comparison.
pub fn str_eq(a: &str, b: &str) -> (r: bool)
    ensures
        r == (a@ == b@),
{
    let a_len = a.unicode_len();
    let b_len = b.unicode_len();
    if a_len != b_len {
        return false;
    }
    let mut i: usize = 0;
    while i < a_len
        invariant
            i <= a_len,
            a_len == a@.len(),
            a_len == b@.len(),
            forall|j: int| 0 <= j < i ==> a@[j] == b@[j],
        decreases a_len - i,
    {
        if a.get_char(i) != b.get_char(i) {
            return false;
        }
        i = i + 1;
    }
    proof {
        assert(a@ =~= b@);
    }
    true
}

/// An identity row. The credential hash never leaves the trust boundary:
/// public projections use [`FilteredUser`].
#[derive(Clone, Debug)]
pub struct User {
    pub id: u64,
    pub name: String,
    pub email: String,
    pub password: String,
    pub role: Role,
    pub is_email_verified: bool,
    pub created_at: u64,
    pub updated_at: u64,
}

impl User {
    /// An exact copy, usable in contracts (the derived clone is opaque to the
    /// verifier).
    pub fn duplicate(&self) -> (r: User)
        ensures
            r == *self,
    {
        User {
            id: self.id,
            name: self.name.clone(),
            email: self.email.clone(),
            password: self.password.clone(),
            role: self.role,
            is_email_verified: self.is_email_verified,
            created_at: self.created_at,
            updated_at: self.updated_at,
        }
    }
}

/// The public projection of a user: every field of [`User`] except the
/// credential hash.
#[derive(Clone, Debug)]
pub struct FilteredUser {
    pub id: u64,
    pub name: String,
    pub email: String,
    pub role: Role,
    pub is_email_verified: bool,
    pub created_at: u64,
    pub updated_at: u64,
}

/// What projecting a user yields.
pub open spec fn spec_filtered(u: User) -> FilteredUser {
    FilteredUser {
        id: u.id,
        name: u.name,
        email: u.email,
        role: u.role,
        is_email_verified: u.is_email_verified,
        created_at: u.created_at,
        updated_at: u.updated_at,
    }
}

impl FilteredUser {
    /// Project a user, omitting the credential hash.
    pub fn from(user: &User) -> (r: FilteredUser)
        ensures
            r == spec_filtered(*user),
    {
        FilteredUser {
            id: user.id,
            name: user.name.clone(),
            email: user.email.clone(),
            role: user.role,
            is_email_verified: user.is_email_verified,
            created_at: user.created_at,
            updated_at: user.updated_at,
        }
    }
}

} // verus!
