//! The kinds of people the service knows, and their shared identity.

use vstd::prelude::*;
use crate::bridge::fresh_random_id;

verus! {

/// A user's opaque identifier.
pub struct UserId(pub u128);

/// What a staff member does.
#[derive(Clone, PartialEq, Eq, Structural, Debug)]
pub enum StaffRole {
    /// Full administrative access.
    Admin,
    /// Customer support access.
    Support,
}

/// What kind of customer an account is.
#[derive(Clone, PartialEq, Eq, Structural, Debug)]
pub enum CustomerType {
    /// Early-access customer.
    Beta,
    /// Ordinary customer.
    Regular,
}

/// Either side of the counter.
#[derive(Clone, PartialEq, Eq, Structural, Debug)]
pub enum UserType {
    /// A staff member, with a role.
    Staff(StaffRole),
    /// A customer, with a kind.
    Customer(CustomerType),
}

/// One person with an account.
pub struct User {
    /// The user's identifier.
    pub id: UserId,
    /// The user's display name.
    pub name: String,
    /// The user's email address.
    pub email: String,
    /// Which side of the counter the user stands on.
    pub user_type: UserType,
}

impl User {
    /// Makes a new user with a fresh identifier.
    pub fn new(name: String, email: String, user_type: UserType) -> (r: User)
        ensures
            r.name == name,
            r.email == email,
            r.user_type == user_type,
    {
        User { id: UserId(fresh_random_id()), name, email, user_type }
    }
}

} // verus!
