//! A user record.

use vstd::prelude::*;

verus! {

pub struct User {
    pub is_active: bool,
    pub username: String,
    pub email: String,
    pub sign_in_count: u64,
}

/// An active user who has signed in once.
pub fn build_user(username: String, email: String) -> (user: User)
    ensures
        user.is_active,
        user.username == username,
        user.email == email,
        user.sign_in_count == 1,
{
    User { is_active: true, username, email, sign_in_count: 1 }
}

/// A point in space.
pub struct Point(pub i32, pub i32, pub i32);

} // verus!
