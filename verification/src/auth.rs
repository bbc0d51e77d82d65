//! The authentication-facing data model: what a user type must expose to
//! be authenticatable, and the basic user record of the sample
//! application. The token-verification protocol itself is the host's
//! concern and stays outside the library.

use vstd::prelude::*;

verus! {

/// A user record that the authentication layer can work with: it exposes
/// its identifier and its credentials.
pub trait AuthenticatableUser {
    /// How the user's name is represented.
    type Username;

    /// How the user's password is represented.
    type Password;

    /// How the user's identifier is represented.
    type Id;

    /// Produce the user's name.
    fn get_username(&self) -> Self::Username;

    /// Produce the user's password.
    fn get_password(&self) -> Self::Password;

    /// Produce the user's identifier.
    fn get_id(&self) -> Self::Id;
}

/// The basic user record: an integer identifier and plain credentials.
#[derive(Debug, Clone)]
pub struct BasicUser {
    pub id: i32,
    pub username: String,
    pub password: String,
}

impl BasicUser {
    /// A user record from its plain values.
    pub fn new(id: i32, username: String, password: String) -> (r: BasicUser)
        ensures
            r.id == id,
            r.username@ == username@,
            r.password@ == password@,
    {
        BasicUser { id, username, password }
    }
}

impl AuthenticatableUser for BasicUser {
    type Username = String;

    type Password = String;

    type Id = i32;

    fn get_username(&self) -> String {
        self.username.clone()
    }

    fn get_password(&self) -> String {
        self.password.clone()
    }

    fn get_id(&self) -> i32 {
        self.id
    }
}

} // verus!
