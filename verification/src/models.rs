//! Durable records owned by the store, and the request payloads of the
//! account endpoints.

use vstd::prelude::*;

verus! {

/// A user record as the durable store keeps it.
#[derive(Clone, Debug)]
pub struct User {
    pub id: Option<String>,
    pub username: String,
    pub email: String,
    pub password: String,
}

/// A participant record: one row per (room, user) membership.
#[derive(Clone, Debug)]
pub struct Participant {
    pub id: Option<String>,
    pub user_id: String,
    pub room_code: String,
}

/// The payload of an account registration request.
#[derive(Clone, Debug)]
pub struct RegisterUser {
    pub username: String,
    pub email: String,
    pub password: String,
}

/// The payload of a login request.
#[derive(Clone, Debug)]
pub struct LoginUser {
    pub email: String,
    pub password: String,
}

} // verus!
