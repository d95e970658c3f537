//! Data carried by the authentication flow: credentials presented by a
//! caller, the token payload minted for one, and the third-party user
//! records the flow consumes. The cryptographic token work itself happens
//! at the HTTP edge; these are the plain values it moves.

use vstd::prelude::*;

verus! {

/// A minted authorization token, handed back to the caller.
pub struct AuthorizationDto {
    pub auth_token: String,
}

/// The identifying claims minted into a token.
pub struct BasicUserPayload {
    pub user_id: i32,
    pub email: String,
}

/// A token's full claim set: the user, issue time and expiry.
pub struct Claims {
    pub user: BasicUserPayload,
    pub iat: usize,
    pub exp: usize,
}

impl Claims {
    /// The token has not expired at `now`.
    pub open spec fn spec_valid_at(&self, now: usize) -> bool {
        now < self.exp
    }

    /// Executable expiry test.
    pub fn valid_at(&self, now: usize) -> (r: bool)
        ensures
            r == self.spec_valid_at(now),
    {
        now < self.exp
    }
}

/// Credentials presented at login.
pub struct LoginDto {
    pub email: String,
    pub password: String,
}

/// Credentials presented at registration.
pub struct RegisterDto {
    pub email: String,
    pub password: String,
}

/// The third-party identity record consumed at federated login.
pub struct GoogleUser {
    pub sub: String,
    pub email: String,
    pub name: String,
    pub picture: String,
}

/// An embedded wallet attached to a federated account.
pub struct PrivyWallet {
    pub id: Option<String>,
    pub address: String,
}

/// The public shape of a user record.
pub struct UserDto {
    pub id: i32,
    pub email: String,
}

} // verus!
