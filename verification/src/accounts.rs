//! Identity-facing data shapes of the platform's collaborator services:
//! request and response bodies, roles, and the API error taxonomy.
use vstd::prelude::*;
use vstd::string::StringExecFns;

verus! {

/// A principal's role.
#[derive(Clone, Copy, PartialEq, Eq, Structural, Debug)]
pub enum UserRole {
    Admin,
    Client,
}

impl UserRole {
    pub open spec fn spec_tag(self) -> Seq<char> {
        match self {
            UserRole::Admin => "ADMIN"@,
            UserRole::Client => "CLIENT"@,
        }
    }

    /// The uppercase wire tag of the role.
    pub fn as_str(&self) -> (r: &'static str)
        ensures
            r@ == self.spec_tag(),
    {
        match self {
            UserRole::Admin => "ADMIN",
            UserRole::Client => "CLIENT",
        }
    }
}

/// Body of a registration request.
#[derive(Clone, Debug)]
pub struct RegisterRequest {
    pub username: String,
    pub password: String,
}

/// Body of a login request.
#[derive(Clone, Debug)]
pub struct LoginRequest {
    pub username: String,
    pub password: String,
}

/// Body of a successful authentication response.
#[derive(Clone, Debug)]
pub struct AuthResponse {
    pub access_token: String,
    pub token_type: String,
    pub expires_in: i64,
}

/// The error taxonomy the identity service answers with.
#[derive(Clone, Copy, PartialEq, Eq, Structural, Debug)]
pub enum ApiError {
    BadCredentials,
    Conflict,
    Internal,
}

impl ApiError {
    pub open spec fn spec_message(self) -> Seq<char> {
        match self {
            ApiError::BadCredentials => "bad credentials"@,
            ApiError::Conflict => "conflict"@,
            ApiError::Internal => "internal server error"@,
        }
    }

    /// The human-readable message of the error.
    pub fn message(&self) -> (r: String)
        ensures
            r@ == self.spec_message(),
    {
        match self {
            ApiError::BadCredentials => String::from_str("bad credentials"),
            ApiError::Conflict => String::from_str("conflict"),
            ApiError::Internal => String::from_str("internal server error"),
        }
    }
}

} // verus!
