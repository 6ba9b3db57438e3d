//! Error kinds raised by the authentication core.

use vstd::prelude::*;

verus! {

/// Failures of the OAuth2 flow itself.
#[derive(Debug)]
pub enum AuthError {
    /// The client-secret document is malformed or has missing/empty fields.
    InvalidCredentials(String),
    /// The interactive flow failed: listener, callback parsing, or a refused
    /// code exchange.
    FlowFailed(String),
    /// A token refresh could not be carried out.
    TokenFailed(String),
    /// The token cache could not be read, written or understood.
    StorageError(String),
}

impl AuthError {
    /// A human-readable account of the error.
    pub fn describe(&self) -> (r: String)
        ensures
            match self {
                AuthError::InvalidCredentials(m) => r@ == "Invalid credentials: "@ + m@,
                AuthError::FlowFailed(m) => r@ == "Authentication flow failed: "@ + m@,
                AuthError::TokenFailed(m) => r@ == "Failed to get token: "@ + m@,
                AuthError::StorageError(m) => r@ == "Token storage error: "@ + m@,
            },
    {
        match self {
            AuthError::InvalidCredentials(m) => String::from_str("Invalid credentials: ").concat(
                m.as_str(),
            ),
            AuthError::FlowFailed(m) => String::from_str("Authentication flow failed: ").concat(
                m.as_str(),
            ),
            AuthError::TokenFailed(m) => String::from_str("Failed to get token: ").concat(
                m.as_str(),
            ),
            AuthError::StorageError(m) => String::from_str("Token storage error: ").concat(
                m.as_str(),
            ),
        }
    }
}

/// Failures of the stored-credential record.
#[derive(Debug)]
pub enum KeyringError {
    StoreFailed(String),
    LoadFailed(String),
    DeleteFailed(String),
}

impl KeyringError {
    /// The reason the record operation failed.
    pub open spec fn reason(&self) -> Seq<char> {
        match self {
            KeyringError::StoreFailed(m) => m@,
            KeyringError::LoadFailed(m) => m@,
            KeyringError::DeleteFailed(m) => m@,
        }
    }
}

/// Failures surfaced by the token manager.
#[derive(Debug)]
pub enum TokenManagerError {
    /// No session and no cache: the caller must run an explicit login.
    NotAuthenticated,
    /// No credentials path could be resolved.
    MissingCredentials(String),
    /// An underlying authentication failure.
    Auth(AuthError),
    /// An underlying storage failure.
    Storage(KeyringError),
    Other(String),
}

impl TokenManagerError {
    /// A human-readable account of the error.
    pub fn describe(&self) -> (r: String)
        ensures
            match self {
                TokenManagerError::NotAuthenticated => r@
                    == "Not authenticated. Run 'workspace-cli auth login' first."@,
                TokenManagerError::MissingCredentials(m) => r@ == "Missing credentials: "@ + m@,
                TokenManagerError::Auth(_) => r@ == "Authentication error: "@
                    + self->Auth_0.describe_model(),
                TokenManagerError::Storage(_) => r@ == "Token storage error: "@
                    + self->Storage_0.reason(),
                TokenManagerError::Other(m) => r@ == m@,
            },
    {
        match self {
            TokenManagerError::NotAuthenticated => String::from_str(
                "Not authenticated. Run 'workspace-cli auth login' first.",
            ),
            TokenManagerError::MissingCredentials(m) => String::from_str(
                "Missing credentials: ",
            ).concat(m.as_str()),
            TokenManagerError::Auth(e) => String::from_str("Authentication error: ").concat(
                e.describe().as_str(),
            ),
            TokenManagerError::Storage(e) => match e {
                KeyringError::StoreFailed(m) => String::from_str(
                    "Token storage error: ",
                ).concat(m.as_str()),
                KeyringError::LoadFailed(m) => String::from_str("Token storage error: ").concat(
                    m.as_str(),
                ),
                KeyringError::DeleteFailed(m) => String::from_str(
                    "Token storage error: ",
                ).concat(m.as_str()),
            },
            TokenManagerError::Other(m) => m.clone(),
        }
    }
}

impl AuthError {
    /// What `describe` returns, as a function of the value.
    pub open spec fn describe_model(&self) -> Seq<char> {
        match self {
            AuthError::InvalidCredentials(m) => "Invalid credentials: "@ + m@,
            AuthError::FlowFailed(m) => "Authentication flow failed: "@ + m@,
            AuthError::TokenFailed(m) => "Failed to get token: "@ + m@,
            AuthError::StorageError(m) => "Token storage error: "@ + m@,
        }
    }
}

} // verus!
