//! The errors a client's session request is answered with.

use vstd::prelude::*;
use vstd::string::*;

verus! {

broadcast use vstd::string::group_string_axioms;

/// Why a `session/new`, `session/load` or `session/resume` request failed.
#[derive(Debug, Clone, PartialEq, Eq)]
pub enum RequestError {
    /// No session has this id.
    SessionNotFound { session_id: String },
    /// The working directory is not an existing absolute path.
    InvalidCwd { cwd: String },
    /// Anything else (spawning the agent, the store, the agent's replies).
    Internal { message: String },
}

/// The JSON-RPC code for invalid parameters.
pub const INVALID_PARAMS: i32 = -32602;

/// The JSON-RPC code for an internal error.
pub const INTERNAL_ERROR: i32 = -32603;

impl RequestError {
    /// The JSON-RPC error code: invalid parameters for an unknown session or
    /// a bad directory, internal error otherwise.
    pub fn code(&self) -> (c: i32)
        ensures
            c == (match self {
                RequestError::Internal { .. } => INTERNAL_ERROR,
                _ => INVALID_PARAMS,
            }),
    {
        match self {
            RequestError::Internal { .. } => INTERNAL_ERROR,
            _ => INVALID_PARAMS,
        }
    }

    /// The error's data: what went wrong, in words.
    pub fn data(&self) -> (d: String)
        ensures
            d@ == (match self {
                RequestError::SessionNotFound { session_id } => "session not found: "@ + session_id@,
                RequestError::InvalidCwd { cwd } => "invalid cwd: "@ + cwd@,
                RequestError::Internal { message } => message@,
            }),
    {
        match self {
            RequestError::SessionNotFound { session_id } => {
                let mut d = String::from_str("session not found: ");
                d.append(session_id.as_str());
                d
            },
            RequestError::InvalidCwd { cwd } => {
                let mut d = String::from_str("invalid cwd: ");
                d.append(cwd.as_str());
                d
            },
            RequestError::Internal { message } => message.clone(),
        }
    }
}

/// A new session's directory must be an absolute path that exists.
pub fn check_cwd(cwd: &str, exists: bool) -> (r: Result<(), RequestError>)
    ensures
        r is Ok <==> (cwd@.len() > 0 && cwd@[0] == '/' && exists),
        r is Err ==> (r matches Err(RequestError::InvalidCwd { cwd: c }) && c@ == cwd@),
{
    let absolute = cwd.unicode_len() > 0 && cwd.get_char(0) == '/';
    if absolute && exists {
        Ok(())
    } else {
        Err(RequestError::InvalidCwd { cwd: String::from_str(cwd) })
    }
}

} // verus!
