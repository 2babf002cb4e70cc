//! The error taxonomy every core operation reports through.

use vstd::prelude::*;

verus! {

/// One tagged error kind per failure the core can surface; no error is
/// swallowed internally.
#[derive(Debug)]
pub enum Error {
    /// A username or numeric id has no matching record.
    NotFound,
    /// A session identifier is absent, empty, or unrecognized.
    NoSuchSession,
    /// Login was attempted while a session is already active; carries the
    /// active session identifier.
    AlreadyLoggedIn(String),
    /// The authenticated actor lacks rights for the requested resource.
    Unprivileged,
    /// A client-supplied date no longer matches the server's current day.
    DateChanged,
    /// The store refused a write (its unique-session constraint).
    StoreError,
}

impl Error {
    /// The kind's name, for the boundary layer's error payloads.
    pub fn tag_name(&self) -> (r: String)
        ensures
            r@ == match self {
                Error::NotFound => "NotFound"@,
                Error::NoSuchSession => "NoSuchSession"@,
                Error::AlreadyLoggedIn(_) => "AlreadyLoggedIn"@,
                Error::Unprivileged => "Unprivileged"@,
                Error::DateChanged => "DateChanged"@,
                Error::StoreError => "StoreError"@,
            },
    {
        match self {
            Error::NotFound => "NotFound".to_owned(),
            Error::NoSuchSession => "NoSuchSession".to_owned(),
            Error::AlreadyLoggedIn(_) => "AlreadyLoggedIn".to_owned(),
            Error::Unprivileged => "Unprivileged".to_owned(),
            Error::DateChanged => "DateChanged".to_owned(),
            Error::StoreError => "StoreError".to_owned(),
        }
    }

    /// Whether the kind is the client's fault (authentication, authorization
    /// or validation) rather than the store's.
    pub fn is_client_error(&self) -> (r: bool)
        ensures
            r == !(self matches Error::StoreError),
    {
        match self {
            Error::StoreError => false,
            _ => true,
        }
    }
}

} // verus!
