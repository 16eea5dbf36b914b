//! The error type shared by every part of the library, and its display text.

use vstd::prelude::*;
use crate::text::concat;

verus! {

/// What went wrong, without the detail text.
#[derive(Clone, Copy, Debug, PartialEq, Eq, Structural)]
pub enum ErrorKind {
    Unavailable,
    NotConnected,
    RequiresConfiguration,
    PermissionRequired,
    SecurityBlocked,
    Validation,
    Cancelled,
    Database,
    Network,
    Io,
    Serialization,
    Internal,
}

/// Errors reported to the user. Every variant but `Cancelled` carries a
/// human-readable detail; the outside failures (database, network, I/O,
/// serialisation) carry the outside error's own text.
#[derive(Debug)]
pub enum ObError {
    Unavailable(String),
    NotConnected(String),
    RequiresConfiguration(String),
    PermissionRequired(String),
    SecurityBlocked(String),
    Validation(String),
    Cancelled,
    Database(String),
    Network(String),
    Io(String),
    Serialization(String),
    Internal(String),
}

pub type ObResult<T> = Result<T, ObError>;

/// The mathematical value of an error: its kind and its detail text.
pub struct ErrorView {
    pub kind: ErrorKind,
    pub detail: Seq<char>,
}

/// An error of the given kind with the given detail.
pub open spec fn err_of(kind: ErrorKind, detail: Seq<char>) -> ErrorView {
    ErrorView { kind, detail }
}

impl View for ObError {
    type V = ErrorView;

    open spec fn view(&self) -> ErrorView {
        match self {
            ObError::Unavailable(d) => err_of(ErrorKind::Unavailable, d@),
            ObError::NotConnected(d) => err_of(ErrorKind::NotConnected, d@),
            ObError::RequiresConfiguration(d) => err_of(ErrorKind::RequiresConfiguration, d@),
            ObError::PermissionRequired(d) => err_of(ErrorKind::PermissionRequired, d@),
            ObError::SecurityBlocked(d) => err_of(ErrorKind::SecurityBlocked, d@),
            ObError::Validation(d) => err_of(ErrorKind::Validation, d@),
            ObError::Cancelled => err_of(ErrorKind::Cancelled, Seq::empty()),
            ObError::Database(d) => err_of(ErrorKind::Database, d@),
            ObError::Network(d) => err_of(ErrorKind::Network, d@),
            ObError::Io(d) => err_of(ErrorKind::Io, d@),
            ObError::Serialization(d) => err_of(ErrorKind::Serialization, d@),
            ObError::Internal(d) => err_of(ErrorKind::Internal, d@),
        }
    }
}

/// A result with its error replaced by the error's value.
pub open spec fn res_view<T>(r: Result<T, ObError>) -> Result<T, ErrorView> {
    match r {
        Ok(t) => Ok(t),
        Err(e) => Err(e@),
    }
}

/// The text that leads the display of each kind of error.
pub open spec fn kind_prefix(kind: ErrorKind) -> Seq<char> {
    match kind {
        ErrorKind::Unavailable => "UNAVAILABLE — "@,
        ErrorKind::NotConnected => "NOT CONNECTED — "@,
        ErrorKind::RequiresConfiguration => "REQUIRES CONFIGURATION — "@,
        ErrorKind::PermissionRequired => "PERMISSION REQUIRED — "@,
        ErrorKind::SecurityBlocked => "SECURITY BLOCKED — "@,
        ErrorKind::Validation => "VALIDATION FAILED — "@,
        ErrorKind::Cancelled => "OPERATION CANCELLED"@,
        ErrorKind::Database => "DATABASE ERROR — "@,
        ErrorKind::Network => "NETWORK ERROR — "@,
        ErrorKind::Io => "I/O ERROR — "@,
        ErrorKind::Serialization => "SERIALIZATION ERROR — "@,
        ErrorKind::Internal => "INTERNAL ERROR — "@,
    }
}

/// The display text of an error: the kind's prefix followed by the detail.
pub open spec fn message_of(e: ErrorView) -> Seq<char> {
    kind_prefix(e.kind) + e.detail
}

impl ObError {
    /// The kind of this error.
    pub fn kind(&self) -> (k: ErrorKind)
        ensures
            k == self@.kind,
    {
        match self {
            ObError::Unavailable(_) => ErrorKind::Unavailable,
            ObError::NotConnected(_) => ErrorKind::NotConnected,
            ObError::RequiresConfiguration(_) => ErrorKind::RequiresConfiguration,
            ObError::PermissionRequired(_) => ErrorKind::PermissionRequired,
            ObError::SecurityBlocked(_) => ErrorKind::SecurityBlocked,
            ObError::Validation(_) => ErrorKind::Validation,
            ObError::Cancelled => ErrorKind::Cancelled,
            ObError::Database(_) => ErrorKind::Database,
            ObError::Network(_) => ErrorKind::Network,
            ObError::Io(_) => ErrorKind::Io,
            ObError::Serialization(_) => ErrorKind::Serialization,
            ObError::Internal(_) => ErrorKind::Internal,
        }
    }

    /// The text shown to the user, such as `VALIDATION FAILED — Secret cannot be empty`.
    pub fn message(&self) -> (r: String)
        ensures
            r@ == message_of(self@),
    {
        proof {
            reveal_strlit("UNAVAILABLE — ");
            reveal_strlit("NOT CONNECTED — ");
            reveal_strlit("REQUIRES CONFIGURATION — ");
            reveal_strlit("PERMISSION REQUIRED — ");
            reveal_strlit("SECURITY BLOCKED — ");
            reveal_strlit("VALIDATION FAILED — ");
            reveal_strlit("OPERATION CANCELLED");
            reveal_strlit("DATABASE ERROR — ");
            reveal_strlit("NETWORK ERROR — ");
            reveal_strlit("I/O ERROR — ");
            reveal_strlit("SERIALIZATION ERROR — ");
            reveal_strlit("INTERNAL ERROR — ");
            reveal_strlit("");
        }
        match self {
            ObError::Unavailable(d) => concat("UNAVAILABLE — ", d.as_str()),
            ObError::NotConnected(d) => concat("NOT CONNECTED — ", d.as_str()),
            ObError::RequiresConfiguration(d) => concat("REQUIRES CONFIGURATION — ", d.as_str()),
            ObError::PermissionRequired(d) => concat("PERMISSION REQUIRED — ", d.as_str()),
            ObError::SecurityBlocked(d) => concat("SECURITY BLOCKED — ", d.as_str()),
            ObError::Validation(d) => concat("VALIDATION FAILED — ", d.as_str()),
            ObError::Cancelled => {
                let r = concat("OPERATION CANCELLED", "");
                assert(r@ =~= message_of(self@));
                r
            },
            ObError::Database(d) => concat("DATABASE ERROR — ", d.as_str()),
            ObError::Network(d) => concat("NETWORK ERROR — ", d.as_str()),
            ObError::Io(d) => concat("I/O ERROR — ", d.as_str()),
            ObError::Serialization(d) => concat("SERIALIZATION ERROR — ", d.as_str()),
            ObError::Internal(d) => concat("INTERNAL ERROR — ", d.as_str()),
        }
    }

    /// The detail text of this error (empty for `Cancelled`).
    pub fn detail(&self) -> (r: String)
        ensures
            r@ == self@.detail,
    {
        match self {
            ObError::Cancelled => String::new(),
            ObError::Unavailable(d) | ObError::NotConnected(d) | ObError::RequiresConfiguration(d)
            | ObError::PermissionRequired(d) | ObError::SecurityBlocked(d) | ObError::Validation(d)
            | ObError::Database(d) | ObError::Network(d) | ObError::Io(d) | ObError::Serialization(
                d,
            ) | ObError::Internal(d) => d.clone(),
        }
    }
}

} // verus!
