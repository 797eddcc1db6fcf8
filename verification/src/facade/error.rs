//! Errors crossing the facade.
//!
//! The kernel's own error model stays free to change as the kernel does.
//! Everything exported through the facade becomes part of a published API, so
//! it gets its own type, and the mapping is explicit.

use vstd::prelude::*;
use crate::error::{Error, ErrorView};
use crate::text;

verus! {

/// A failure the caller can act on.
#[derive(Clone, Debug, PartialEq, Eq)]
pub enum KernelError {
    /// The path does not exist.
    NotFound { path: String },
    /// The server refused access.
    PermissionDenied { path: String },
    /// Something is already there.
    AlreadyExists { path: String },
    NotADirectory { path: String },
    IsADirectory { path: String },
    DirectoryNotEmpty { path: String },
    /// The path cannot be represented on this backend at all.
    InvalidPath { path: String, reason: String },
    /// The backend cannot do this.
    Unsupported { operation: String },
    /// The session is gone; every later call on it will fail too. **Reconnect
    /// rather than retry.**
    ConnectionLost { detail: String },
    /// Credentials were rejected. Distinct from `PermissionDenied`: this one
    /// means "fix your settings", that one means "this account cannot read that
    /// file".
    Auth { detail: String },
    /// Anything else, with the backend's own description preserved.
    Backend { detail: String },
}

/// A [`KernelError`] with texts.
#[verifier::ext_equal]
pub enum KernelErrorView {
    NotFound { path: Seq<char> },
    PermissionDenied { path: Seq<char> },
    AlreadyExists { path: Seq<char> },
    NotADirectory { path: Seq<char> },
    IsADirectory { path: Seq<char> },
    DirectoryNotEmpty { path: Seq<char> },
    InvalidPath { path: Seq<char>, reason: Seq<char> },
    Unsupported { operation: Seq<char> },
    ConnectionLost { detail: Seq<char> },
    Auth { detail: Seq<char> },
    Backend { detail: Seq<char> },
}

impl View for KernelError {
    type V = KernelErrorView;

    open spec fn view(&self) -> KernelErrorView {
        match *self {
            KernelError::NotFound { path } => KernelErrorView::NotFound { path: path@ },
            KernelError::PermissionDenied { path } => KernelErrorView::PermissionDenied {
                path: path@,
            },
            KernelError::AlreadyExists { path } => KernelErrorView::AlreadyExists { path: path@ },
            KernelError::NotADirectory { path } => KernelErrorView::NotADirectory { path: path@ },
            KernelError::IsADirectory { path } => KernelErrorView::IsADirectory { path: path@ },
            KernelError::DirectoryNotEmpty { path } => KernelErrorView::DirectoryNotEmpty {
                path: path@,
            },
            KernelError::InvalidPath { path, reason } => KernelErrorView::InvalidPath {
                path: path@,
                reason: reason@,
            },
            KernelError::Unsupported { operation } => KernelErrorView::Unsupported {
                operation: operation@,
            },
            KernelError::ConnectionLost { detail } => KernelErrorView::ConnectionLost {
                detail: detail@,
            },
            KernelError::Auth { detail } => KernelErrorView::Auth { detail: detail@ },
            KernelError::Backend { detail } => KernelErrorView::Backend { detail: detail@ },
        }
    }
}

/// What a kernel error becomes at the facade. A per-operation failure keeps its
/// description and nothing else: no caller could act on its kind differently.
pub open spec fn exported(e: ErrorView) -> KernelErrorView {
    match e {
        ErrorView::NotFound { path } => KernelErrorView::NotFound { path },
        ErrorView::PermissionDenied { path } => KernelErrorView::PermissionDenied { path },
        ErrorView::AlreadyExists { path } => KernelErrorView::AlreadyExists { path },
        ErrorView::NotADirectory { path } => KernelErrorView::NotADirectory { path },
        ErrorView::IsADirectory { path } => KernelErrorView::IsADirectory { path },
        ErrorView::DirectoryNotEmpty { path } => KernelErrorView::DirectoryNotEmpty { path },
        ErrorView::InvalidPath { path, reason } => KernelErrorView::InvalidPath { path, reason },
        ErrorView::Unsupported { operation } => KernelErrorView::Unsupported { operation },
        ErrorView::ConnectionLost { message } => KernelErrorView::ConnectionLost {
            detail: message,
        },
        ErrorView::Auth { message } => KernelErrorView::Auth { detail: message },
        ErrorView::Backend { message } => KernelErrorView::Backend { detail: message },
        ErrorView::Io(e) => KernelErrorView::Backend { detail: e.message },
    }
}

impl vstd::std_specs::convert::FromSpecImpl<Error> for KernelError {
    open spec fn obeys_from_spec() -> bool {
        false
    }

    open spec fn from_spec(e: Error) -> KernelError {
        arbitrary()
    }
}

impl From<Error> for KernelError {
    fn from(e: Error) -> (r: Self)
        ensures
            r@ == exported(e@),
    {
        match e {
            Error::NotFound { path } => KernelError::NotFound { path },
            Error::PermissionDenied { path } => KernelError::PermissionDenied { path },
            Error::AlreadyExists { path } => KernelError::AlreadyExists { path },
            Error::NotADirectory { path } => KernelError::NotADirectory { path },
            Error::IsADirectory { path } => KernelError::IsADirectory { path },
            Error::DirectoryNotEmpty { path } => KernelError::DirectoryNotEmpty { path },
            Error::InvalidPath { path, reason } => KernelError::InvalidPath { path, reason },
            Error::Unsupported { operation } => KernelError::Unsupported {
                operation: operation.to_owned(),
            },
            Error::ConnectionLost { message } => KernelError::ConnectionLost { detail: message },
            Error::Auth { message } => KernelError::Auth { detail: message },
            Error::Backend { message } => KernelError::Backend { detail: message },
            Error::Io(e) => KernelError::Backend { detail: e.message },
        }
    }
}

impl KernelErrorView {
    /// The text shown to a user.
    pub open spec fn text(self) -> Seq<char> {
        match self {
            KernelErrorView::NotFound { path } => "not found: "@ + path,
            KernelErrorView::PermissionDenied { path } => "permission denied: "@ + path,
            KernelErrorView::AlreadyExists { path } => "already exists: "@ + path,
            KernelErrorView::NotADirectory { path } => "not a directory: "@ + path,
            KernelErrorView::IsADirectory { path } => "is a directory: "@ + path,
            KernelErrorView::DirectoryNotEmpty { path } => "directory not empty: "@ + path,
            KernelErrorView::InvalidPath { path, reason } => {
                "path not usable on this backend: "@ + path + " ("@ + reason + ")"@
            },
            KernelErrorView::Unsupported { operation } => "not supported: "@ + operation,
            KernelErrorView::ConnectionLost { detail } => "connection lost: "@ + detail,
            KernelErrorView::Auth { detail } => "authentication failed: "@ + detail,
            KernelErrorView::Backend { detail } => "backend error: "@ + detail,
        }
    }
}

impl KernelError {
    /// The text shown to a user.
    pub fn to_string(&self) -> (r: String)
        ensures
            r@ == self@.text(),
    {
        match self {
            KernelError::NotFound { path } => text::joined("not found: ", path),
            KernelError::PermissionDenied { path } => text::joined("permission denied: ", path),
            KernelError::AlreadyExists { path } => text::joined("already exists: ", path),
            KernelError::NotADirectory { path } => text::joined("not a directory: ", path),
            KernelError::IsADirectory { path } => text::joined("is a directory: ", path),
            KernelError::DirectoryNotEmpty { path } => text::joined("directory not empty: ", path),
            KernelError::InvalidPath { path, reason } => {
                let mut out = text::joined("path not usable on this backend: ", path);
                out.append(" (");
                out.append(reason);
                out.append(")");
                out
            },
            KernelError::Unsupported { operation } => text::joined("not supported: ", operation),
            KernelError::ConnectionLost { detail } => text::joined("connection lost: ", detail),
            KernelError::Auth { detail } => text::joined("authentication failed: ", detail),
            KernelError::Backend { detail } => text::joined("backend error: ", detail),
        }
    }
}

/// Whether the caller has to establish the session anew.
pub open spec fn needs_reconnect(e: KernelErrorView) -> bool {
    e is ConnectionLost || e is Auth
}

/// What a caller branches on survives the border: an error that is fatal to the
/// session stays one, and no other becomes one.
pub proof fn session_failures_stay_distinguishable(e: ErrorView)
    ensures
        needs_reconnect(exported(e)) == e.fatal_to_session(),
{
}

/// Apart from per-operation failures, which become backend errors, different
/// errors stay different.
pub proof fn exporting_loses_nothing(a: ErrorView, b: ErrorView)
    requires
        !(a is Io),
        !(b is Io),
        exported(a) == exported(b),
    ensures
        a == b,
{
}

/// Every error that a caller can act on crosses the border as itself, with the
/// path or the text it carries; only a per-operation failure becomes a backend
/// error, and keeps its description.
pub proof fn errors_cross_as_themselves(e: Error, r: KernelError)
    requires
        call_ensures(<KernelError as From<Error>>::from, (e,), r),
    ensures
        match e {
            Error::NotFound { path } => r is NotFound && r->NotFound_path@ == path@,
            Error::PermissionDenied { path } => r is PermissionDenied
                && r->PermissionDenied_path@ == path@,
            Error::AlreadyExists { path } => r is AlreadyExists && r->AlreadyExists_path@ == path@,
            Error::NotADirectory { path } => r is NotADirectory && r->NotADirectory_path@ == path@,
            Error::IsADirectory { path } => r is IsADirectory && r->IsADirectory_path@ == path@,
            Error::DirectoryNotEmpty { path } => r is DirectoryNotEmpty
                && r->DirectoryNotEmpty_path@ == path@,
            Error::InvalidPath { path, reason } => r is InvalidPath && r->InvalidPath_path@ == path@
                && r->reason@ == reason@,
            Error::Unsupported { operation } => r is Unsupported && r->operation@ == operation@,
            Error::ConnectionLost { message } => r is ConnectionLost && r->ConnectionLost_detail@
                == message@,
            Error::Auth { message } => r is Auth && r->Auth_detail@ == message@,
            Error::Backend { message } => r is Backend && r->Backend_detail@ == message@,
            Error::Io(e) => r is Backend && r->Backend_detail@ == e.message@,
        },
{
}

/// What a user reads ends with what the error carries, behind words for its kind.
pub proof fn the_text_says_what_went_wrong(e: KernelError, r: String)
    requires
        call_ensures(KernelError::to_string, (&e,), r),
    ensures
        match e {
            KernelError::NotFound { path } => r@ == "not found: "@ + path@,
            KernelError::PermissionDenied { path } => r@ == "permission denied: "@ + path@,
            KernelError::AlreadyExists { path } => r@ == "already exists: "@ + path@,
            KernelError::NotADirectory { path } => r@ == "not a directory: "@ + path@,
            KernelError::IsADirectory { path } => r@ == "is a directory: "@ + path@,
            KernelError::DirectoryNotEmpty { path } => r@ == "directory not empty: "@ + path@,
            KernelError::InvalidPath { path, reason } => r@
                == "path not usable on this backend: "@ + path@ + " ("@ + reason@ + ")"@,
            KernelError::Unsupported { operation } => r@ == "not supported: "@ + operation@,
            KernelError::ConnectionLost { detail } => r@ == "connection lost: "@ + detail@,
            KernelError::Auth { detail } => r@ == "authentication failed: "@ + detail@,
            KernelError::Backend { detail } => r@ == "backend error: "@ + detail@,
        },
{
}

} // verus!
