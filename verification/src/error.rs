//! Errors surfaced by a storage backend.

use vstd::prelude::*;
use crate::text;

verus! {

/// What went wrong with a single input or output operation.
#[derive(Clone, Copy, Debug, PartialEq, Eq, Hash, Structural)]
pub enum IoErrorKind {
    NotFound,
    PermissionDenied,
    AlreadyExists,
    NotADirectory,
    IsADirectory,
    DirectoryNotEmpty,
    Interrupted,
    TimedOut,
    UnexpectedEof,
    Other,
}

/// A per-operation failure: its kind and its description.
#[derive(Clone, Debug, PartialEq, Eq)]
pub struct IoError {
    pub kind: IoErrorKind,
    pub message: String,
}

/// An [`IoError`] with its description as a sequence of characters.
#[verifier::ext_equal]
pub struct IoErrorView {
    pub kind: IoErrorKind,
    pub message: Seq<char>,
}

impl View for IoError {
    type V = IoErrorView;

    open spec fn view(&self) -> IoErrorView {
        IoErrorView { kind: self.kind, message: self.message@ }
    }
}

impl IoError {
    pub fn new(kind: IoErrorKind, message: &str) -> (r: Self)
        ensures
            r@ == (IoErrorView { kind, message: message@ }),
    {
        IoError { kind, message: message.to_owned() }
    }

    pub fn kind(&self) -> (r: IoErrorKind)
        ensures
            r == self@.kind,
    {
        self.kind
    }
}

/// Errors surfaced by a storage backend.
///
/// The variants are chosen so callers can make decisions, not merely display
/// text. In particular [`Error::ConnectionLost`] is kept apart from
/// [`Error::Io`]: the first means the session is gone and every subsequent
/// operation on this backend will also fail, while the second is a
/// per-operation failure that leaves the session usable.
#[derive(Clone, Debug, PartialEq, Eq)]
pub enum Error {
    NotFound { path: String },
    PermissionDenied { path: String },
    AlreadyExists { path: String },
    NotADirectory { path: String },
    IsADirectory { path: String },
    DirectoryNotEmpty { path: String },
    /// The path could not be represented on the target backend: it contains a
    /// character the protocol forbids, or it is longer than the server accepts.
    InvalidPath { path: String, reason: String },
    /// The backend cannot perform this operation at all.
    Unsupported { operation: &'static str },
    /// The underlying session is broken. Reconnecting is required.
    ConnectionLost { message: String },
    Auth { message: String },
    /// The server rejected the request for a reason that has no portable
    /// equivalent. Carries the backend's own description so it is not lost.
    Backend { message: String },
    Io(IoError),
}

/// An [`Error`] with every string taken as a sequence of characters. Two errors
/// with the same view carry the same information.
#[verifier::ext_equal]
pub enum ErrorView {
    NotFound { path: Seq<char> },
    PermissionDenied { path: Seq<char> },
    AlreadyExists { path: Seq<char> },
    NotADirectory { path: Seq<char> },
    IsADirectory { path: Seq<char> },
    DirectoryNotEmpty { path: Seq<char> },
    InvalidPath { path: Seq<char>, reason: Seq<char> },
    Unsupported { operation: Seq<char> },
    ConnectionLost { message: Seq<char> },
    Auth { message: Seq<char> },
    Backend { message: Seq<char> },
    Io(IoErrorView),
}

impl View for Error {
    type V = ErrorView;

    open spec fn view(&self) -> ErrorView {
        match *self {
            Error::NotFound { path } => ErrorView::NotFound { path: path@ },
            Error::PermissionDenied { path } => ErrorView::PermissionDenied { path: path@ },
            Error::AlreadyExists { path } => ErrorView::AlreadyExists { path: path@ },
            Error::NotADirectory { path } => ErrorView::NotADirectory { path: path@ },
            Error::IsADirectory { path } => ErrorView::IsADirectory { path: path@ },
            Error::DirectoryNotEmpty { path } => ErrorView::DirectoryNotEmpty { path: path@ },
            Error::InvalidPath { path, reason } => ErrorView::InvalidPath {
                path: path@,
                reason: reason@,
            },
            Error::Unsupported { operation } => ErrorView::Unsupported { operation: operation@ },
            Error::ConnectionLost { message } => ErrorView::ConnectionLost { message: message@ },
            Error::Auth { message } => ErrorView::Auth { message: message@ },
            Error::Backend { message } => ErrorView::Backend { message: message@ },
            Error::Io(e) => ErrorView::Io(e@),
        }
    }
}

impl ErrorView {
    /// Whether the same operation on the same session could succeed next time.
    pub open spec fn retryable(self) -> bool {
        self matches ErrorView::Io(e) && e.kind == IoErrorKind::Interrupted
    }

    /// Whether the session has to be established anew.
    pub open spec fn fatal_to_session(self) -> bool {
        self is ConnectionLost || self is Auth
    }

    /// The text shown to a user.
    pub open spec fn text(self) -> Seq<char> {
        match self {
            ErrorView::NotFound { path } => "not found: "@ + path,
            ErrorView::PermissionDenied { path } => "permission denied: "@ + path,
            ErrorView::AlreadyExists { path } => "already exists: "@ + path,
            ErrorView::NotADirectory { path } => "not a directory: "@ + path,
            ErrorView::IsADirectory { path } => "is a directory: "@ + path,
            ErrorView::DirectoryNotEmpty { path } => "directory not empty: "@ + path,
            ErrorView::InvalidPath { path, reason } => {
                "path not representable on this backend: "@ + path + " ("@ + reason + ")"@
            },
            ErrorView::Unsupported { operation } => {
                "operation not supported by this backend: "@ + operation
            },
            ErrorView::ConnectionLost { message } => "connection lost: "@ + message,
            ErrorView::Auth { message } => "authentication failed: "@ + message,
            ErrorView::Backend { message } => "backend error: "@ + message,
            ErrorView::Io(e) => e.message,
        }
    }
}

impl Error {
    /// Whether retrying the *same operation* on the same session could succeed.
    ///
    /// [`Error::ConnectionLost`] is deliberately `false`: retrying against a
    /// dead session just fails again. Callers should re-establish the session
    /// first, then retry.
    pub fn is_retryable(&self) -> (r: bool)
        ensures
            r == self@.retryable(),
    {
        match self {
            Error::Io(e) => e.kind == IoErrorKind::Interrupted,
            _ => false,
        }
    }

    /// Whether this error means the session must be re-established.
    pub fn is_fatal_to_session(&self) -> (r: bool)
        ensures
            r == self@.fatal_to_session(),
    {
        matches!(self, Error::ConnectionLost { .. } | Error::Auth { .. })
    }

    /// Shorthand for the most common variant, for backend implementations.
    pub fn not_found(path: &str) -> (r: Self)
        ensures
            r@ == (ErrorView::NotFound { path: path@ }),
    {
        Error::NotFound { path: path.to_owned() }
    }

    /// Shorthand used by backends when the transport dies underneath them.
    pub fn connection_lost(message: &str) -> (r: Self)
        ensures
            r@ == (ErrorView::ConnectionLost { message: message@ }),
    {
        Error::ConnectionLost { message: message.to_owned() }
    }

    /// Wrap a backend-specific failure that has no portable equivalent. Keep
    /// the backend's own description in `message` so it is not lost to the
    /// caller.
    pub fn backend(message: &str) -> (r: Self)
        ensures
            r@ == (ErrorView::Backend { message: message@ }),
    {
        Error::Backend { message: message.to_owned() }
    }

    /// A path that the target backend cannot represent, and why.
    pub fn invalid_path(path: &str, reason: &str) -> (r: Self)
        ensures
            r@ == (ErrorView::InvalidPath { path: path@, reason: reason@ }),
    {
        Error::InvalidPath { path: path.to_owned(), reason: reason.to_owned() }
    }

    /// The text shown to a user.
    pub fn to_string(&self) -> (r: String)
        ensures
            r@ == self@.text(),
    {
        match self {
            Error::NotFound { path } => text::joined("not found: ", path),
            Error::PermissionDenied { path } => text::joined("permission denied: ", path),
            Error::AlreadyExists { path } => text::joined("already exists: ", path),
            Error::NotADirectory { path } => text::joined("not a directory: ", path),
            Error::IsADirectory { path } => text::joined("is a directory: ", path),
            Error::DirectoryNotEmpty { path } => text::joined("directory not empty: ", path),
            Error::InvalidPath { path, reason } => {
                let mut out = text::joined("path not representable on this backend: ", path);
                out.append(" (");
                out.append(reason);
                out.append(")");
                out
            },
            Error::Unsupported { operation } => text::joined(
                "operation not supported by this backend: ",
                operation,
            ),
            Error::ConnectionLost { message } => text::joined("connection lost: ", message),
            Error::Auth { message } => text::joined("authentication failed: ", message),
            Error::Backend { message } => text::joined("backend error: ", message),
            Error::Io(e) => e.message.clone(),
        }
    }
}

/// A dead session is never worth retrying on: no error is at once retryable and
/// fatal to its session.
pub proof fn retryable_errors_keep_the_session(e: ErrorView)
    ensures
        !(e.retryable() && e.fatal_to_session()),
{
}

pub type Result<T, E = Error> = std::result::Result<T, E>;

/// Only an interrupted operation is worth the same try again, and only a lost
/// connection or rejected credentials end a session.
pub proof fn errors_say_what_to_do_about_them(e: Error, retry: bool, fatal: bool)
    requires
        call_ensures(Error::is_retryable, (&e,), retry),
        call_ensures(Error::is_fatal_to_session, (&e,), fatal),
    ensures
        retry <==> (e matches Error::Io(io) && io.kind is Interrupted),
        fatal <==> e is ConnectionLost || e is Auth,
{
}

/// An error is made of what it is given.
pub proof fn errors_are_made_of_what_they_are_given(
    path: &str,
    reason: &str,
    missing: Error,
    lost: Error,
    own: Error,
    invalid: Error,
    kind: IoErrorKind,
    io: IoError,
)
    requires
        call_ensures(Error::not_found, (path,), missing),
        call_ensures(Error::connection_lost, (reason,), lost),
        call_ensures(Error::backend, (reason,), own),
        call_ensures(Error::invalid_path, (path, reason), invalid),
        call_ensures(IoError::new, (kind, reason), io),
    ensures
        missing is NotFound && missing->NotFound_path@ == path@,
        lost is ConnectionLost && lost->ConnectionLost_message@ == reason@,
        own is Backend && own->Backend_message@ == reason@,
        invalid is InvalidPath && invalid->InvalidPath_path@ == path@ && invalid->reason@
            == reason@,
        io.kind == kind && io.message@ == reason@,
{
}

/// What a user reads is what the error carries, behind words for its kind; a
/// per-operation failure speaks for itself.
pub proof fn the_text_says_what_went_wrong(e: Error, r: String)
    requires
        call_ensures(Error::to_string, (&e,), r),
    ensures
        match e {
            Error::NotFound { path } => r@ == "not found: "@ + path@,
            Error::PermissionDenied { path } => r@ == "permission denied: "@ + path@,
            Error::AlreadyExists { path } => r@ == "already exists: "@ + path@,
            Error::NotADirectory { path } => r@ == "not a directory: "@ + path@,
            Error::IsADirectory { path } => r@ == "is a directory: "@ + path@,
            Error::DirectoryNotEmpty { path } => r@ == "directory not empty: "@ + path@,
            Error::InvalidPath { path, reason } => r@
                == "path not representable on this backend: "@ + path@ + " ("@ + reason@ + ")"@,
            Error::Unsupported { operation } => r@ == "operation not supported by this backend: "@
                + operation@,
            Error::ConnectionLost { message } => r@ == "connection lost: "@ + message@,
            Error::Auth { message } => r@ == "authentication failed: "@ + message@,
            Error::Backend { message } => r@ == "backend error: "@ + message@,
            Error::Io(e) => r@ == e.message@,
        },
{
}

} // verus!
