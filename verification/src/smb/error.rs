//! Why an SMB operation failed.
//!
//! The client library does not report failures through one channel, and which
//! channel is populated depends on which code path failed: a numeric status, a
//! status name inside the message, or a negated `errno` as the return value.
//! Consulting each in turn means that no single quirk leaves the caller unable
//! to tell "no such file" from "server unreachable".

use vstd::prelude::*;
use crate::error::{Error, ErrorView};
use crate::smb::status;
use crate::text;

verus! {

/// The `errno` values that are worth telling apart, as the platform spells them.
#[derive(Clone, Copy, PartialEq, Eq, Debug, Structural)]
pub struct Errnos {
    pub enoent: i32,
    pub eacces: i32,
    pub einval: i32,
    pub enotdir: i32,
    pub eisdir: i32,
    pub enotempty: i32,
    pub econnrefused: i32,
    /// Kept apart so as not to be read as any of the others: it has no meaning
    /// of its own here.
    pub eperm: i32,
}

impl Errnos {
    /// Whether no two of the values are the same.
    pub open spec fn apart(self) -> bool {
        seq![
            self.enoent,
            self.eacces,
            self.einval,
            self.enotdir,
            self.eisdir,
            self.enotempty,
            self.econnrefused,
            self.eperm,
        ].no_duplicates()
    }
}

/// Reads the constants `ENOENT`, `EACCES`, `EINVAL`, `ENOTDIR`, `EISDIR`,
/// `ENOTEMPTY`, `ECONNREFUSED` and `EPERM` of the `libc` crate.
///
/// Their values are the platform's. What is claimed of them holds on every
/// platform: no two are the same. Which values they are is left unsaid.
#[verifier::external_body]
pub(crate) fn platform_errnos() -> (r: Errnos)
    ensures
        r.apart(),
{
    Errnos {
        enoent: libc::ENOENT,
        eacces: libc::EACCES,
        einval: libc::EINVAL,
        enotdir: libc::ENOTDIR,
        eisdir: libc::EISDIR,
        enotempty: libc::ENOTEMPTY,
        econnrefused: libc::ECONNREFUSED,
        eperm: libc::EPERM,
    }
}

// ---------------------------------------------------------------------------
// Model
// ---------------------------------------------------------------------------

/// The text of a path that may be absent.
pub open spec fn path_text(path: Option<&str>) -> Seq<char> {
    match path {
        Some(p) => p@,
        None => Seq::empty(),
    }
}

/// What is said of rejected credentials. The client library's own text is often
/// a later symptom of the rejected session, so it is kept but marked as
/// secondary.
pub open spec fn auth_text(message: Seq<char>) -> Seq<char> {
    if text::trimmed(message).len() == 0 {
        "the server rejected the credentials"@
    } else {
        "the server rejected the credentials (libsmb2 reported: "@ + text::trimmed(message) + ")"@
    }
}

/// What a status code means, where it has a portable meaning.
pub open spec fn status_meaning(
    code: u32,
    message: Seq<char>,
    path: Seq<char>,
) -> Option<ErrorView> {
    if code == status::OBJECT_NAME_NOT_FOUND || code == status::OBJECT_PATH_NOT_FOUND || code
        == status::NO_SUCH_FILE || code == status::BAD_NETWORK_NAME {
        Some(ErrorView::NotFound { path })
    } else if code == status::ACCESS_DENIED || code == status::NETWORK_ACCESS_DENIED {
        Some(ErrorView::PermissionDenied { path })
    } else if code == status::OBJECT_NAME_COLLISION {
        Some(ErrorView::AlreadyExists { path })
    } else if code == status::NOT_A_DIRECTORY {
        Some(ErrorView::NotADirectory { path })
    } else if code == status::FILE_IS_A_DIRECTORY || code == status::CANNOT_DELETE {
        Some(ErrorView::IsADirectory { path })
    } else if code == status::DIRECTORY_NOT_EMPTY {
        Some(ErrorView::DirectoryNotEmpty { path })
    } else if code == status::LOGON_FAILURE || code == status::ACCOUNT_RESTRICTION || code
        == status::ACCOUNT_DISABLED || code == status::PASSWORD_EXPIRED {
        Some(ErrorView::Auth { message: auth_text(message) })
    } else if code == status::NETWORK_NAME_DELETED || code == status::USER_SESSION_DELETED || code
        == status::CONNECTION_DISCONNECTED || code == status::CONNECTION_RESET || code
        == status::NETWORK_SESSION_EXPIRED {
        Some(ErrorView::ConnectionLost { message })
    } else if code == status::NOT_SUPPORTED || code == status::INVALID_DEVICE_REQUEST {
        Some(ErrorView::Unsupported { operation: "this operation on this server"@ })
    } else {
        None
    }
}

/// What an `errno` means, where it has a portable meaning.
///
/// `EPERM` is deliberately absent: several unrelated statuses end up as it, so
/// it cannot be read as "permission denied" without guessing.
pub open spec fn errno_meaning(
    table: Errnos,
    errno: int,
    message: Seq<char>,
    path: Seq<char>,
) -> Option<ErrorView> {
    if errno == table.enoent {
        Some(ErrorView::NotFound { path })
    } else if errno == table.eacces {
        Some(ErrorView::PermissionDenied { path })
    } else if errno == table.enotdir {
        Some(ErrorView::NotADirectory { path })
    } else if errno == table.eisdir {
        Some(ErrorView::IsADirectory { path })
    } else if errno == table.enotempty {
        Some(ErrorView::DirectoryNotEmpty { path })
    } else if errno == table.econnrefused {
        Some(ErrorView::Auth { message: auth_text(message) })
    } else if errno == table.einval {
        Some(ErrorView::Unsupported { operation: "this operation on this server"@ })
    } else {
        None
    }
}

/// Whether a character can be part of a status name.
pub open spec fn is_token_char(c: char) -> bool {
    'A' <= c <= 'Z' || '0' <= c <= '9' || c == '_'
}

/// The longest run of name characters at the start of `s`.
pub open spec fn token_run(s: Seq<char>) -> Seq<char>
    decreases s.len(),
{
    if s.len() == 0 || !is_token_char(s[0]) {
        Seq::empty()
    } else {
        seq![s[0]] + token_run(s.drop_first())
    }
}

/// The first `STATUS_` name in a message.
pub open spec fn token_in(message: Seq<char>) -> Option<Seq<char>> {
    match text::first_at(message, "STATUS_"@) {
        Some(i) => Some(token_run(message.skip(i))),
        None => None,
    }
}

/// The code behind a status name, for the names worth classifying.
pub open spec fn code_of_name(name: Seq<char>) -> Option<u32> {
    if name == "STATUS_OBJECT_NAME_NOT_FOUND"@ {
        Some(status::OBJECT_NAME_NOT_FOUND)
    } else if name == "STATUS_OBJECT_PATH_NOT_FOUND"@ {
        Some(status::OBJECT_PATH_NOT_FOUND)
    } else if name == "STATUS_NO_SUCH_FILE"@ {
        Some(status::NO_SUCH_FILE)
    } else if name == "STATUS_BAD_NETWORK_NAME"@ {
        Some(status::BAD_NETWORK_NAME)
    } else if name == "STATUS_ACCESS_DENIED"@ {
        Some(status::ACCESS_DENIED)
    } else if name == "STATUS_NETWORK_ACCESS_DENIED"@ {
        Some(status::NETWORK_ACCESS_DENIED)
    } else if name == "STATUS_OBJECT_NAME_COLLISION"@ {
        Some(status::OBJECT_NAME_COLLISION)
    } else if name == "STATUS_NOT_A_DIRECTORY"@ {
        Some(status::NOT_A_DIRECTORY)
    } else if name == "STATUS_FILE_IS_A_DIRECTORY"@ {
        Some(status::FILE_IS_A_DIRECTORY)
    } else if name == "STATUS_DIRECTORY_NOT_EMPTY"@ {
        Some(status::DIRECTORY_NOT_EMPTY)
    } else if name == "STATUS_CANNOT_DELETE"@ {
        Some(status::CANNOT_DELETE)
    } else if name == "STATUS_LOGON_FAILURE"@ {
        Some(status::LOGON_FAILURE)
    } else if name == "STATUS_ACCOUNT_RESTRICTION"@ {
        Some(status::ACCOUNT_RESTRICTION)
    } else if name == "STATUS_ACCOUNT_DISABLED"@ {
        Some(status::ACCOUNT_DISABLED)
    } else if name == "STATUS_PASSWORD_EXPIRED"@ {
        Some(status::PASSWORD_EXPIRED)
    } else if name == "STATUS_NETWORK_NAME_DELETED"@ {
        Some(status::NETWORK_NAME_DELETED)
    } else if name == "STATUS_USER_SESSION_DELETED"@ {
        Some(status::USER_SESSION_DELETED)
    } else if name == "STATUS_CONNECTION_DISCONNECTED"@ {
        Some(status::CONNECTION_DISCONNECTED)
    } else if name == "STATUS_CONNECTION_RESET"@ {
        Some(status::CONNECTION_RESET)
    } else if name == "STATUS_NETWORK_SESSION_EXPIRED"@ {
        Some(status::NETWORK_SESSION_EXPIRED)
    } else if name == "STATUS_NOT_SUPPORTED"@ {
        Some(status::NOT_SUPPORTED)
    } else {
        None
    }
}

/// What the status name in a message means.
pub open spec fn message_meaning(message: Seq<char>, path: Seq<char>) -> Option<ErrorView> {
    match token_in(message) {
        Some(name) => match code_of_name(name) {
            Some(code) => status_meaning(code, message, path),
            None => None,
        },
        None => None,
    }
}

/// A status by its name, or as a number where it has none.
pub open spec fn name_text(code: u32, known: Option<&str>) -> Seq<char> {
    match known {
        Some(name) => name@,
        None => "0x"@ + text::hex(code as nat, 8),
    }
}

/// What is said where no channel has anything usable. A zero status is not
/// named: its name would read as success on a failure path.
pub open spec fn nothing_to_say(nterror: u32, status_name: Seq<char>, rc: int) -> Seq<char> {
    if nterror != 0 {
        "SMB operation failed with no description ("@ + status_name + ", errno "@
            + text::signed_decimal(-rc) + ")"@
    } else {
        "SMB operation failed with no description (errno "@ + text::signed_decimal(-rc) + ")"@
    }
}

/// The error for a failed operation: the status if it means something, else the
/// status named in the message, else a lost connection for a bare `-1`, else the
/// `errno`, else the message itself.
pub open spec fn classified(
    table: Errnos,
    nterror: u32,
    status_name: Seq<char>,
    rc: int,
    message: Seq<char>,
    path: Seq<char>,
) -> ErrorView {
    if nterror != 0 && status_meaning(nterror, message, path) is Some {
        status_meaning(nterror, message, path)->0
    } else if message_meaning(message, path) is Some {
        message_meaning(message, path)->0
    } else if rc == -1 {
        ErrorView::ConnectionLost {
            message: if message.len() == 0 {
                "the SMB connection was lost"@
            } else {
                message
            },
        }
    } else if rc != 0 && errno_meaning(table, -rc, message, path) is Some {
        errno_meaning(table, -rc, message, path)->0
    } else {
        ErrorView::Backend {
            message: if message.len() == 0 {
                nothing_to_say(nterror, status_name, rc)
            } else {
                message
            },
        }
    }
}

// ---------------------------------------------------------------------------
// Classification
// ---------------------------------------------------------------------------

fn at(path: Option<&str>) -> (r: String)
    ensures
        r@ == path_text(path),
{
    match path {
        Some(p) => p.to_owned(),
        None => String::new(),
    }
}

/// Frame the client library's text for an authentication failure.
pub fn auth_message(libsmb2_text: &str) -> (r: String)
    ensures
        r@ == auth_text(libsmb2_text@),
{
    let detail = text::trim(libsmb2_text);
    if text::is_empty(&detail) {
        "the server rejected the credentials".to_owned()
    } else {
        let mut out = text::joined(
            "the server rejected the credentials (libsmb2 reported: ",
            &detail,
        );
        out.append(")");
        out
    }
}

/// What a status code means, where it has a portable meaning.
pub fn from_status(code: u32, message: &str, path: Option<&str>) -> (r: Option<Error>)
    ensures
        match r {
            Some(e) => status_meaning(code, message@, path_text(path)) == Some(e@),
            None => status_meaning(code, message@, path_text(path)) is None,
        },
{
    if code == status::OBJECT_NAME_NOT_FOUND || code == status::OBJECT_PATH_NOT_FOUND || code
        == status::NO_SUCH_FILE
    // The share itself does not exist, or the DFS target behind it is gone.
     || code == status::BAD_NETWORK_NAME {
        Some(Error::NotFound { path: at(path) })
    } else if code == status::ACCESS_DENIED || code == status::NETWORK_ACCESS_DENIED {
        Some(Error::PermissionDenied { path: at(path) })
    } else if code == status::OBJECT_NAME_COLLISION {
        // Making a directory over an existing name, and the rename equivalent.
        Some(Error::AlreadyExists { path: at(path) })
    } else if code == status::NOT_A_DIRECTORY {
        Some(Error::NotADirectory { path: at(path) })
    } else if code == status::FILE_IS_A_DIRECTORY || code == status::CANNOT_DELETE {
        Some(Error::IsADirectory { path: at(path) })
    } else if code == status::DIRECTORY_NOT_EMPTY {
        Some(Error::DirectoryNotEmpty { path: at(path) })
    } else if code == status::LOGON_FAILURE || code == status::ACCOUNT_RESTRICTION || code
        == status::ACCOUNT_DISABLED || code == status::PASSWORD_EXPIRED {
        Some(Error::Auth { message: auth_message(message) })
    } else if code == status::NETWORK_NAME_DELETED || code == status::USER_SESSION_DELETED || code
        == status::CONNECTION_DISCONNECTED || code == status::CONNECTION_RESET || code
        == status::NETWORK_SESSION_EXPIRED {
        // The session, or the tree underneath it, is gone, so every later call
        // on the same session fails too.
        Some(Error::ConnectionLost { message: message.to_owned() })
    } else if code == status::NOT_SUPPORTED || code == status::INVALID_DEVICE_REQUEST {
        Some(Error::Unsupported { operation: "this operation on this server" })
    } else {
        None
    }
}

/// What an `errno` means, where it has a portable meaning.
pub fn from_errno(table: &Errnos, errno: i32, message: &str, path: Option<&str>) -> (r: Option<
    Error,
>)
    ensures
        match r {
            Some(e) => errno_meaning(*table, errno as int, message@, path_text(path)) == Some(e@),
            None => errno_meaning(*table, errno as int, message@, path_text(path)) is None,
        },
{
    if errno == table.enoent {
        Some(Error::NotFound { path: at(path) })
    } else if errno == table.eacces {
        Some(Error::PermissionDenied { path: at(path) })
    } else if errno == table.enotdir {
        Some(Error::NotADirectory { path: at(path) })
    } else if errno == table.eisdir {
        Some(Error::IsADirectory { path: at(path) })
    } else if errno == table.enotempty {
        Some(Error::DirectoryNotEmpty { path: at(path) })
    } else if errno == table.econnrefused {
        // The client library maps a failed logon here.
        Some(Error::Auth { message: auth_message(message) })
    } else if errno == table.einval {
        Some(Error::Unsupported { operation: "this operation on this server" })
    } else {
        None
    }
}

/// Pull a `STATUS_SOMETHING` identifier out of an error message.
pub fn status_token(message: &str) -> (r: Option<&str>)
    ensures
        match r {
            Some(token) => token_in(message@) == Some(token@),
            None => token_in(message@) is None,
        },
{
    let chars = text::chars_of(message);
    match text::find(&chars, "STATUS_") {
        None => None,
        Some(start) => {
            let ghost rest = chars@.skip(start as int);
            let mut end: usize = start;
            proof {
                assert(rest.skip(0) =~= rest);
                assert(rest.take(0) + token_run(rest.skip(0)) =~= token_run(rest));
            }
            while end < chars.len() && is_token_character(chars[end])
                invariant
                    start <= end <= chars@.len(),
                    rest == chars@.skip(start as int),
                    rest.take(end - start) + token_run(rest.skip(end - start)) == token_run(rest),
                decreases chars@.len() - end,
            {
                proof {
                    let k = end - start;
                    assert(rest.skip(k)[0] == chars@[end as int]);
                    assert(rest.skip(k).drop_first() =~= rest.skip(k + 1));
                    assert(rest.take(k + 1) + token_run(rest.skip(k + 1)) =~= rest.take(k)
                        + token_run(rest.skip(k)));
                }
                end = end + 1;
            }
            let token = message.substring_char(start, end);
            proof {
                let k = end - start;
                if end < chars@.len() {
                    assert(rest.skip(k)[0] == chars@[end as int]);
                }
                assert(token@ =~= rest.take(k) + token_run(rest.skip(k)));
            }
            Some(token)
        },
    }
}

fn is_token_character(c: char) -> (r: bool)
    ensures
        r == is_token_char(c),
{
    ('A' <= c && c <= 'Z') || ('0' <= c && c <= '9') || c == '_'
}

/// The codes behind the status names that appear in messages.
///
/// Only the ones worth classifying are listed. An unrecognised name simply falls
/// through to the next channel.
pub fn status_from_name(name: &str) -> (r: Option<u32>)
    ensures
        r == code_of_name(name@),
{
    if text::same_text(name, "STATUS_OBJECT_NAME_NOT_FOUND") {
        Some(status::OBJECT_NAME_NOT_FOUND)
    } else if text::same_text(name, "STATUS_OBJECT_PATH_NOT_FOUND") {
        Some(status::OBJECT_PATH_NOT_FOUND)
    } else if text::same_text(name, "STATUS_NO_SUCH_FILE") {
        Some(status::NO_SUCH_FILE)
    } else if text::same_text(name, "STATUS_BAD_NETWORK_NAME") {
        Some(status::BAD_NETWORK_NAME)
    } else if text::same_text(name, "STATUS_ACCESS_DENIED") {
        Some(status::ACCESS_DENIED)
    } else if text::same_text(name, "STATUS_NETWORK_ACCESS_DENIED") {
        Some(status::NETWORK_ACCESS_DENIED)
    } else if text::same_text(name, "STATUS_OBJECT_NAME_COLLISION") {
        Some(status::OBJECT_NAME_COLLISION)
    } else if text::same_text(name, "STATUS_NOT_A_DIRECTORY") {
        Some(status::NOT_A_DIRECTORY)
    } else if text::same_text(name, "STATUS_FILE_IS_A_DIRECTORY") {
        Some(status::FILE_IS_A_DIRECTORY)
    } else if text::same_text(name, "STATUS_DIRECTORY_NOT_EMPTY") {
        Some(status::DIRECTORY_NOT_EMPTY)
    } else if text::same_text(name, "STATUS_CANNOT_DELETE") {
        Some(status::CANNOT_DELETE)
    } else if text::same_text(name, "STATUS_LOGON_FAILURE") {
        Some(status::LOGON_FAILURE)
    } else if text::same_text(name, "STATUS_ACCOUNT_RESTRICTION") {
        Some(status::ACCOUNT_RESTRICTION)
    } else if text::same_text(name, "STATUS_ACCOUNT_DISABLED") {
        Some(status::ACCOUNT_DISABLED)
    } else if text::same_text(name, "STATUS_PASSWORD_EXPIRED") {
        Some(status::PASSWORD_EXPIRED)
    } else if text::same_text(name, "STATUS_NETWORK_NAME_DELETED") {
        Some(status::NETWORK_NAME_DELETED)
    } else if text::same_text(name, "STATUS_USER_SESSION_DELETED") {
        Some(status::USER_SESSION_DELETED)
    } else if text::same_text(name, "STATUS_CONNECTION_DISCONNECTED") {
        Some(status::CONNECTION_DISCONNECTED)
    } else if text::same_text(name, "STATUS_CONNECTION_RESET") {
        Some(status::CONNECTION_RESET)
    } else if text::same_text(name, "STATUS_NETWORK_SESSION_EXPIRED") {
        Some(status::NETWORK_SESSION_EXPIRED)
    } else if text::same_text(name, "STATUS_NOT_SUPPORTED") {
        Some(status::NOT_SUPPORTED)
    } else {
        None
    }
}

/// Render an NT status for diagnostics: by the name the client library's own
/// table has for it, or as a number where it has none.
pub fn status_name(status: u32, known: Option<&str>) -> (r: String)
    ensures
        r@ == name_text(status, known),
{
    match known {
        Some(name) => name.to_owned(),
        None => text::hex_of(status),
    }
}

/// Attach the path to variants that carry one, so the caller always learns
/// which path failed. An empty path leaves the error as it is.
pub fn tap_path(e: Error, path: &str) -> (r: Error)
    ensures
        r@ == if path@.len() == 0 {
            e@
        } else {
            match e@ {
                ErrorView::NotFound { .. } => ErrorView::NotFound { path: path@ },
                ErrorView::PermissionDenied { .. } => ErrorView::PermissionDenied { path: path@ },
                ErrorView::AlreadyExists { .. } => ErrorView::AlreadyExists { path: path@ },
                ErrorView::NotADirectory { .. } => ErrorView::NotADirectory { path: path@ },
                ErrorView::IsADirectory { .. } => ErrorView::IsADirectory { path: path@ },
                ErrorView::DirectoryNotEmpty { .. } => ErrorView::DirectoryNotEmpty { path: path@ },
                other => other,
            }
        },
{
    if text::is_empty(path) {
        return e;
    }
    match e {
        Error::NotFound { .. } => Error::NotFound { path: path.to_owned() },
        Error::PermissionDenied { .. } => Error::PermissionDenied { path: path.to_owned() },
        Error::AlreadyExists { .. } => Error::AlreadyExists { path: path.to_owned() },
        Error::NotADirectory { .. } => Error::NotADirectory { path: path.to_owned() },
        Error::IsADirectory { .. } => Error::IsADirectory { path: path.to_owned() },
        Error::DirectoryNotEmpty { .. } => Error::DirectoryNotEmpty { path: path.to_owned() },
        other => other,
    }
}

/// Build the error for a failed operation from its three channels, against a
/// given table of `errno` values.
///
/// `known_name` is the client library's own name for `nterror`, if it has one.
pub fn from_channels(
    table: &Errnos,
    nterror: u32,
    rc: i32,
    message: String,
    path: Option<&str>,
    known_name: Option<&str>,
) -> (r: Error)
    requires
        rc != i32::MIN,
    ensures
        r@ == classified(
            *table,
            nterror,
            name_text(nterror, known_name),
            rc as int,
            message@,
            path_text(path),
        ),
{
    if nterror != 0 {
        if let Some(e) = from_status(nterror, &message, path) {
            return e;
        }
    }
    // The message may name a status the numeric channel did not carry. The token
    // is a fixed identifier, not prose, so matching on it is stable.
    if let Some(token) = status_token(&message) {
        if let Some(code) = status_from_name(token) {
            if let Some(e) = from_status(code, &message, path) {
                return e;
            }
        }
    }
    if rc != 0 {
        // A bare `-1` is the generic failure of the synchronous calls: a failed
        // poll, an expired timeout, a context that is unrecoverable. All of them
        // mean the connection is gone. It must not be read as an `errno`, where
        // it would be indistinguishable from a permission problem.
        if rc == -1 {
            return Error::ConnectionLost {
                message: if text::is_empty(&message) {
                    "the SMB connection was lost".to_owned()
                } else {
                    message
                },
            };
        }
        if let Some(e) = from_errno(table, -rc, &message, path) {
            return e;
        }
    }
    let described = if text::is_empty(&message) {
        let mut out = if nterror != 0 {
            let mut start = text::joined(
                "SMB operation failed with no description (",
                &status_name(nterror, known_name),
            );
            start.append(", errno ");
            start
        } else {
            "SMB operation failed with no description (errno ".to_owned()
        };
        out.append(&text::signed_decimal_of(-rc));
        out.append(")");
        out
    } else {
        message
    };
    tap_path(Error::Backend { message: described }, &at(path))
}

/// Build the error for a failed operation from its three channels.
pub fn from_parts(
    nterror: u32,
    rc: i32,
    message: String,
    path: Option<&str>,
    known_name: Option<&str>,
) -> (r: Error)
    requires
        rc != i32::MIN,
    ensures
        exists|table: Errnos|
            table.apart() && r@ == #[trigger] classified(
                table,
                nterror,
                name_text(nterror, known_name),
                rc as int,
                message@,
                path_text(path),
            ),
{
    from_channels(&platform_errnos(), nterror, rc, message, path, known_name)
}

/// The three channels of a failed call, as they were read right after it.
pub struct Failure {
    pub nterror: u32,
    /// The client library's own name for `nterror`, if it has one.
    pub known_name: Option<String>,
    pub rc: i32,
    pub message: String,
}

/// A [`Failure`] with texts.
#[verifier::ext_equal]
pub struct FailureView {
    pub nterror: u32,
    pub name: Seq<char>,
    pub rc: int,
    pub message: Seq<char>,
}

impl View for Failure {
    type V = FailureView;

    open spec fn view(&self) -> FailureView {
        FailureView {
            nterror: self.nterror,
            name: match self.known_name {
                Some(name) => name@,
                None => "0x"@ + text::hex(self.nterror as nat, 8),
            },
            rc: self.rc as int,
            message: self.message@,
        }
    }
}

impl FailureView {
    /// The error that the channels amount to.
    pub open spec fn error(self, table: Errnos, path: Seq<char>) -> ErrorView {
        classified(table, self.nterror, self.name, self.rc, self.message, path)
    }
}

impl Failure {
    /// Whether the return value can be negated, as that of every call can.
    pub open spec fn wf(&self) -> bool {
        self.rc != i32::MIN
    }

    /// The error that the channels amount to.
    pub fn error(&self, table: &Errnos, path: &str) -> (r: Error)
        requires
            self.wf(),
        ensures
            r@ == self@.error(*table, path@),
    {
        let known = match &self.known_name {
            Some(name) => Some(name.as_str()),
            None => None,
        };
        from_channels(table, self.nterror, self.rc, self.message.clone(), Some(path), known)
    }
}

// ---------------------------------------------------------------------------
// Laws
// ---------------------------------------------------------------------------

/// Each `errno` in the table has a meaning of its own.
pub proof fn every_known_errno_is_told_apart(table: Errnos, message: Seq<char>, path: Seq<char>)
    requires
        table.apart(),
    ensures
        errno_meaning(table, table.enoent as int, message, path) == Some(
            ErrorView::NotFound { path },
        ),
        errno_meaning(table, table.eacces as int, message, path) == Some(
            ErrorView::PermissionDenied { path },
        ),
        errno_meaning(table, table.enotdir as int, message, path) == Some(
            ErrorView::NotADirectory { path },
        ),
        errno_meaning(table, table.eisdir as int, message, path) == Some(
            ErrorView::IsADirectory { path },
        ),
        errno_meaning(table, table.enotempty as int, message, path) == Some(
            ErrorView::DirectoryNotEmpty { path },
        ),
        errno_meaning(table, table.econnrefused as int, message, path) == Some(
            ErrorView::Auth { message: auth_text(message) },
        ),
        errno_meaning(table, table.einval as int, message, path) == Some(
            ErrorView::Unsupported { operation: "this operation on this server"@ },
        ),
{
    let all = seq![
        table.enoent,
        table.eacces,
        table.einval,
        table.enotdir,
        table.eisdir,
        table.enotempty,
        table.econnrefused,
        table.eperm,
    ];
    assert(all[0] == table.enoent && all[1] == table.eacces && all[2] == table.einval);
    assert(all[3] == table.enotdir && all[4] == table.eisdir && all[5] == table.enotempty);
    assert(all[6] == table.econnrefused);
}

/// `EPERM` has no meaning: where no status says more, what came with it is
/// reported as it is, and never as "permission denied".
pub proof fn eperm_is_never_permission_denied(
    table: Errnos,
    nterror: u32,
    status_name: Seq<char>,
    message: Seq<char>,
    path: Seq<char>,
)
    requires
        table.apart(),
    ensures
        errno_meaning(table, table.eperm as int, message, path) is None,
        nterror == 0 && message_meaning(message, path) is None ==> {
            let error = classified(
                table,
                nterror,
                status_name,
                -table.eperm,
                message,
                path,
            );
            error is ConnectionLost || error is Backend
        },
{
    let all = seq![
        table.enoent,
        table.eacces,
        table.einval,
        table.enotdir,
        table.eisdir,
        table.enotempty,
        table.econnrefused,
        table.eperm,
    ];
    assert(all[0] == table.enoent && all[1] == table.eacces && all[2] == table.einval);
    assert(all[3] == table.enotdir && all[4] == table.eisdir && all[5] == table.enotempty);
    assert(all[6] == table.econnrefused && all[7] == table.eperm);
}

/// The numeric status outranks every other channel.
pub proof fn the_status_channel_outranks_the_others(
    table: Errnos,
    nterror: u32,
    name: Seq<char>,
    rc: int,
    message: Seq<char>,
    path: Seq<char>,
)
    requires
        nterror != 0,
        status_meaning(nterror, message, path) is Some,
    ensures
        classified(table, nterror, name, rc, message, path) == status_meaning(
            nterror,
            message,
            path,
        )->0,
{
}

/// A stale status without a portable meaning never hides what the message says.
pub proof fn an_unmapped_status_falls_through_to_the_message(
    table: Errnos,
    nterror: u32,
    name: Seq<char>,
    rc: int,
    message: Seq<char>,
    path: Seq<char>,
)
    requires
        status_meaning(nterror, message, path) is None,
        message_meaning(message, path) is Some,
    ensures
        classified(table, nterror, name, rc, message, path) == message_meaning(message, path)->0,
{
}

/// A bare `-1` without a meaningful status is a lost connection, whatever the
/// platform's `errno` values are; it is never a permission problem.
pub proof fn a_bare_minus_one_is_a_lost_connection(
    table: Errnos,
    nterror: u32,
    name: Seq<char>,
    message: Seq<char>,
    path: Seq<char>,
)
    requires
        status_meaning(nterror, message, path) is None,
        message_meaning(message, path) is None,
    ensures
        classified(table, nterror, name, -1, message, path) is ConnectionLost,
        classified(table, nterror, name, -1, message, path).fatal_to_session(),
{
}

/// A failure that no channel classifies keeps the server's own text.
pub proof fn an_unclassified_failure_keeps_the_text(
    table: Errnos,
    nterror: u32,
    name: Seq<char>,
    rc: int,
    message: Seq<char>,
    path: Seq<char>,
)
    requires
        message.len() > 0,
        rc != -1,
        status_meaning(nterror, message, path) is None,
        message_meaning(message, path) is None,
        errno_meaning(table, -rc, message, path) is None,
    ensures
        classified(table, nterror, name, rc, message, path) == (ErrorView::Backend { message }),
{
}

/// The protocol's status codes mean what the protocol says, for every message
/// and every path, and the error carries that path or that message. Every other
/// code means nothing by itself.
pub proof fn statuses_mean_what_the_protocol_says(
    code: u32,
    message: &str,
    path: Option<&str>,
    r: Option<Error>,
)
    requires
        call_ensures(from_status, (code, message, path), r),
    ensures
        code == 0xC000_0034 || code == 0xC000_003A || code == 0xC000_000F || code == 0xC000_00CC
            <==> r is Some && r->0 is NotFound,
        code == 0xC000_0022 || code == 0xC000_00CA <==> r is Some && r->0 is PermissionDenied,
        code == 0xC000_0035 <==> r is Some && r->0 is AlreadyExists,
        code == 0xC000_0103 <==> r is Some && r->0 is NotADirectory,
        code == 0xC000_00BA || code == 0xC000_0121 <==> r is Some && r->0 is IsADirectory,
        code == 0xC000_0101 <==> r is Some && r->0 is DirectoryNotEmpty,
        code == 0xC000_006D || code == 0xC000_006E || code == 0xC000_0072 || code == 0xC000_0071
            <==> r is Some && r->0 is Auth,
        code == 0xC000_00C9 || code == 0xC000_0203 || code == 0xC000_020C || code == 0xC000_020D
            || code == 0xC000_035C <==> r is Some && r->0 is ConnectionLost,
        code == 0xC000_00BB || code == 0xC000_0010 <==> r is Some && r->0 is Unsupported,
        r matches Some(e) ==> carries(e@, path, message@),
{
}

/// Whether an error names the path, or keeps the message, that it is about.
pub open spec fn carries(e: ErrorView, at: Option<&str>, message: Seq<char>) -> bool {
    match e {
        ErrorView::NotFound { path }
        | ErrorView::PermissionDenied { path }
        | ErrorView::AlreadyExists { path }
        | ErrorView::NotADirectory { path }
        | ErrorView::IsADirectory { path }
        | ErrorView::DirectoryNotEmpty { path } => match at {
            Some(p) => path == p@,
            None => path.len() == 0,
        },
        ErrorView::ConnectionLost { message: kept } => kept == message,
        ErrorView::Auth { message: kept } => kept == auth_text(message),
        ErrorView::Unsupported { .. } => true,
        _ => false,
    }
}

/// Rejected credentials are reported as that, with the client library's text
/// behind it where there is any.
pub proof fn rejected_credentials_are_reported_as_that(
    libsmb2_text: &str,
    detail: String,
    r: String,
)
    requires
        call_ensures(text::trim, (libsmb2_text,), detail),
        call_ensures(auth_message, (libsmb2_text,), r),
    ensures
        detail@.len() == 0 ==> r@ == "the server rejected the credentials"@,
        detail@.len() > 0 ==> r@ == "the server rejected the credentials (libsmb2 reported: "@
            + detail@ + ")"@,
{
}

/// An `errno` that means something is reported against the path, or with the
/// message, that came with it.
pub proof fn a_known_errno_is_reported_in_full(
    table: Errnos,
    errno: i32,
    message: &str,
    path: Option<&str>,
    r: Option<Error>,
)
    requires
        call_ensures(from_errno, (&table, errno, message, path), r),
    ensures
        r matches Some(e) ==> carries(e@, path, message@),
        r is None <==> !seq![
            table.enoent,
            table.eacces,
            table.einval,
            table.enotdir,
            table.eisdir,
            table.enotempty,
            table.econnrefused,
        ].contains(errno),
{
    let known = seq![
        table.enoent,
        table.eacces,
        table.einval,
        table.enotdir,
        table.eisdir,
        table.enotempty,
        table.econnrefused,
    ];
    assert(known[0] == table.enoent && known[1] == table.eacces && known[2] == table.einval);
    assert(known[3] == table.enotdir && known[4] == table.eisdir && known[5] == table.enotempty);
    assert(known[6] == table.econnrefused);
}

/// A status name stands for the code of that name and for no other, and only the
/// names worth classifying stand for any.
pub proof fn status_names_stand_for_their_codes(name: &str, r: Option<u32>)
    requires
        call_ensures(status_from_name, (name,), r),
    ensures
        r == Some(0xC000_0034u32) ==> name@ == "STATUS_OBJECT_NAME_NOT_FOUND"@,
        r == Some(0xC000_003Au32) ==> name@ == "STATUS_OBJECT_PATH_NOT_FOUND"@,
        r == Some(0xC000_000Fu32) ==> name@ == "STATUS_NO_SUCH_FILE"@,
        r == Some(0xC000_00CCu32) ==> name@ == "STATUS_BAD_NETWORK_NAME"@,
        r == Some(0xC000_0022u32) ==> name@ == "STATUS_ACCESS_DENIED"@,
        r == Some(0xC000_00CAu32) ==> name@ == "STATUS_NETWORK_ACCESS_DENIED"@,
        r == Some(0xC000_0035u32) ==> name@ == "STATUS_OBJECT_NAME_COLLISION"@,
        r == Some(0xC000_0103u32) ==> name@ == "STATUS_NOT_A_DIRECTORY"@,
        r == Some(0xC000_00BAu32) ==> name@ == "STATUS_FILE_IS_A_DIRECTORY"@,
        r == Some(0xC000_0101u32) ==> name@ == "STATUS_DIRECTORY_NOT_EMPTY"@,
        r == Some(0xC000_0121u32) ==> name@ == "STATUS_CANNOT_DELETE"@,
        r == Some(0xC000_006Du32) ==> name@ == "STATUS_LOGON_FAILURE"@,
        r == Some(0xC000_006Eu32) ==> name@ == "STATUS_ACCOUNT_RESTRICTION"@,
        r == Some(0xC000_0072u32) ==> name@ == "STATUS_ACCOUNT_DISABLED"@,
        r == Some(0xC000_0071u32) ==> name@ == "STATUS_PASSWORD_EXPIRED"@,
        r == Some(0xC000_00C9u32) ==> name@ == "STATUS_NETWORK_NAME_DELETED"@,
        r == Some(0xC000_0203u32) ==> name@ == "STATUS_USER_SESSION_DELETED"@,
        r == Some(0xC000_020Cu32) ==> name@ == "STATUS_CONNECTION_DISCONNECTED"@,
        r == Some(0xC000_020Du32) ==> name@ == "STATUS_CONNECTION_RESET"@,
        r == Some(0xC000_035Cu32) ==> name@ == "STATUS_NETWORK_SESSION_EXPIRED"@,
        r == Some(0xC000_00BBu32) ==> name@ == "STATUS_NOT_SUPPORTED"@,
        name@ == "STATUS_OBJECT_NAME_NOT_FOUND"@ ==> r is Some,
        name@ == "STATUS_OBJECT_PATH_NOT_FOUND"@ ==> r is Some,
        name@ == "STATUS_NO_SUCH_FILE"@ ==> r is Some,
        name@ == "STATUS_BAD_NETWORK_NAME"@ ==> r is Some,
        name@ == "STATUS_ACCESS_DENIED"@ ==> r is Some,
        name@ == "STATUS_NETWORK_ACCESS_DENIED"@ ==> r is Some,
        name@ == "STATUS_OBJECT_NAME_COLLISION"@ ==> r is Some,
        name@ == "STATUS_NOT_A_DIRECTORY"@ ==> r is Some,
        name@ == "STATUS_FILE_IS_A_DIRECTORY"@ ==> r is Some,
        name@ == "STATUS_DIRECTORY_NOT_EMPTY"@ ==> r is Some,
        name@ == "STATUS_CANNOT_DELETE"@ ==> r is Some,
        name@ == "STATUS_LOGON_FAILURE"@ ==> r is Some,
        name@ == "STATUS_ACCOUNT_RESTRICTION"@ ==> r is Some,
        name@ == "STATUS_ACCOUNT_DISABLED"@ ==> r is Some,
        name@ == "STATUS_PASSWORD_EXPIRED"@ ==> r is Some,
        name@ == "STATUS_NETWORK_NAME_DELETED"@ ==> r is Some,
        name@ == "STATUS_USER_SESSION_DELETED"@ ==> r is Some,
        name@ == "STATUS_CONNECTION_DISCONNECTED"@ ==> r is Some,
        name@ == "STATUS_CONNECTION_RESET"@ ==> r is Some,
        name@ == "STATUS_NETWORK_SESSION_EXPIRED"@ ==> r is Some,
        name@ == "STATUS_NOT_SUPPORTED"@ ==> r is Some,
        r is Some ==> {
            ||| r == Some(0xC000_0034u32)
            ||| r == Some(0xC000_003Au32)
            ||| r == Some(0xC000_000Fu32)
            ||| r == Some(0xC000_00CCu32)
            ||| r == Some(0xC000_0022u32)
            ||| r == Some(0xC000_00CAu32)
            ||| r == Some(0xC000_0035u32)
            ||| r == Some(0xC000_0103u32)
            ||| r == Some(0xC000_00BAu32)
            ||| r == Some(0xC000_0101u32)
            ||| r == Some(0xC000_0121u32)
            ||| r == Some(0xC000_006Du32)
            ||| r == Some(0xC000_006Eu32)
            ||| r == Some(0xC000_0072u32)
            ||| r == Some(0xC000_0071u32)
            ||| r == Some(0xC000_00C9u32)
            ||| r == Some(0xC000_0203u32)
            ||| r == Some(0xC000_020Cu32)
            ||| r == Some(0xC000_020Du32)
            ||| r == Some(0xC000_035Cu32)
            ||| r == Some(0xC000_00BBu32)
        },
{
}

/// The name in a message is the first one there: it starts where `STATUS_` first
/// stands, and goes on for as long as there are characters of a name.
pub proof fn the_first_status_name_is_found(message: &str, r: Option<&str>)
    requires
        call_ensures(status_token, (message,), r),
    ensures
        r is None ==> forall|i: int|
            0 <= i && i + 7 <= message@.len() ==> #[trigger] message@.subrange(i, i + 7)
                != "STATUS_"@,
        r matches Some(token) ==> exists|i: int|
            {
                &&& 0 <= i && i + token@.len() <= message@.len()
                &&& #[trigger] message@.subrange(i, i + token@.len()) == token@
                &&& message@.subrange(i, i + 7) == "STATUS_"@
                &&& forall|j: int|
                    0 <= j < i ==> #[trigger] message@.subrange(j, j + 7) != "STATUS_"@
                &&& i + token@.len() < message@.len() ==> !is_name_char(message@[i + token@.len()])
            },
        r matches Some(token) ==> forall|k: int|
            0 <= k < token@.len() ==> is_name_char(#[trigger] token@[k]),
{
    reveal_strlit("STATUS_");
    let pat = "STATUS_"@;
    text::first_from_is_first(message@, pat, 0);
    match text::first_at(message@, pat) {
        None => {
            assert forall|i: int| 0 <= i && i + 7 <= message@.len() implies #[trigger] message@.subrange(
                i,
                i + 7,
            ) != pat by {
                assert(!text::occurs_at(message@, pat, i));
            }
        },
        Some(i) => {
            let rest = message@.skip(i);
            a_run_is_as_long_as_it_can_be(rest);
            let n = token_run(rest).len();
            assert(message@.subrange(i, i + n) =~= token_run(rest));
            assert(message@.subrange(i, i + 7) == pat);
            assert forall|j: int| 0 <= j < i implies #[trigger] message@.subrange(j, j + 7)
                != pat by {
                assert(!text::occurs_at(message@, pat, j));
            }
            if i + n < message@.len() {
                assert(rest[n as int] == message@[i + n]);
            }
        },
    }
}

/// A capital letter, a digit or an underscore.
pub open spec fn is_name_char(c: char) -> bool {
    'A' <= c && c <= 'Z' || '0' <= c && c <= '9' || c == '_'
}

proof fn a_run_is_as_long_as_it_can_be(s: Seq<char>)
    ensures
        token_run(s).is_prefix_of(s),
        forall|k: int| 0 <= k < token_run(s).len() ==> is_name_char(#[trigger] token_run(s)[k]),
        token_run(s).len() < s.len() ==> !is_name_char(s[token_run(s).len() as int]),
    decreases s.len(),
{
    if s.len() > 0 && is_token_char(s[0]) {
        let rest = s.drop_first();
        a_run_is_as_long_as_it_can_be(rest);
        let run = token_run(rest);
        assert(token_run(s) =~= seq![s[0]] + run);
        assert(token_run(s) =~= s.take(run.len() as int + 1));
        if run.len() + 1 < s.len() {
            assert(rest[run.len() as int] == s[run.len() as int + 1]);
        }
        assert forall|k: int| 0 <= k < token_run(s).len() implies is_name_char(
            #[trigger] token_run(s)[k],
        ) by {
            if k > 0 {
                assert(token_run(s)[k] == run[k - 1]);
            }
        }
    } else {
        assert(token_run(s) =~= Seq::<char>::empty());
    }
}

/// The channels are asked in their order, and the first that means something
/// decides: the status, then the status that the message names, then the return
/// value, where a bare `-1` is a lost connection. A failure that none of them
/// classifies keeps its text.
pub proof fn the_first_channel_that_speaks_decides(
    table: Errnos,
    nterror: u32,
    rc: i32,
    message: String,
    path: Option<&str>,
    known_name: Option<&str>,
    text: &str,
    by_status: Option<Error>,
    token: Option<&str>,
    code: Option<u32>,
    by_name: Option<Error>,
    by_errno: Option<Error>,
    r: Error,
)
    requires
        call_ensures(from_channels, (&table, nterror, rc, message, path, known_name), r),
        text@ == message@,
        call_ensures(from_status, (nterror, text, path), by_status),
        call_ensures(status_token, (text,), token),
        token matches Some(t) ==> call_ensures(status_from_name, (t,), code),
        token is None ==> code is None,
        code matches Some(c) ==> call_ensures(from_status, (c, text, path), by_name),
        code is None ==> by_name is None,
        call_ensures(from_errno, (&table, (-rc) as i32, text, path), by_errno),
        rc != i32::MIN,
    ensures
        nterror != 0 && by_status is Some ==> r@ == by_status->0@,
        (nterror == 0 || by_status is None) && by_name is Some ==> r@ == by_name->0@,
        (nterror == 0 || by_status is None) && by_name is None ==> {
            &&& rc == -1 ==> r@ is ConnectionLost
            &&& rc == -1 && message@.len() > 0 ==> r@ == (ErrorView::ConnectionLost {
                message: message@,
            })
            &&& rc != -1 && rc != 0 && by_errno is Some ==> r@ == by_errno->0@
            &&& rc == 0 || (rc != -1 && by_errno is None) ==> r@ is Backend
            &&& (rc == 0 || (rc != -1 && by_errno is None)) && message@.len() > 0 ==> r@ == (
            ErrorView::Backend { message: message@ })
        },
{
}

/// A failed call is classified by what was read right after it, each channel as
/// itself, and against the path it is about.
pub proof fn a_failure_is_classified_by_its_channels(
    f: Failure,
    table: Errnos,
    path: &str,
    name: Option<&str>,
    expected: Error,
    r: Error,
)
    requires
        f.wf(),
        match (f.known_name, name) {
            (Some(a), Some(b)) => a@ == b@,
            (None, None) => true,
            _ => false,
        },
        call_ensures(
            from_channels,
            (&table, f.nterror, f.rc, f.message, Some(path), name),
            expected,
        ),
        call_ensures(Failure::error, (&f, &table, path), r),
    ensures
        r@ == expected@,
{
}

/// A failure without any text says so, and gives the return value, and the status
/// where there was one.
pub proof fn a_silent_failure_gives_its_numbers(
    table: Errnos,
    nterror: u32,
    name: Seq<char>,
    rc: int,
    path: Seq<char>,
)
    requires
        status_meaning(nterror, Seq::empty(), path) is None,
        rc == 0 || (rc != -1 && errno_meaning(table, -rc, Seq::empty(), path) is None),
    ensures
        ({
            let number = text::signed_decimal(-rc);
            let e = classified(table, nterror, name, rc, Seq::empty(), path);
            &&& e is Backend
            &&& nterror == 0 ==> e->Backend_message
                == "SMB operation failed with no description (errno "@ + number + ")"@
            &&& nterror != 0 ==> e->Backend_message
                == "SMB operation failed with no description ("@ + name + ", errno "@ + number
                + ")"@
        }),
{
    reveal_strlit("STATUS_");
    text::first_from_is_first(Seq::empty(), "STATUS_"@, 0);
}

/// A path is attached to every error that names one, and to no other.
pub proof fn a_path_is_attached_where_there_is_one(e: Error, path: &str, r: Error)
    requires
        call_ensures(tap_path, (e, path), r),
    ensures
        path@.len() == 0 ==> r@ == e@,
        path@.len() > 0 && e@ is NotFound ==> r@ == (ErrorView::NotFound { path: path@ }),
        path@.len() > 0 && e@ is PermissionDenied ==> r@ == (ErrorView::PermissionDenied {
            path: path@,
        }),
        path@.len() > 0 && e@ is AlreadyExists ==> r@ == (ErrorView::AlreadyExists { path: path@ }),
        path@.len() > 0 && e@ is NotADirectory ==> r@ == (ErrorView::NotADirectory { path: path@ }),
        path@.len() > 0 && e@ is IsADirectory ==> r@ == (ErrorView::IsADirectory { path: path@ }),
        path@.len() > 0 && e@ is DirectoryNotEmpty ==> r@ == (ErrorView::DirectoryNotEmpty {
            path: path@,
        }),
        e@ is InvalidPath || e@ is Unsupported || e@ is ConnectionLost || e@ is Auth || e@ is Backend
            || e@ is Io ==> r@ == e@,
{
}

/// A status is shown by the name the client library has for it, and by its number
/// where it has none.
pub proof fn a_status_is_shown_by_its_name(status: u32, known: Option<&str>, r: String)
    requires
        call_ensures(status_name, (status, known), r),
    ensures
        known matches Some(name) ==> r@ == name@,
        known is None ==> r@ == "0x"@ + text::hex(status as nat, 8),
{
}

} // verus!
