//! `file://` endpoints.

use vstd::prelude::*;
use crate::error::{Error, ErrorView, IoError, IoErrorKind, IoErrorView};
use crate::registry::{self, BackendDriver};
use crate::text;

verus! {

/// Opens [`LocalBackend`](crate::local::backend::LocalBackend) sessions for
/// `file://` endpoints.
#[derive(Debug, Clone, Copy)]
pub struct LocalDriver;

impl LocalDriver {
    pub fn new() -> (r: Self)
        ensures
            r.scheme_text() == "file"@,
    {
        LocalDriver
    }
}

impl Default for LocalDriver {
    fn default() -> (r: Self)
        ensures
            r.scheme_text() == "file"@,
    {
        LocalDriver
    }
}

impl BackendDriver for LocalDriver {
    open spec fn scheme_text(&self) -> Seq<char> {
        "file"@
    }

    fn scheme(&self) -> (r: &'static str) {
        "file"
    }

    fn description(&self) -> (r: &'static str)
        ensures
            r@ == "Local filesystem"@,
    {
        "Local filesystem"
    }
}

/// Whether a character is an ASCII letter.
pub open spec fn is_letter(c: char) -> bool {
    'a' <= c <= 'z' || 'A' <= c <= 'Z'
}

/// Whether `s` has the shape of a URI path that holds a Windows drive.
pub open spec fn is_drive_path(s: Seq<char>) -> bool {
    s.len() >= 3 && s[0] == '/' && is_letter(s[1]) && s[2] == ':'
}

/// Whether `s` looks like a URI path holding a Windows drive, e.g. `/D:/media`.
pub fn looks_like_drive_path(s: &str) -> (r: bool)
    ensures
        r == is_drive_path(s@),
{
    let chars = text::chars_of(s);
    chars.len() >= 3 && chars[0] == '/' && (('a' <= chars[1] && chars[1] <= 'z') || ('A' <= chars[1]
        && chars[1] <= 'Z')) && chars[2] == ':'
}

/// The path behind the part of a `file://` URI after `://`.
pub open spec fn root_path(rest: Seq<char>, windows: bool) -> Seq<char> {
    if windows && is_drive_path(rest) {
        rest.skip(1)
    } else {
        rest
    }
}

/// Turn the part of a `file://` URI after `://` into a filesystem path.
///
/// `file:///D:/media` leaves `/D:/media`. That leading slash is the URI's path
/// root; on Windows a drive letter follows it, and keeping the slash would
/// produce a path rooted on the current drive rather than at `D:`.
///
/// The path is taken literally, without percent-decoding: file URIs make `%`
/// ambiguous, and guessing wrong corrupts real paths.
pub fn parse_root(rest: &str, windows: bool) -> (r: Result<String, Error>)
    ensures
        if rest@.len() == 0 {
            r matches Err(e) && e@ == (ErrorView::InvalidPath {
                path: "file://"@,
                reason: "a `file://` endpoint must name a directory, e.g. `file:///D:/media`"@,
            })
        } else {
            r matches Ok(path) && path@ == root_path(rest@, windows)
        },
{
    if text::is_empty(rest) {
        return Err(
            Error::invalid_path(
                "file://",
                "a `file://` endpoint must name a directory, e.g. `file:///D:/media`",
            ),
        );
    }
    if windows && looks_like_drive_path(rest) {
        let chars = text::chars_of(rest);
        let path = text::string_of(&chars, 1, chars.len());
        assert(path@ =~= rest@.skip(1));
        Ok(path)
    } else {
        Ok(rest.to_owned())
    }
}

/// `s` with every backslash as a slash.
pub open spec fn forward(s: Seq<char>) -> Seq<char> {
    s.map_values(
        |c: char|
            if c == '\\' {
                '/'
            } else {
                c
            },
    )
}

/// The part of a root's URI after `://`.
pub open spec fn uri_rest(root: Seq<char>) -> Seq<char> {
    if forward(root).len() > 0 && forward(root)[0] == '/' {
        forward(root)
    } else {
        seq!['/'] + forward(root)
    }
}

/// The inverse of [`parse_root`]: render a canonical root as a `file://` URI.
pub fn uri_for(root: &str) -> (r: String)
    ensures
        r@ == "file://"@ + uri_rest(root@),
{
    let mut s = String::new();
    for c in it: root.chars()
        invariant
            it.seq() == root@,
            s@ == forward(root@.take(it.index())),
    {
        if c == '\\' {
            s.push('/');
        } else {
            s.push(c);
        }
        assert(s@ =~= forward(root@.take(it.index() + 1)));
    }
    assert(root@.take(root@.len() as int) =~= root@);
    let chars = text::chars_of(&s);
    if chars.len() > 0 && chars[0] == '/' {
        // Already absolute in URI terms: `/home/u` gives `file:///home/u`.
        text::joined("file://", &s)
    } else {
        // A Windows drive: `D:/media` gives `file:///D:/media`.
        let mut out = "file://".to_owned();
        out.push('/');
        out.append(&s);
        assert(out@ =~= "file://"@ + (seq!['/'] + s@));
        out
    }
}

/// The URI of a root is an endpoint of this driver's scheme.
pub proof fn the_uri_of_a_root_is_an_endpoint(root: Seq<char>)
    ensures
        registry::endpoint_fault("file://"@ + uri_rest(root)) is None,
        registry::endpoint_of("file://"@ + uri_rest(root)).scheme == "file"@,
        registry::endpoint_of("file://"@ + uri_rest(root)).authority_and_path == uri_rest(root),
{
    reveal_strlit("file://");
    reveal_strlit("://");
    reveal_strlit("file");
    let rest = uri_rest(root);
    let uri = "file://"@ + rest;
    let pat = "://"@;
    assert forall|j: int| 0 <= j < 4 implies !text::occurs_at(uri, pat, j) by {
        if text::occurs_at(uri, pat, j) {
            assert(uri.subrange(j, j + pat.len())[0] == pat[0]);
            assert(uri[j] == "file://"@[j]);
        }
    }
    assert(uri.subrange(4, 7) =~= pat);
    assert(text::occurs_at(uri, pat, 4));
    text::first_from_is_first(uri, pat, 0);
    assert(text::first_at(uri, pat) == Some(4int));
    assert(uri.take(4) =~= "file"@);
    assert(uri.skip(7) =~= rest);
    assert(text::lowered("file"@) =~= "file"@);
}

/// Rendering a root and parsing it again gives the root back, with slashes for
/// backslashes: for a rooted path on any platform, and for a drive on Windows.
pub proof fn parsing_undoes_rendering(root: Seq<char>, windows: bool)
    requires
        root.len() > 0,
        (root[0] == '/' || root[0] == '\\') && !(windows && is_drive_path(forward(root))) || (windows
            && root.len() >= 2 && is_letter(root[0]) && root[1] == ':'),
    ensures
        uri_rest(root).len() > 0,
        root_path(uri_rest(root), windows) == forward(root),
{
    if !(root[0] == '/' || root[0] == '\\') {
        let rest = uri_rest(root);
        assert(rest[0] == '/' && rest[1] == root[0] && rest[2] == root[1]);
        assert(rest.skip(1) =~= forward(root));
    }
}

/// Why a root that was asked for cannot be used.
pub open spec fn unreachable_root(e: IoErrorView, requested: Seq<char>) -> ErrorView {
    if e.kind == IoErrorKind::NotFound {
        ErrorView::NotFound { path: requested }
    } else {
        ErrorView::Io(e)
    }
}

/// The error for a root that could not be made canonical.
pub fn root_error(e: IoError, requested: &str) -> (r: Error)
    ensures
        r@ == unreachable_root(e@, requested@),
{
    if e.kind == IoErrorKind::NotFound {
        Error::NotFound { path: requested.to_owned() }
    } else {
        Error::Io(e)
    }
}

/// Whether a canonical root can be served: only a directory can.
pub fn check_root(canonical: &str, is_dir: bool) -> (r: Result<(), Error>)
    ensures
        if is_dir {
            r is Ok
        } else {
            r matches Err(e) && e@ == (ErrorView::NotADirectory { path: canonical@ })
        },
{
    if is_dir {
        Ok(())
    } else {
        Err(Error::NotADirectory { path: canonical.to_owned() })
    }
}

// ---------------------------------------------------------------------------
// Laws
// ---------------------------------------------------------------------------

/// A root is taken literally. Only on Windows, and only before a drive letter and
/// a colon, is the URI's slash left out; nothing else ever is.
pub proof fn a_root_is_taken_literally(rest: &str, windows: bool, r: Result<String, Error>)
    requires
        call_ensures(parse_root, (rest, windows), r),
    ensures
        rest@.len() == 0 <==> r is Err,
        r matches Ok(path) ==> path@ == rest@ || seq!['/'] + path@ == rest@,
        !windows && r is Ok ==> r->Ok_0@ == rest@,
        windows && rest@.len() >= 3 && rest@[0] == '/' && ('a' <= rest@[1] <= 'z' || 'A' <= rest@[1]
            <= 'Z') && rest@[2] == ':' ==> seq!['/'] + r->Ok_0@ == rest@,
        windows && rest@.len() > 0 && !(rest@.len() >= 3 && rest@[0] == '/' && ('a' <= rest@[1]
            <= 'z' || 'A' <= rest@[1] <= 'Z') && rest@[2] == ':') ==> r->Ok_0@ == rest@,
        r matches Err(e) ==> e@ is InvalidPath,
{
    if rest@.len() > 0 && rest@[0] == '/' {
        assert(seq!['/'] + rest@.skip(1) =~= rest@);
    }
}

/// A root's URI is `file://`, a slash unless the root starts with one, and the
/// root itself with slashes for its backslashes.
pub proof fn a_root_is_shown_with_slashes(root: &str, r: String)
    requires
        call_ensures(uri_for, (root,), r),
    ensures
        r@.take(7) == "file://"@,
        r@.len() > 7 && r@[7] == '/',
        r@.len() == 7 + root@.len() || r@.len() == 8 + root@.len(),
        forall|i: int|
            #![trigger root@[i]]
            0 <= i < root@.len() ==> r@[r@.len() - root@.len() + i] == if root@[i] == '\\' {
                '/'
            } else {
                root@[i]
            },
        root@.len() > 0 && (root@[0] == '/' || root@[0] == '\\') <==> r@.len() == 7 + root@.len(),
{
    reveal_strlit("file://");
    assert(r@.take(7) =~= "file://"@);
    assert forall|i: int| #![trigger root@[i]] 0 <= i < root@.len() implies r@[r@.len()
        - root@.len() + i] == (if root@[i] == '\\' {
        '/'
    } else {
        root@[i]
    }) by {
        assert(forward(root@)[i] == (if root@[i] == '\\' {
            '/'
        } else {
            root@[i]
        }));
    }
}

/// A root that is not there is reported as that; any other failure stays as it
/// is. Only a directory can be served.
pub proof fn a_root_has_to_be_a_directory(
    e: IoError,
    requested: &str,
    missing: Error,
    canonical: &str,
    is_dir: bool,
    checked: Result<(), Error>,
)
    requires
        call_ensures(root_error, (e, requested), missing),
        call_ensures(check_root, (canonical, is_dir), checked),
    ensures
        e.kind is NotFound ==> missing@ == (ErrorView::NotFound { path: requested@ }),
        !(e.kind is NotFound) ==> missing@ == ErrorView::Io(e@),
        checked is Ok <==> is_dir,
        checked matches Err(e) ==> e@ == (ErrorView::NotADirectory { path: canonical@ }),
{
}

} // verus!
