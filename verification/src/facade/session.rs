//! A live connection to one endpoint, as the facade sees it.

use vstd::prelude::*;
use crate::facade::error::{self, KernelError, KernelErrorView};
use crate::facade::types::{self, already_closed};
use crate::error::ErrorView;
use crate::path::{self, VfsPath};

verus! {

/// A live connection to one endpoint: what is decided before the backend is
/// asked.
pub struct Session {
    endpoint: String,
    closed: bool,
}

/// A [`Session`] as plain values.
#[verifier::ext_equal]
pub struct SessionView {
    pub endpoint: Seq<char>,
    pub closed: bool,
}

impl View for Session {
    type V = SessionView;

    closed spec fn view(&self) -> SessionView {
        SessionView { endpoint: self.endpoint@, closed: self.closed }
    }
}

/// What a path that a caller gave comes to.
pub open spec fn entered_path(raw: Seq<char>) -> Result<Seq<Seq<char>>, KernelErrorView> {
    match path::normalized(raw) {
        Some(segs) => Ok(segs),
        None => Err(
            error::exported(
                ErrorView::InvalidPath { path: raw, reason: "path escapes the backend root"@ },
            ),
        ),
    }
}

impl SessionView {
    /// Whether a call on a path goes ahead: only on an open session, and only
    /// with a path that stays inside the root.
    pub open spec fn lets_in(self, raw: Seq<char>) -> Result<Seq<Seq<char>>, KernelErrorView> {
        if self.closed {
            Err(types::closed_error("session"@))
        } else {
            entered_path(raw)
        }
    }
}

impl Session {
    /// A session that was just opened.
    pub fn new(endpoint: &str) -> (r: Self)
        ensures
            r@ == (SessionView { endpoint: endpoint@, closed: false }),
    {
        Session { endpoint: endpoint.to_owned(), closed: false }
    }

    /// The endpoint this session is connected to, as it was given.
    pub fn endpoint(&self) -> (r: String)
        ensures
            r@ == self@.endpoint,
    {
        self.endpoint.clone()
    }

    /// Whether this session has been closed.
    pub fn is_closed(&self) -> (r: bool)
        ensures
            r == self@.closed,
    {
        self.closed
    }

    /// Reject a call on a session that was closed.
    pub fn ensure_open(&self) -> (r: Result<(), KernelError>)
        ensures
            if self@.closed {
                r matches Err(e) && e@ == types::closed_error("session"@)
            } else {
                r is Ok
            },
    {
        if self.closed {
            return Err(already_closed("session"));
        }
        Ok(())
    }

    /// Normalize a path that a caller gave.
    pub fn path(raw: &str) -> (r: Result<VfsPath, KernelError>)
        ensures
            match entered_path(raw@) {
                Ok(segs) => r matches Ok(p) && p@ == segs,
                Err(v) => r matches Err(e) && e@ == v,
            },
    {
        match VfsPath::new(raw) {
            Ok(p) => Ok(p),
            Err(e) => Err(KernelError::from(e)),
        }
    }

    /// Whether a call on a path goes ahead.
    pub fn enter(&self, raw: &str) -> (r: Result<VfsPath, KernelError>)
        ensures
            match self@.lets_in(raw@) {
                Ok(segs) => r matches Ok(p) && p@ == segs,
                Err(v) => r matches Err(e) && e@ == v,
            },
    {
        match self.ensure_open() {
            Ok(_) => Session::path(raw),
            Err(e) => Err(e),
        }
    }

    /// Whether a call on two paths goes ahead; the first path is looked at
    /// first.
    pub fn enter_pair(&self, from: &str, to: &str) -> (r: Result<(VfsPath, VfsPath), KernelError>)
        ensures
            match (self@.lets_in(from@), self@.lets_in(to@)) {
                (Ok(a), Ok(b)) => r matches Ok((p, q)) && p@ == a && q@ == b,
                (Err(v), _) => r matches Err(e) && e@ == v,
                (Ok(_), Err(v)) => r matches Err(e) && e@ == v,
            },
    {
        let p = match self.enter(from) {
            Ok(p) => p,
            Err(e) => {
                return Err(e);
            },
        };
        match self.enter(to) {
            Ok(q) => Ok((p, q)),
            Err(e) => Err(e),
        }
    }

    /// Marks the session closed. Returns whether the backend has to be shut
    /// down: only the first time.
    pub fn close(&mut self) -> (r: bool)
        ensures
            r == !old(self)@.closed,
            final(self)@ == (SessionView { closed: true, ..old(self)@ }),
    {
        let first = !self.closed;
        self.closed = true;
        first
    }
}

/// After closing, every call on a path fails as a lost connection.
pub proof fn a_closed_session_refuses_further_work(s: SessionView, raw: Seq<char>)
    requires
        s.closed,
    ensures
        s.lets_in(raw) matches Err(e) && e is ConnectionLost,
{
}

/// A path that would leave the root never reaches a backend.
pub proof fn paths_that_escape_never_reach_a_backend(s: SessionView, raw: Seq<char>)
    requires
        path::normalized(raw) is None,
    ensures
        s.lets_in(raw) is Err,
        !s.closed ==> s.lets_in(raw)->Err_0 is InvalidPath,
{
}

/// A path that is let in is the one that was given: what [`VfsPath::new`] makes of
/// it. On an open session nothing else decides, and with two paths the first one
/// given stays the first.
pub proof fn paths_are_let_in_as_they_are(
    s: Session,
    from: &str,
    to: &str,
    a: Result<VfsPath, crate::error::Error>,
    b: Result<VfsPath, crate::error::Error>,
    one: Result<VfsPath, KernelError>,
    two: Result<(VfsPath, VfsPath), KernelError>,
)
    requires
        call_ensures(VfsPath::new, (from,), a),
        call_ensures(VfsPath::new, (to,), b),
        call_ensures(Session::enter, (&s, from), one),
        call_ensures(Session::enter_pair, (&s, from, to), two),
    ensures
        one is Ok <==> !s@.closed && a is Ok,
        one matches Ok(p) ==> p@ == a->Ok_0@,
        two is Ok <==> !s@.closed && a is Ok && b is Ok,
        two matches Ok((p, q)) ==> p@ == a->Ok_0@ && q@ == b->Ok_0@,
        s@.closed ==> one is Err && one->Err_0@ is ConnectionLost,
        !s@.closed && a is Err ==> one->Err_0@ is InvalidPath && one->Err_0@->InvalidPath_path
            == from@,
{
}

/// A session is closed once, and only the first time is the backend shut down.
pub proof fn a_session_is_closed_once(
    endpoint: &str,
    fresh: Session,
    s: &mut Session,
    first: bool,
)
    requires
        call_ensures(Session::new, (endpoint,), fresh),
        call_ensures(Session::close, (s,), first),
    ensures
        !fresh@.closed && fresh@.endpoint == endpoint@,
        first <==> !old(s)@.closed,
        final(s)@.closed,
        final(s)@.endpoint == old(s)@.endpoint,
{
}

/// A session answers for the endpoint it was opened with, and for whether it is
/// still open.
pub proof fn a_session_answers_for_itself(
    endpoint: &str,
    s: Session,
    known: String,
    closed: bool,
    open: Result<(), KernelError>,
)
    requires
        call_ensures(Session::new, (endpoint,), s),
        call_ensures(Session::endpoint, (&s,), known),
        call_ensures(Session::is_closed, (&s,), closed),
        call_ensures(Session::ensure_open, (&s,), open),
    ensures
        known@ == endpoint@,
        !closed,
        open is Ok,
{
}

} // verus!
