//! Opening a session, and asking it for something.

use vstd::prelude::*;
use crate::error::{Error, ErrorView};
use crate::smb::actor::SmbInfo;
use crate::smb::backend::{ConnectConfig, ConnectView};
use crate::smb::error::{Errnos, Failure, FailureView};
use crate::smb::path as smb_path;
use crate::text;

verus! {

// ---------------------------------------------------------------------------
// Connecting
// ---------------------------------------------------------------------------

/// What to configure a session context with before it connects. Every text can
/// be handed over as it is.
pub struct ConnectPlan {
    pub user: Option<String>,
    pub password: Option<String>,
    pub domain: Option<String>,
    pub server: String,
    pub share: String,
    pub seal: bool,
    pub timeout_secs: u32,
}

/// A [`ConnectPlan`] with texts.
#[verifier::ext_equal]
pub struct PlanView {
    pub user: Option<Seq<char>>,
    pub password: Option<Seq<char>>,
    pub domain: Option<Seq<char>>,
    pub server: Seq<char>,
    pub share: Seq<char>,
    pub seal: bool,
    pub timeout_secs: u32,
}

impl View for ConnectPlan {
    type V = PlanView;

    open spec fn view(&self) -> PlanView {
        PlanView {
            user: text::optional(self.user),
            password: text::optional(self.password),
            domain: text::optional(self.domain),
            server: self.server@,
            share: self.share@,
            seal: self.seal,
            timeout_secs: self.timeout_secs,
        }
    }
}

/// What is wrong with handing over a text that may be absent.
pub open spec fn fault_of(s: Option<Seq<char>>) -> Option<ErrorView> {
    match s {
        Some(v) => match smb_path::handed_over_text(v) {
            Ok(_) => None,
            Err(e) => Some(e),
        },
        None => None,
    }
}

/// The first thing wrong with what a session is to be configured with: the user,
/// the password, the domain, the server, the share, in that order.
pub open spec fn first_fault(config: ConnectView) -> Option<ErrorView> {
    if fault_of(config.user) is Some {
        fault_of(config.user)
    } else if fault_of(config.password) is Some {
        fault_of(config.password)
    } else if fault_of(config.domain) is Some {
        fault_of(config.domain)
    } else if fault_of(Some(config.server)) is Some {
        fault_of(Some(config.server))
    } else {
        fault_of(Some(config.share))
    }
}

/// What a session is configured with.
pub open spec fn plan_of(config: ConnectView) -> PlanView {
    PlanView {
        user: config.user,
        password: config.password,
        domain: config.domain,
        server: config.server,
        share: config.share,
        seal: config.seal,
        timeout_secs: config.timeout_secs,
    }
}

fn checked(s: &Option<String>) -> (r: Result<Option<String>, Error>)
    ensures
        match fault_of(text::optional(*s)) {
            None => r matches Ok(t) && text::optional(t) == text::optional(*s),
            Some(v) => r matches Err(e) && e@ == v,
        },
{
    match s {
        Some(v) => match smb_path::cstring(v) {
            Ok(t) => Ok(Some(t)),
            Err(e) => Err(e),
        },
        None => Ok(None),
    }
}

/// Checks everything that has to be handed over to open a session.
pub fn connect_plan(config: &ConnectConfig) -> (r: Result<ConnectPlan, Error>)
    ensures
        match first_fault(config@) {
            None => r matches Ok(plan) && plan@ == plan_of(config@),
            Some(v) => r matches Err(e) && e@ == v,
        },
{
    let user = match checked(&config.user) {
        Ok(s) => s,
        Err(e) => {
            return Err(e);
        },
    };
    let password = match checked(&config.password) {
        Ok(s) => s,
        Err(e) => {
            return Err(e);
        },
    };
    let domain = match checked(&config.domain) {
        Ok(s) => s,
        Err(e) => {
            return Err(e);
        },
    };
    let server = match smb_path::cstring(&config.server) {
        Ok(s) => s,
        Err(e) => {
            return Err(e);
        },
    };
    let share = match smb_path::cstring(&config.share) {
        Ok(s) => s,
        Err(e) => {
            return Err(e);
        },
    };
    Ok(
        ConnectPlan {
            user,
            password,
            domain,
            server,
            share,
            seal: config.seal,
            timeout_secs: config.timeout_secs,
        },
    )
}

/// Where opening a session stands.
pub enum ConnectState {
    /// The platform's network has to be brought up first.
    Network,
    /// A context has to be allocated.
    Allocate,
    /// The context has to be configured and connected.
    Connect(ConnectPlan),
    Connected,
    /// It failed. A context that was allocated has to be released.
    Failed { error: Error, release: bool },
}

/// A [`ConnectState`] with views.
#[verifier::ext_equal]
pub enum ConnectStateView {
    Network,
    Allocate,
    Connect(PlanView),
    Connected,
    Failed { error: ErrorView, release: bool },
}

impl View for ConnectState {
    type V = ConnectStateView;

    open spec fn view(&self) -> ConnectStateView {
        match *self {
            ConnectState::Network => ConnectStateView::Network,
            ConnectState::Allocate => ConnectStateView::Allocate,
            ConnectState::Connect(plan) => ConnectStateView::Connect(plan@),
            ConnectState::Connected => ConnectStateView::Connected,
            ConnectState::Failed { error, release } => ConnectStateView::Failed {
                error: error@,
                release,
            },
        }
    }
}

/// What came of the last thing that was asked for.
pub enum ConnectEvent {
    /// The network is up, or why it is not.
    Network(Result<(), String>),
    /// Whether a context was allocated.
    Allocated(bool),
    Connected,
    Refused(Failure),
}

/// A [`ConnectEvent`] with views.
pub enum ConnectEventView {
    Network(Result<(), Seq<char>>),
    Allocated(bool),
    Connected,
    Refused(FailureView),
}

impl View for ConnectEvent {
    type V = ConnectEventView;

    open spec fn view(&self) -> ConnectEventView {
        match *self {
            ConnectEvent::Network(r) => ConnectEventView::Network(
                match r {
                    Ok(_) => Ok(()),
                    Err(message) => Err(message@),
                },
            ),
            ConnectEvent::Allocated(there) => ConnectEventView::Allocated(there),
            ConnectEvent::Connected => ConnectEventView::Connected,
            ConnectEvent::Refused(f) => ConnectEventView::Refused(f@),
        }
    }
}

impl ConnectStateView {
    /// The state after an event. One that does not answer what was asked for
    /// changes nothing.
    pub open spec fn next(
        self,
        config: ConnectView,
        table: Errnos,
        event: ConnectEventView,
    ) -> ConnectStateView {
        match (self, event) {
            (ConnectStateView::Network, ConnectEventView::Network(r)) => match r {
                Ok(_) => ConnectStateView::Allocate,
                Err(message) => ConnectStateView::Failed {
                    error: ErrorView::Backend { message },
                    release: false,
                },
            },
            (ConnectStateView::Allocate, ConnectEventView::Allocated(there)) => if !there {
                ConnectStateView::Failed {
                    error: ErrorView::Backend {
                        message: "libsmb2 could not allocate a session context"@,
                    },
                    release: false,
                }
            } else {
                match first_fault(config) {
                    None => ConnectStateView::Connect(plan_of(config)),
                    Some(error) => ConnectStateView::Failed { error, release: true },
                }
            },
            (
                ConnectStateView::Connect(_),
                ConnectEventView::Connected,
            ) => ConnectStateView::Connected,
            (
                ConnectStateView::Connect(_),
                ConnectEventView::Refused(f),
            ) => ConnectStateView::Failed { error: f.error(table, config.label), release: true },
            _ => self,
        }
    }
}

impl ConnectState {
    /// Takes in what came of the last thing that was asked for.
    pub fn step(self, config: &ConnectConfig, table: &Errnos, event: ConnectEvent) -> (r: Self)
        requires
            event matches ConnectEvent::Refused(f) ==> f.wf(),
        ensures
            r@ == self@.next(config@, *table, event@),
    {
        match (self, event) {
            (ConnectState::Network, ConnectEvent::Network(r)) => match r {
                Ok(_) => ConnectState::Allocate,
                Err(message) => ConnectState::Failed {
                    error: Error::Backend { message },
                    release: false,
                },
            },
            (ConnectState::Allocate, ConnectEvent::Allocated(there)) => if !there {
                ConnectState::Failed {
                    error: Error::backend("libsmb2 could not allocate a session context"),
                    release: false,
                }
            } else {
                match connect_plan(config) {
                    Ok(plan) => ConnectState::Connect(plan),
                    Err(error) => ConnectState::Failed { error, release: true },
                }
            },
            (ConnectState::Connect(_), ConnectEvent::Connected) => ConnectState::Connected,
            (ConnectState::Connect(_), ConnectEvent::Refused(f)) => ConnectState::Failed {
                error: f.error(table, &config.label),
                release: true,
            },
            (state, _) => state,
        }
    }
}

/// Whether a context exists in a state that was reached from the start.
pub open spec fn has_context(s: ConnectStateView) -> bool {
    match s {
        ConnectStateView::Connect(_) | ConnectStateView::Connected => true,
        ConnectStateView::Failed { release, .. } => release,
        _ => false,
    }
}

/// A context is released exactly where one was allocated: an attempt that fails
/// asks for it if and only if the allocation had succeeded before or does now.
pub proof fn a_failed_attempt_releases_what_it_allocated(
    s: ConnectStateView,
    config: ConnectView,
    table: Errnos,
    e: ConnectEventView,
)
    ensures
        has_context(s.next(config, table, e)) == (has_context(s) || (s is Allocate && e
            == ConnectEventView::Allocated(true))),
{
}

/// What reaches the client library can be handed over as it is: no text of a
/// plan holds a NUL.
pub proof fn a_plan_holds_no_nul(config: ConnectView)
    requires
        first_fault(config) is None,
    ensures
        !plan_of(config).server.contains('\0'),
        !plan_of(config).share.contains('\0'),
        plan_of(config).user matches Some(s) ==> !s.contains('\0'),
        plan_of(config).password matches Some(s) ==> !s.contains('\0'),
        plan_of(config).domain matches Some(s) ==> !s.contains('\0'),
{
}

// ---------------------------------------------------------------------------
// A session and its thread
// ---------------------------------------------------------------------------

/// The name of the thread that owns a session.
pub fn thread_name(label: &str) -> (r: String)
    ensures
        r@ == "krystallos-smb "@ + label@,
{
    text::joined("krystallos-smb ", label)
}

/// What opening a session comes to, given what its thread reported; `None` where
/// the thread died before reporting.
pub fn ready_outcome(report: Option<Result<SmbInfo, Error>>) -> (r: Result<SmbInfo, Error>)
    ensures
        match report {
            Some(reported) => r == reported,
            None => r matches Err(e) && e@ == (ErrorView::ConnectionLost {
                message: "the SMB session thread exited before reporting a result"@,
            }),
        },
{
    match report {
        Some(reported) => reported,
        None => Err(
            Error::connection_lost("the SMB session thread exited before reporting a result"),
        ),
    }
}

/// How a request to a session's thread went.
pub enum CallOutcome<T> {
    /// The thread was gone before the request could be sent.
    NotSent,
    /// The thread ended without replying.
    NoReply,
    Replied(Result<T, Error>),
}

/// What a caller gets for a request. A thread that is gone is a failure of the
/// session, not of the operation, so it is reported as such.
pub fn call_outcome<T>(outcome: CallOutcome<T>) -> (r: Result<T, Error>)
    ensures
        match outcome {
            CallOutcome::NotSent => r matches Err(e) && e@ == (ErrorView::ConnectionLost {
                message: "the SMB session thread has exited"@,
            }),
            CallOutcome::NoReply => r matches Err(e) && e@ == (ErrorView::ConnectionLost {
                message: "the SMB session ended without replying"@,
            }),
            CallOutcome::Replied(reply) => r == reply,
        },
{
    match outcome {
        CallOutcome::NotSent => Err(Error::connection_lost("the SMB session thread has exited")),
        CallOutcome::NoReply => Err(
            Error::connection_lost("the SMB session ended without replying"),
        ),
        CallOutcome::Replied(reply) => reply,
    }
}

// ---------------------------------------------------------------------------
// Laws
// ---------------------------------------------------------------------------

/// Whether a text that may be absent holds a NUL.
pub open spec fn holds_nul(s: Option<String>) -> bool {
    s matches Some(t) && t@.contains('\0')
}

/// A session is configured with what it was asked to be, part by part, unless a
/// part holds a NUL; then it is not opened at all, and the first such part is
/// what is reported.
pub proof fn a_session_is_configured_as_asked(
    config: ConnectConfig,
    r: Result<ConnectPlan, Error>,
)
    requires
        call_ensures(connect_plan, (&config,), r),
    ensures
        r is Err <==> holds_nul(config.user) || holds_nul(config.password) || holds_nul(
            config.domain,
        ) || config.server@.contains('\0') || config.share@.contains('\0'),
        r matches Ok(plan) ==> {
            &&& plan.server@ == config.server@
            &&& plan.share@ == config.share@
            &&& plan.user is Some == config.user is Some
            &&& plan.user is Some ==> plan.user->0@ == config.user->0@
            &&& plan.password is Some == config.password is Some
            &&& plan.password is Some ==> plan.password->0@ == config.password->0@
            &&& plan.domain is Some == config.domain is Some
            &&& plan.domain is Some ==> plan.domain->0@ == config.domain->0@
            &&& plan.seal == config.seal
            &&& plan.timeout_secs == config.timeout_secs
        },
        r matches Err(e) ==> (e@ matches ErrorView::InvalidPath { path, .. } && path
            == smb_path::nul_shown(
            if holds_nul(config.user) {
                config.user->0@
            } else if holds_nul(config.password) {
                config.password->0@
            } else if holds_nul(config.domain) {
                config.domain->0@
            } else if config.server@.contains('\0') {
                config.server@
            } else {
                config.share@
            },
        )),
{
}

/// Connecting goes from the network to the context to the connection. Each step
/// that fails ends it, with its own reason; only a context that was allocated is
/// released, and a refused connection is reported against the endpoint.
pub proof fn connecting_goes_step_by_step(
    state: ConnectState,
    config: ConnectConfig,
    table: Errnos,
    event: ConnectEvent,
    r: ConnectState,
)
    requires
        call_ensures(ConnectState::step, (state, &config, &table, event), r),
    ensures
        state is Network && event is Network ==> match event->Network_0 {
            Ok(_) => r is Allocate,
            Err(message) => r is Failed && !r->release && r->error@ == (ErrorView::Backend {
                message: message@,
            }),
        },
        state is Allocate && event == ConnectEvent::Allocated(false) ==> r is Failed && !r->release
            && r->error@ is Backend,
        state is Allocate && event == ConnectEvent::Allocated(true) ==> r is Connect || (r is Failed
            && r->release && r->error@ is InvalidPath),
        state is Connect && event is Connected ==> r is Connected,
        state is Connect && event is Refused ==> r is Failed && r->release && r->error@
            == event->Refused_0@.error(table, config.label@),
        state is Connected ==> r is Connected,
        state is Failed ==> r@ == state@,
{
}

/// A session comes up as its thread reports it, and is lost where the thread
/// reports nothing.
pub proof fn the_threads_report_is_what_counts(
    report: Option<Result<SmbInfo, Error>>,
    r: Result<SmbInfo, Error>,
)
    requires
        call_ensures(ready_outcome, (report,), r),
    ensures
        report matches Some(reported) ==> r == reported,
        report is None ==> r is Err && r->Err_0@ is ConnectionLost,
{
}

/// A caller gets the reply to a request as it was given, and learns of a lost
/// session where there is none.
pub proof fn a_reply_is_passed_on<T>(outcome: CallOutcome<T>, r: Result<T, Error>)
    requires
        call_ensures(call_outcome::<T>, (outcome,), r),
    ensures
        outcome matches CallOutcome::Replied(reply) ==> r == reply,
        !(outcome is Replied) ==> r is Err && r->Err_0@ is ConnectionLost
            && r->Err_0@.fatal_to_session(),
{
}

} // verus!
