//! The life of a session, from connecting to the destroyed context.
//!
//! A session lives on one thread, which owns the client library's context. The
//! thread is a state machine: [`SessionLife::action`] says what to do next, and
//! [`SessionLife::step`] takes in how it went, and gives out what is to be told
//! to the callers.

use vstd::prelude::*;
use crate::error::{Error, ErrorView};
use crate::path;
use crate::smb::actor::{
    self, Actor, ActorView, Answer, Call, CallView, Platform, Reply, ReplyView, Request, Step,
    StepView,
};
use crate::smb::backend::{ConnectConfig, ConnectView};
use crate::smb::copy::{CopyAction, CopyEvent, CopyFile, CopyNames, CopyStateView};
use crate::smb::path as smb_path;
use crate::smb::session::{
    ConnectEvent, ConnectEventView, ConnectPlan, ConnectState, ConnectStateView, PlanView,
};

verus! {

// ---------------------------------------------------------------------------
// Taking a session down
// ---------------------------------------------------------------------------

/// A session that is being taken down.
///
/// Every handle goes before the context it was opened on. Disconnecting comes
/// before destroying: it releases the connection on the server now, rather than
/// when the socket drops.
pub struct Teardown<H> {
    /// What is still open.
    open: Vec<(u64, H)>,
    connected: bool,
    alive: bool,
}

/// A [`Teardown`] as plain values.
#[verifier::ext_equal]
pub struct TeardownView<H> {
    /// What is still open, with the id it goes by.
    pub open: Seq<(u64, H)>,
    /// Whether the context has not been disconnected yet.
    pub connected: bool,
    /// Whether the context has not been destroyed yet.
    pub alive: bool,
}

/// What taking a session down asks for.
pub enum TeardownAction<H> {
    /// Close a handle.
    Close(H),
    /// Disconnect the context.
    Disconnect,
    /// Destroy the context.
    Destroy,
    /// Nothing more to do.
    Finish,
}

impl<H> View for Teardown<H> {
    type V = TeardownView<H>;

    closed spec fn view(&self) -> TeardownView<H> {
        TeardownView { open: self.open@, connected: self.connected, alive: self.alive }
    }
}

impl<H> TeardownView<H> {
    /// A context with these handles still open.
    pub open spec fn start(open: Seq<(u64, H)>) -> TeardownView<H> {
        TeardownView { open, connected: true, alive: true }
    }

    /// What is still there keeps what it depends on.
    pub open spec fn wf(self) -> bool {
        &&& self.open.len() > 0 ==> self.connected
        &&& self.connected ==> self.alive
    }

    pub open spec fn finished(self) -> bool {
        self.open.len() == 0 && !self.connected && !self.alive
    }

    /// What to do next.
    pub open spec fn action(self) -> TeardownAction<H> {
        if self.open.len() > 0 {
            TeardownAction::Close(self.open.last().1)
        } else if self.connected {
            TeardownAction::Disconnect
        } else if self.alive {
            TeardownAction::Destroy
        } else {
            TeardownAction::Finish
        }
    }

    /// Once that is done.
    pub open spec fn next(self) -> TeardownView<H> {
        if self.open.len() > 0 {
            TeardownView { open: self.open.drop_last(), ..self }
        } else if self.connected {
            TeardownView { connected: false, ..self }
        } else {
            TeardownView { alive: false, ..self }
        }
    }

    /// How many things are still to be done.
    pub open spec fn left(self) -> nat {
        self.open.len() + (if self.connected {
            1nat
        } else {
            0
        }) + (if self.alive {
            1nat
        } else {
            0
        })
    }

    /// Everything that is still to be done, in order.
    pub open spec fn plan(self) -> Seq<TeardownAction<H>>
        decreases self.left(),
    {
        if self.finished() {
            Seq::empty()
        } else {
            seq![self.action()] + self.next().plan()
        }
    }
}

impl<H: Copy> Teardown<H> {
    /// Takes a session down on which these handles are still open.
    pub fn new(open: Vec<(u64, H)>) -> (r: Self)
        ensures
            r@ == TeardownView::start(open@),
    {
        Teardown { open, connected: true, alive: true }
    }

    /// What to do next.
    pub fn action(&self) -> (r: TeardownAction<H>)
        ensures
            r == self@.action(),
    {
        let n: usize = self.open.len();
        if n > 0 {
            TeardownAction::Close(self.open[n - 1].1)
        } else if self.connected {
            TeardownAction::Disconnect
        } else if self.alive {
            TeardownAction::Destroy
        } else {
            TeardownAction::Finish
        }
    }

    /// It was done. Whether it succeeded does not matter: it is not tried again.
    pub fn step(self) -> (r: Self)
        ensures
            r@ == self@.next(),
    {
        let mut after = self;
        if after.open.len() > 0 {
            let _ = after.open.pop();
            assert(after.open@ =~= self@.open.drop_last());
        } else if after.connected {
            after.connected = false;
        } else {
            after.alive = false;
        }
        after
    }

    pub fn is_finished(&self) -> (r: bool)
        ensures
            r == self@.finished(),
    {
        self.open.len() == 0 && !self.connected && !self.alive
    }
}

/// What closes each of these handles, the last one first.
pub open spec fn closing_each<H>(open: Seq<(u64, H)>) -> Seq<TeardownAction<H>> {
    Seq::new(open.len(), |i: int| TeardownAction::Close(open[open.len() - 1 - i].1))
}

/// Taking a session down closes every handle once, then disconnects once, then
/// destroys once, and that is all.
pub proof fn handles_go_before_the_context<H>(open: Seq<(u64, H)>)
    ensures
        TeardownView::start(open).plan() == closing_each(open) + seq![
            TeardownAction::<H>::Disconnect,
            TeardownAction::<H>::Destroy,
        ],
    decreases open.len(),
{
    let t = TeardownView::start(open);
    if open.len() == 0 {
        assert(t.next().next().plan() =~= Seq::<TeardownAction<H>>::empty());
        assert(t.next().plan() =~= seq![TeardownAction::<H>::Destroy]);
        assert(t.plan() =~= closing_each(open) + seq![
            TeardownAction::<H>::Disconnect,
            TeardownAction::<H>::Destroy,
        ]);
    } else {
        handles_go_before_the_context(open.drop_last());
        assert(t.next() == TeardownView::start(open.drop_last()));
        assert(t.plan() =~= closing_each(open) + seq![
            TeardownAction::<H>::Disconnect,
            TeardownAction::<H>::Destroy,
        ]);
    }
}

// ---------------------------------------------------------------------------
// The machine
// ---------------------------------------------------------------------------

/// What came of the last thing that was asked for.
pub enum LifeEvent<H> {
    /// What came of a step of connecting.
    Connecting(ConnectEvent),
    /// A caller's request.
    Received(Request),
    /// There is nobody left who could send a request.
    Abandoned,
    /// How a call went.
    Answered(Answer<H>),
    /// How a call of a copy went.
    Copied(CopyEvent),
    /// It was done; whether it succeeded does not matter.
    Done,
}

/// What is to be told.
pub enum LifeOutput {
    /// Whoever opens the session learns whether it is up.
    Ready(Result<(), Error>),
    /// The caller whose request was received last gets the reply.
    Reply(Reply),
}

/// A [`LifeOutput`] with views.
pub enum LifeOutputView {
    Ready(Result<(), ErrorView>),
    Reply(ReplyView),
}

impl View for LifeOutput {
    type V = LifeOutputView;

    open spec fn view(&self) -> LifeOutputView {
        match *self {
            LifeOutput::Ready(r) => LifeOutputView::Ready(actor::with_error_view(r)),
            LifeOutput::Reply(reply) => LifeOutputView::Reply(reply@),
        }
    }
}

/// What is to be told, if anything, with views.
pub open spec fn told(output: Option<LifeOutput>) -> Option<LifeOutputView> {
    match output {
        Some(o) => Some(o@),
        None => None,
    }
}

/// What to do next.
pub enum LifeAction<'a, H> {
    /// Bring the platform's network up.
    Network,
    /// Allocate a context.
    Allocate,
    /// Configure the context, and connect it.
    Connect(&'a ConnectPlan),
    /// Wait for a request.
    Receive,
    /// Make a call on the client library.
    Perform(&'a Call<H>),
    /// Make one of the calls of a copy.
    Copy { action: CopyAction, source: &'a str, destination: &'a str },
    /// Close a handle.
    Close(H),
    /// Disconnect the context.
    Disconnect,
    /// Destroy the context.
    Destroy,
    /// The session is over.
    Finish,
}

/// A [`LifeAction`] with views.
pub enum LifeActionView<H> {
    Network,
    Allocate,
    Connect(PlanView),
    Receive,
    Perform(CallView<H>),
    Copy { action: CopyAction, source: Seq<char>, destination: Seq<char> },
    Close(H),
    Disconnect,
    Destroy,
    Finish,
}

impl<'a, H> View for LifeAction<'a, H> {
    type V = LifeActionView<H>;

    open spec fn view(&self) -> LifeActionView<H> {
        match *self {
            LifeAction::Network => LifeActionView::Network,
            LifeAction::Allocate => LifeActionView::Allocate,
            LifeAction::Connect(plan) => LifeActionView::Connect(plan@),
            LifeAction::Receive => LifeActionView::Receive,
            LifeAction::Perform(call) => LifeActionView::Perform(call@),
            LifeAction::Copy { action, source, destination } => LifeActionView::Copy {
                action,
                source: source@,
                destination: destination@,
            },
            LifeAction::Close(handle) => LifeActionView::Close(handle),
            LifeAction::Disconnect => LifeActionView::Disconnect,
            LifeAction::Destroy => LifeActionView::Destroy,
            LifeAction::Finish => LifeActionView::Finish,
        }
    }
}

/// Where a session stands in its life.
enum Stage<H> {
    /// It is being connected.
    Connecting { actor: Actor<H>, state: ConnectState },
    /// It waits for a request.
    Waiting { actor: Actor<H> },
    /// A call is being made for a request.
    Calling { actor: Actor<H>, call: Call<H> },
    /// A copy is being made for a request.
    Copying { actor: Actor<H>, copy: CopyFile },
    /// It is being taken down, because it never came up or for good.
    Ending { teardown: Teardown<H>, error: Option<Error> },
    Over,
}

/// A session's life as plain values.
#[verifier::ext_equal]
pub enum LifeView<H> {
    Connecting { actor: ActorView<H>, state: ConnectStateView },
    Waiting { actor: ActorView<H> },
    Calling { actor: ActorView<H>, call: CallView<H> },
    Copying {
        actor: ActorView<H>,
        paths: (Seq<char>, Seq<char>),
        names: CopyNames,
        state: CopyStateView,
    },
    /// With the reason why the session never came up, where it did not.
    Ending { teardown: TeardownView<H>, error: Option<ErrorView> },
    Over,
}

/// The life of one session.
pub struct SessionLife<H> {
    config: ConnectConfig,
    stage: Stage<H>,
}

impl<H: Copy> View for SessionLife<H> {
    type V = LifeView<H>;

    closed spec fn view(&self) -> LifeView<H> {
        match self.stage {
            Stage::Connecting { actor, state } => LifeView::Connecting {
                actor: actor@,
                state: state@,
            },
            Stage::Waiting { actor } => LifeView::Waiting { actor: actor@ },
            Stage::Calling { actor, call } => LifeView::Calling { actor: actor@, call: call@ },
            Stage::Copying { actor, copy } => LifeView::Copying {
                actor: actor@,
                paths: copy.paths(),
                names: copy.names(),
                state: copy.state(),
            },
            Stage::Ending { teardown, error } => LifeView::Ending {
                teardown: teardown@,
                error: match error {
                    Some(e) => Some(e@),
                    None => None,
                },
            },
            Stage::Over => LifeView::Over,
        }
    }
}

// ---------------------------------------------------------------------------
// Model
// ---------------------------------------------------------------------------

/// Which events answer what connecting asks for.
pub open spec fn answers_connecting(s: ConnectStateView, e: ConnectEventView) -> bool {
    match s {
        ConnectStateView::Network => e is Network,
        ConnectStateView::Allocate => e is Allocated,
        ConnectStateView::Connect(_) => e is Connected || e is Refused,
        _ => false,
    }
}

impl<H> LifeView<H> {
    /// Before anything was done.
    pub open spec fn start(platform: Platform) -> LifeView<H> {
        LifeView::Connecting {
            actor: ActorView::start(platform),
            state: ConnectStateView::Network,
        }
    }

    pub open spec fn wf(self) -> bool {
        match self {
            LifeView::Connecting { actor, state } => {
                &&& actor.running
                &&& state is Network || state is Allocate || state is Connect
            },
            LifeView::Waiting { actor } => actor.running,
            LifeView::Calling { actor, call } => actor.running && !(call is Copy),
            LifeView::Copying { actor, state, .. } => {
                &&& actor.running
                &&& state.wf()
                &&& !(state is Done)
            },
            LifeView::Ending { teardown, .. } => teardown.wf() && !teardown.finished(),
            LifeView::Over => true,
        }
    }

    /// What to do next.
    pub open spec fn action(self) -> LifeActionView<H> {
        match self {
            LifeView::Connecting { state, .. } => match state {
                ConnectStateView::Network => LifeActionView::Network,
                ConnectStateView::Allocate => LifeActionView::Allocate,
                ConnectStateView::Connect(plan) => LifeActionView::Connect(plan),
                _ => LifeActionView::Finish,
            },
            LifeView::Waiting { .. } => LifeActionView::Receive,
            LifeView::Calling { call, .. } => LifeActionView::Perform(call),
            LifeView::Copying { paths, state, .. } => LifeActionView::Copy {
                action: state.action(),
                source: paths.0,
                destination: paths.1,
            },
            LifeView::Ending { teardown, .. } => match teardown.action() {
                TeardownAction::Close(handle) => LifeActionView::Close(handle),
                TeardownAction::Disconnect => LifeActionView::Disconnect,
                TeardownAction::Destroy => LifeActionView::Destroy,
                TeardownAction::Finish => LifeActionView::Finish,
            },
            LifeView::Over => LifeActionView::Finish,
        }
    }

    /// Which events can come of that.
    pub open spec fn accepts(self, event: &LifeEvent<H>) -> bool {
        match (self, *event) {
            (LifeView::Connecting { state, .. }, LifeEvent::Connecting(e)) => {
                &&& answers_connecting(state, e@)
                &&& e matches ConnectEvent::Refused(f) ==> f.wf()
            },
            (LifeView::Waiting { .. }, LifeEvent::Received(_)) => true,
            (LifeView::Waiting { .. }, LifeEvent::Abandoned) => true,
            (LifeView::Calling { actor, call }, LifeEvent::Answered(answer)) => {
                &&& answer.wf()
                &&& actor::fits(call, &answer)
                &&& answer is Opened ==> actor.last_id < u64::MAX
            },
            (LifeView::Copying { state, .. }, LifeEvent::Copied(e)) => e.wf() && state.accepts(e@),
            (LifeView::Ending { .. }, LifeEvent::Done) => true,
            _ => false,
        }
    }

    /// Whether `next` is where a session goes once it is up and a request was
    /// seen to: it waits for another, or it is taken down for good, with
    /// everything closed that is still open.
    pub open spec fn goes_on(actor: ActorView<H>, next: LifeView<H>) -> bool {
        if actor.running {
            next == (LifeView::Waiting { actor })
        } else {
            LifeView::ends(actor, next)
        }
    }

    /// Whether `next` takes a session down for good.
    pub open spec fn ends(actor: ActorView<H>, next: LifeView<H>) -> bool {
        next matches LifeView::Ending { teardown, error } && {
            &&& error is None
            &&& teardown == TeardownView::start(teardown.open)
            &&& actor::lists(actor.files, teardown.open)
        }
    }

    /// Whether an event leads to `next`, and to this being told. In which order
    /// handles are closed is all that is left open.
    pub open spec fn leads_to(
        self,
        config: ConnectView,
        event: &LifeEvent<H>,
        next: LifeView<H>,
        output: Option<LifeOutputView>,
    ) -> bool {
        match (self, *event) {
            (LifeView::Connecting { actor, state }, LifeEvent::Connecting(e)) => match state.next(
                config,
                actor.platform.errnos,
                e@,
            ) {
                ConnectStateView::Connected => {
                    &&& next == (LifeView::Waiting { actor })
                    &&& output == Some(LifeOutputView::Ready(Ok(())))
                },
                ConnectStateView::Failed { error, release } => if release {
                    &&& next == (LifeView::Ending {
                        teardown: TeardownView::start(Seq::<(u64, H)>::empty()),
                        error: Some(error),
                    })
                    &&& output is None
                } else {
                    &&& next == LifeView::<H>::Over
                    &&& output == Some(LifeOutputView::Ready(Err(error)))
                },
                state => next == (LifeView::Connecting { actor, state }) && output is None,
            },
            (LifeView::Waiting { actor }, LifeEvent::Received(request)) => {
                let after = actor.then_received(&request);
                match actor.receives(&request) {
                    StepView::Reply(reply) => {
                        &&& LifeView::goes_on(after, next)
                        &&& output == Some(LifeOutputView::Reply(reply))
                    },
                    StepView::Call(CallView::Copy { paths, names, state }) => {
                        &&& next == (LifeView::Copying { actor: after, paths, names, state })
                        &&& output is None
                    },
                    StepView::Call(call) => {
                        &&& next == (LifeView::Calling { actor: after, call })
                        &&& output is None
                    },
                }
            },
            (LifeView::Waiting { actor }, LifeEvent::Abandoned) => {
                &&& LifeView::ends(actor, next)
                &&& output is None
            },
            (LifeView::Calling { actor, call }, LifeEvent::Answered(answer)) => {
                let after = actor.then_answered(&answer);
                &&& LifeView::goes_on(after, next)
                &&& output == Some(
                    LifeOutputView::Reply(
                        actor::finished(actor.platform, after.last_id, call, &answer),
                    ),
                )
            },
            (
                LifeView::Copying { actor, paths, names, state },
                LifeEvent::Copied(e),
            ) => match state.next(names, e@) {
                CopyStateView::Done { outcome } => {
                    &&& LifeView::goes_on(actor, next)
                    &&& output == Some(LifeOutputView::Reply(ReplyView::Copied(outcome)))
                },
                state => {
                    &&& next == (LifeView::Copying { actor, paths, names, state })
                    &&& output is None
                },
            },
            (LifeView::Ending { teardown, error }, LifeEvent::Done) => {
                let after = teardown.next();
                if after.finished() {
                    &&& next == LifeView::<H>::Over
                    &&& output == match error {
                        Some(e) => Some(LifeOutputView::Ready(Err(e))),
                        None => None,
                    }
                } else {
                    &&& next == (LifeView::Ending { teardown: after, error })
                    &&& output is None
                }
            },
            _ => next == self && output is None,
        }
    }
}

// ---------------------------------------------------------------------------
// Running it
// ---------------------------------------------------------------------------

impl<H: Copy> SessionLife<H> {
    /// What the session is to be connected with.
    pub closed spec fn config(&self) -> ConnectView {
        self.config@
    }

    /// A session to be connected, on a given platform.
    pub fn on(config: ConnectConfig, platform: Platform) -> (r: Self)
        ensures
            r@ == LifeView::<H>::start(platform),
            r@.wf(),
            r.config() == config@,
    {
        let actor = Actor::on(platform);
        assert(actor@ =~= ActorView::<H>::start(platform));
        SessionLife { config, stage: Stage::Connecting { actor, state: ConnectState::Network } }
    }

    /// A session to be connected.
    pub fn new(config: ConnectConfig) -> (r: Self)
        ensures
            exists|platform: Platform|
                platform.bits.apart() && platform.errnos.apart() && r@ == #[trigger] LifeView::<
                    H,
                >::start(platform),
            r@.wf(),
            r.config() == config@,
    {
        let actor = Actor::new();
        assert(actor@ =~= ActorView::<H>::start(actor@.platform));
        let r = SessionLife {
            config,
            stage: Stage::Connecting { actor, state: ConnectState::Network },
        };
        assert(r@ == LifeView::<H>::start(actor@.platform));
        r
    }

    /// What to do next.
    pub fn action(&self) -> (r: LifeAction<'_, H>)
        requires
            self@.wf(),
        ensures
            r@ == self@.action(),
    {
        match &self.stage {
            Stage::Connecting { state, .. } => match state {
                ConnectState::Network => LifeAction::Network,
                ConnectState::Allocate => LifeAction::Allocate,
                ConnectState::Connect(plan) => LifeAction::Connect(plan),
                _ => LifeAction::Finish,
            },
            Stage::Waiting { .. } => LifeAction::Receive,
            Stage::Calling { call, .. } => LifeAction::Perform(call),
            Stage::Copying { copy, .. } => LifeAction::Copy {
                action: copy.action(),
                source: copy.source(),
                destination: copy.destination(),
            },
            Stage::Ending { teardown, .. } => match teardown.action() {
                TeardownAction::Close(handle) => LifeAction::Close(handle),
                TeardownAction::Disconnect => LifeAction::Disconnect,
                TeardownAction::Destroy => LifeAction::Destroy,
                TeardownAction::Finish => LifeAction::Finish,
            },
            Stage::Over => LifeAction::Finish,
        }
    }

    /// Whether there is an id left for a file that is opened.
    pub fn has_room(&self) -> (r: bool)
        ensures
            self@ matches LifeView::Calling { actor, .. } ==> r == (actor.last_id < u64::MAX),
            !(self@ is Calling) ==> r,
    {
        match &self.stage {
            Stage::Calling { actor, .. } => actor.has_room(),
            _ => true,
        }
    }

    /// Where the session goes once a request was seen to.
    fn settle(actor: Actor<H>) -> (r: Stage<H>)
        ensures
            forall|config: ConnectConfig| #[trigger]
                LifeView::goes_on(actor@, (SessionLife { config, stage: r })@),
    {
        if actor.is_running() {
            Stage::Waiting { actor }
        } else {
            Self::end(actor)
        }
    }

    /// Takes the session down for good.
    fn end(actor: Actor<H>) -> (r: Stage<H>)
        ensures
            forall|config: ConnectConfig| #[trigger]
                LifeView::ends(actor@, (SessionLife { config, stage: r })@),
    {
        let mut actor = actor;
        let open = actor.stop();
        Stage::Ending { teardown: Teardown::new(open), error: None }
    }

    /// Takes in what came of the last thing that was asked for, and gives out
    /// what is to be told.
    pub fn step(self, event: LifeEvent<H>) -> (r: (Self, Option<LifeOutput>))
        requires
            self@.wf(),
            self@.accepts(&event),
        ensures
            self@.leads_to(self.config(), &event, r.0@, told(r.1)),
            r.0@.wf(),
            r.0.config() == self.config(),
    {
        let SessionLife { config, stage } = self;
        let (stage, output) = match (stage, event) {
            (Stage::Connecting { actor, state }, LifeEvent::Connecting(e)) => {
                match state.step(&config, &actor.errnos(), e) {
                    ConnectState::Connected => (
                        Stage::Waiting { actor },
                        Some(LifeOutput::Ready(Ok(()))),
                    ),
                    ConnectState::Failed { error, release } => if release {
                        // The context exists, so it goes before anybody learns
                        // that it never connected.
                        let open: Vec<(u64, H)> = Vec::new();
                        (Stage::Ending { teardown: Teardown::new(open), error: Some(error) }, None)
                    } else {
                        (Stage::Over, Some(LifeOutput::Ready(Err(error))))
                    },
                    state => (Stage::Connecting { actor, state }, None),
                }
            },
            (Stage::Waiting { actor }, LifeEvent::Received(request)) => {
                let mut actor = actor;
                let ghost before = actor@;
                let received = actor.receive(request);
                assert(actor@ =~= before.then_received(&request));
                match received {
                    Step::Reply(reply) => (Self::settle(actor), Some(LifeOutput::Reply(reply))),
                    Step::Call(Call::Copy { copy }) => {
                        assert(copy.state() is OpenSource);
                        (Stage::Copying { actor, copy }, None)
                    },
                    Step::Call(call) => {
                        assert(!(call@ is Copy));
                        (Stage::Calling { actor, call }, None)
                    },
                }
            },
            (Stage::Waiting { actor }, LifeEvent::Abandoned) => (Self::end(actor), None),
            (Stage::Calling { actor, call }, LifeEvent::Answered(answer)) => {
                let mut actor = actor;
                let ghost before = actor@;
                let reply = actor.finish(&call, answer);
                assert(actor@ =~= before.then_answered(&answer));
                (Self::settle(actor), Some(LifeOutput::Reply(reply)))
            },
            (Stage::Copying { actor, copy }, LifeEvent::Copied(e)) => {
                let copy = copy.step(e);
                match copy.action() {
                    CopyAction::Finish => match copy.outcome() {
                        Some(outcome) => (
                            Self::settle(actor),
                            Some(LifeOutput::Reply(Reply::Copied(outcome))),
                        ),
                        None => (Stage::Over, None),
                    },
                    _ => {
                        assert(!(copy.state() is Done));
                        (Stage::Copying { actor, copy }, None)
                    },
                }
            },
            (Stage::Ending { teardown, error }, LifeEvent::Done) => {
                let teardown = teardown.step();
                if teardown.is_finished() {
                    match error {
                        Some(e) => (Stage::Over, Some(LifeOutput::Ready(Err(e)))),
                        None => (Stage::Over, None),
                    }
                } else {
                    (Stage::Ending { teardown, error }, None)
                }
            },
            (stage, _) => (stage, None),
        };
        (SessionLife { config, stage }, output)
    }
}

// ---------------------------------------------------------------------------
// Laws
// ---------------------------------------------------------------------------

/// One step of a session's life: what came in, where that led, and what was
/// told.
pub struct LifeStep<H> {
    pub event: LifeEvent<H>,
    pub state: LifeView<H>,
    pub output: Option<LifeOutputView>,
}

/// Where a session stands after these steps.
pub open spec fn state_after<H>(platform: Platform, steps: Seq<LifeStep<H>>) -> LifeView<H> {
    if steps.len() == 0 {
        LifeView::start(platform)
    } else {
        steps.last().state
    }
}

/// Whether these steps are the life of a session, from its start.
pub open spec fn is_life<H>(
    config: ConnectView,
    platform: Platform,
    steps: Seq<LifeStep<H>>,
) -> bool
    decreases steps.len(),
{
    steps.len() > 0 ==> {
        let before = state_after(platform, steps.drop_last());
        let step = steps.last();
        &&& is_life(config, platform, steps.drop_last())
        &&& before.accepts(&step.event)
        &&& before.leads_to(config, &step.event, step.state, step.output)
    }
}

/// The requests that were received, in order.
pub open spec fn requests<H>(steps: Seq<LifeStep<H>>) -> Seq<Request>
    decreases steps.len(),
{
    if steps.len() == 0 {
        Seq::empty()
    } else {
        let earlier = requests(steps.drop_last());
        match steps.last().event {
            LifeEvent::Received(request) => earlier.push(request),
            _ => earlier,
        }
    }
}

/// The replies that were given, in order.
pub open spec fn replies<H>(steps: Seq<LifeStep<H>>) -> Seq<ReplyView>
    decreases steps.len(),
{
    if steps.len() == 0 {
        Seq::empty()
    } else {
        let earlier = replies(steps.drop_last());
        match steps.last().output {
            Some(LifeOutputView::Reply(reply)) => earlier.push(reply),
            _ => earlier,
        }
    }
}

/// What whoever opened the session was told, in order.
pub open spec fn reports<H>(steps: Seq<LifeStep<H>>) -> Seq<Result<(), ErrorView>>
    decreases steps.len(),
{
    if steps.len() == 0 {
        Seq::empty()
    } else {
        let earlier = reports(steps.drop_last());
        match steps.last().output {
            Some(LifeOutputView::Ready(r)) => earlier.push(r),
            _ => earlier,
        }
    }
}

/// The handles that were opened, in order. The first one goes by the id one.
pub open spec fn opened<H>(steps: Seq<LifeStep<H>>) -> Seq<H>
    decreases steps.len(),
{
    if steps.len() == 0 {
        Seq::empty()
    } else {
        let earlier = opened(steps.drop_last());
        match steps.last().event {
            LifeEvent::Answered(Answer::Opened { handle, .. }) => earlier.push(handle),
            _ => earlier,
        }
    }
}

/// The handle that a state asks to be closed, with the id it goes by.
pub open spec fn asks_to_close<H>(s: LifeView<H>) -> Option<(u64, H)> {
    match s {
        LifeView::Calling { call: CallView::Close { handle, id }, .. } => Some((id, handle)),
        LifeView::Ending { teardown, .. } => if teardown.open.len() > 0 {
            Some(teardown.open.last())
        } else {
            None
        },
        _ => None,
    }
}

/// The handles that were closed, in order, for a request or at the end.
pub open spec fn closed<H>(platform: Platform, steps: Seq<LifeStep<H>>) -> Seq<(u64, H)>
    decreases steps.len(),
{
    if steps.len() == 0 {
        Seq::empty()
    } else {
        let earlier = closed(platform, steps.drop_last());
        match asks_to_close(state_after(platform, steps.drop_last())) {
            Some(entry) => earlier.push(entry),
            None => earlier,
        }
    }
}

/// How many contexts were allocated.
pub open spec fn allocated<H>(steps: Seq<LifeStep<H>>) -> nat
    decreases steps.len(),
{
    if steps.len() == 0 {
        0
    } else {
        let earlier = allocated(steps.drop_last());
        match steps.last().event {
            LifeEvent::Connecting(ConnectEvent::Allocated(true)) => earlier + 1,
            _ => earlier,
        }
    }
}

/// What was done in the step with this number.
pub open spec fn done_at<H>(
    platform: Platform,
    steps: Seq<LifeStep<H>>,
    i: int,
) -> LifeActionView<H> {
    state_after(platform, steps.take(i)).action()
}

/// Whether a handle is held under an id.
pub open spec fn held<H>(s: LifeView<H>, id: u64, handle: H) -> bool {
    match s {
        LifeView::Waiting { actor } | LifeView::Copying { actor, .. } => {
            actor.files.contains_key(id) && actor.files[id] == handle
        },
        LifeView::Calling { actor, call } => {
            ||| actor.files.contains_key(id) && actor.files[id] == handle
            ||| call == (CallView::Close { handle, id })
        },
        LifeView::Ending { teardown, .. } => teardown.open.contains((id, handle)),
        _ => false,
    }
}

/// Whether a call is one that a request leads to.
spec fn is_call_for<H>(request: &Request, call: CallView<H>) -> bool {
    match *request {
        Request::List { .. } => call is List,
        Request::Stat { .. } => call is Stat,
        Request::Mkdir { .. } => call is Mkdir,
        Request::RemoveFile { .. } => call is Unlink,
        Request::RemoveDir { .. } => call is Rmdir,
        Request::Rename { .. } => call is Rename,
        Request::Copy { .. } => call is Copy,
        Request::Open { .. } => call is Open,
        Request::Close { .. } => call is Close,
        Request::ReadAt { .. } => call is Read,
        Request::WriteAt { .. } => call is Write,
        Request::SetLen { .. } => call is Truncate,
        Request::Flush { .. } => call is Sync,
        Request::Shutdown => false,
    }
}

/// The requests and the replies at every moment.
spec fn answered_in_order<H>(
    s: LifeView<H>,
    asked: Seq<Request>,
    given: Seq<ReplyView>,
) -> bool {
    &&& forall|i: int|
        0 <= i < given.len() ==> actor::owed(&asked[i], #[trigger] given[i])
    &&& match s {
        LifeView::Connecting { .. } => asked.len() == 0 && given.len() == 0,
        LifeView::Waiting { .. } => given.len() == asked.len(),
        LifeView::Calling { call, .. } => {
            &&& asked.len() == given.len() + 1
            &&& is_call_for(&asked.last(), call)
        },
        LifeView::Copying { .. } => {
            &&& asked.len() == given.len() + 1
            &&& asked.last() is Copy
        },
        LifeView::Ending { error, .. } => given.len() == asked.len() && (error is Some
            ==> asked.len() == 0),
        LifeView::Over => given.len() == asked.len(),
    }
    // A shutdown is the last request.
    &&& forall|i: int|
        0 <= i < asked.len() && (#[trigger] asked[i] is Shutdown) ==> i == asked.len() - 1 && (
        s is Ending || s is Over)
}

proof fn replies_stay_in_order<H>(
    config: ConnectView,
    platform: Platform,
    steps: Seq<LifeStep<H>>,
)
    requires
        is_life(config, platform, steps),
    ensures
        state_after(platform, steps).wf(),
        answered_in_order(state_after(platform, steps), requests(steps), replies(steps)),
    decreases steps.len(),
{
    if steps.len() > 0 {
        replies_stay_in_order(config, platform, steps.drop_last());
    }
}

/// Which ids a state has handed out, and that none stands for two handles.
spec fn ids_used<H>(s: LifeView<H>, all: nat) -> bool {
    match s {
        LifeView::Connecting { actor, .. } => all == 0 && actor.last_id == 0 && actor.files
            == Map::<u64, H>::empty(),
        LifeView::Waiting { actor } | LifeView::Copying { actor, .. } => all == actor.last_id,
        LifeView::Calling { actor, call } => {
            &&& all == actor.last_id
            &&& call matches CallView::Close { id, .. } ==> !actor.files.contains_key(id)
        },
        LifeView::Ending { teardown, .. } => {
            &&& all <= u64::MAX
            &&& forall|i: int, j: int|
                0 <= i < j < teardown.open.len() ==> (#[trigger] teardown.open[i]).0 != (
                #[trigger] teardown.open[j]).0
        },
        LifeView::Over => all <= u64::MAX,
    }
}

/// Every handle that was opened is held or has been closed, once.
spec fn accounted_for<H>(s: LifeView<H>, all: Seq<H>, gone: Seq<(u64, H)>) -> bool {
    &&& ids_used(s, all.len())
    &&& forall|id: u64, h: H| #[trigger]
        held(s, id, h) ==> 1 <= id <= all.len() && all[id - 1] == h
    &&& forall|id: u64, h: H, i: int|
        #![trigger held(s, id, h), gone[i]]
        held(s, id, h) && 0 <= i < gone.len() ==> gone[i].0 != id
    &&& forall|i: int|
        0 <= i < gone.len() ==> 1 <= (#[trigger] gone[i]).0 <= all.len() && all[gone[i].0 - 1]
            == gone[i].1
    &&& forall|i: int, j: int|
        0 <= i < j < gone.len() ==> (#[trigger] gone[i]).0 != (#[trigger] gone[j]).0
    &&& forall|k: int|
        #![trigger all[k]]
        0 <= k < all.len() ==> held(s, (k + 1) as u64, all[k]) || gone.contains(
            ((k + 1) as u64, all[k]),
        )
}

/// A step that neither opens nor closes anything, and after which the same is
/// held as before.
proof fn holding_on<H>(s: LifeView<H>, next: LifeView<H>, all: Seq<H>, gone: Seq<(u64, H)>)
    requires
        accounted_for(s, all, gone),
        ids_used(next, all.len()),
        forall|id: u64, h: H| #[trigger] held(next, id, h) <==> held(s, id, h),
    ensures
        accounted_for(next, all, gone),
{
    assert forall|k: int| #![trigger all[k]] 0 <= k < all.len() implies held(
        next,
        (k + 1) as u64,
        all[k],
    ) || gone.contains(((k + 1) as u64, all[k])) by {
        assert(held(s, (k + 1) as u64, all[k]) || gone.contains(((k + 1) as u64, all[k])));
    }
}

/// A step that closes a handle, after which everything else is held as before.
proof fn letting_go<H>(
    s: LifeView<H>,
    next: LifeView<H>,
    all: Seq<H>,
    gone: Seq<(u64, H)>,
    entry: (u64, H),
)
    requires
        accounted_for(s, all, gone),
        held(s, entry.0, entry.1),
        ids_used(next, all.len()),
        forall|id: u64, h: H| #[trigger] held(next, id, h) <==> held(s, id, h) && id != entry.0,
    ensures
        accounted_for(next, all, gone.push(entry)),
{
    let after = gone.push(entry);
    assert forall|k: int| #![trigger all[k]] 0 <= k < all.len() implies held(
        next,
        (k + 1) as u64,
        all[k],
    ) || after.contains(((k + 1) as u64, all[k])) by {
        let pair = ((k + 1) as u64, all[k]);
        assert(held(s, pair.0, pair.1) || gone.contains(pair));
        if gone.contains(pair) {
            let i = gone.index_of(pair);
            assert(after[i] == pair);
        } else if pair.0 == entry.0 {
            assert(after[gone.len() as int] == pair);
        } else {
            assert(held(next, pair.0, pair.1));
        }
    }
}

/// A step that opens a handle, after which everything else is held as before.
proof fn taking_hold<H>(
    s: LifeView<H>,
    next: LifeView<H>,
    all: Seq<H>,
    gone: Seq<(u64, H)>,
    handle: H,
)
    requires
        accounted_for(s, all, gone),
        all.len() < u64::MAX,
        ids_used(next, all.len() + 1),
        forall|id: u64, h: H| #[trigger]
            held(next, id, h) <==> held(s, id, h) || (id == all.len() + 1 && h == handle),
    ensures
        accounted_for(next, all.push(handle), gone),
{
    let more = all.push(handle);
    assert forall|id: u64, h: H| #[trigger] held(next, id, h) implies 1 <= id <= more.len()
        && more[id - 1] == h by {
        if held(s, id, h) {
            assert(1 <= id <= all.len());
        }
    }
    assert forall|i: int| 0 <= i < gone.len() implies 1 <= (#[trigger] gone[i]).0 <= more.len()
        && more[gone[i].0 - 1] == gone[i].1 by {
        assert(1 <= gone[i].0 <= all.len());
    }
    assert forall|id: u64, h: H, i: int|
        #![trigger held(next, id, h), gone[i]]
        held(next, id, h) && 0 <= i < gone.len() implies gone[i].0 != id by {
        if held(s, id, h) {
        } else {
            assert(gone[i].0 <= all.len());
        }
    }
    assert forall|k: int| #![trigger more[k]] 0 <= k < more.len() implies held(
        next,
        (k + 1) as u64,
        more[k],
    ) || gone.contains(((k + 1) as u64, more[k])) by {
        if k < all.len() {
            assert(more[k] == all[k]);
            assert(held(s, (k + 1) as u64, all[k]) || gone.contains(((k + 1) as u64, all[k])));
        } else {
            assert(held(next, (k + 1) as u64, handle));
        }
    }
}

/// Where a session goes once a request was seen to, it holds what is open.
proof fn going_on_holds_what_is_open<H>(actor: ActorView<H>, next: LifeView<H>)
    requires
        LifeView::goes_on(actor, next) || LifeView::ends(actor, next),
    ensures
        forall|id: u64, h: H| #[trigger]
            held(next, id, h) <==> actor.files.contains_key(id) && actor.files[id] == h,
{
    if let LifeView::Ending { teardown, .. } = next {
        assert forall|id: u64, h: H| #[trigger] held(next, id, h) <==> actor.files.contains_key(id)
            && actor.files[id] == h by {
            if teardown.open.contains((id, h)) {
                let i = teardown.open.index_of((id, h));
                assert(teardown.open[i].0 == id);
            }
            if actor.files.contains_key(id) && actor.files[id] == h {
                let i = choose|i: int|
                    0 <= i < teardown.open.len() && (#[trigger] teardown.open[i]).0 == id;
                assert(teardown.open[i] == (id, h));
            }
        }
    }
}

proof fn handles_stay_accounted_for<H>(
    config: ConnectView,
    platform: Platform,
    steps: Seq<LifeStep<H>>,
)
    requires
        is_life(config, platform, steps),
    ensures
        accounted_for(state_after(platform, steps), opened(steps), closed(platform, steps)),
    decreases steps.len(),
{
    if steps.len() > 0 {
        let earlier = steps.drop_last();
        handles_stay_accounted_for(config, platform, earlier);
        replies_stay_in_order(config, platform, earlier);
        let s = state_after(platform, earlier);
        let next = steps.last().state;
        let all = opened(earlier);
        let gone = closed(platform, earlier);
        match (s, steps.last().event) {
            (LifeView::Connecting { .. }, LifeEvent::Connecting(_)) => {
                holding_on(s, next, all, gone);
            },
            (LifeView::Waiting { actor }, LifeEvent::Received(request)) => {
                let after = actor.then_received(&request);
                match actor.receives(&request) {
                    StepView::Reply(_) => {
                        going_on_holds_what_is_open(after, next);
                        holding_on(s, next, all, gone);
                    },
                    StepView::Call(call) => {
                        holding_on(s, next, all, gone);
                    },
                }
            },
            (LifeView::Waiting { actor }, LifeEvent::Abandoned) => {
                going_on_holds_what_is_open(actor, next);
                holding_on(s, next, all, gone);
            },
            (LifeView::Calling { actor, call }, LifeEvent::Answered(answer)) => {
                let after = actor.then_answered(&answer);
                going_on_holds_what_is_open(after, next);
                if let CallView::Close { handle, id } = call {
                    letting_go(s, next, all, gone, (id, handle));
                } else if let Answer::Opened { handle, .. } = answer {
                    assert forall|id: u64, h: H| #[trigger] held(next, id, h) <==> held(s, id, h)
                        || (id == all.len() + 1 && h == handle) by {
                        if held(s, id, h) {
                            assert(id <= all.len());
                        }
                    }
                    taking_hold(s, next, all, gone, handle);
                } else {
                    holding_on(s, next, all, gone);
                }
            },
            (LifeView::Copying { actor, names, state, .. }, LifeEvent::Copied(e)) => {
                if state.next(names, e@) is Done {
                    going_on_holds_what_is_open(actor, next);
                }
                holding_on(s, next, all, gone);
            },
            (LifeView::Ending { teardown, .. }, LifeEvent::Done) => {
                let open = teardown.open;
                if open.len() > 0 {
                    let entry = open.last();
                    let rest = open.drop_last();
                    assert(open[open.len() - 1] == entry);
                    assert(held(s, entry.0, entry.1));
                    assert forall|id: u64, h: H| #[trigger] held(next, id, h) <==> held(s, id, h)
                        && id != entry.0 by {
                        if rest.contains((id, h)) {
                            let i = rest.index_of((id, h));
                            assert(open[i] == (id, h));
                            assert(open[i].0 != open[open.len() - 1].0);
                        }
                        if open.contains((id, h)) && id != entry.0 {
                            let i = open.index_of((id, h));
                            assert(rest[i] == (id, h));
                        }
                    }
                    letting_go(s, next, all, gone, entry);
                } else {
                    holding_on(s, next, all, gone);
                }
            },
            _ => {},
        }
    }
}

/// What was told of connecting, and how many contexts there were, at every
/// moment.
spec fn reported<H>(
    s: LifeView<H>,
    told: Seq<Result<(), ErrorView>>,
    contexts: nat,
    asked: nat,
    all: nat,
) -> bool {
    match s {
        LifeView::Connecting { state, .. } => {
            &&& told.len() == 0
            &&& contexts == if state is Connect {
                1nat
            } else {
                0
            }
            &&& asked == 0 && all == 0
        },
        LifeView::Ending { error: Some(_), .. } => {
            &&& told.len() == 0
            &&& contexts == 1
            &&& asked == 0 && all == 0
        },
        LifeView::Over => {
            &&& told.len() == 1
            &&& contexts <= 1
            &&& told[0] is Err ==> asked == 0 && all == 0
            &&& told[0] is Ok ==> contexts == 1
        },
        _ => told.len() == 1 && told[0] is Ok && contexts == 1,
    }
}

proof fn one_report_and_one_context<H>(
    config: ConnectView,
    platform: Platform,
    steps: Seq<LifeStep<H>>,
)
    requires
        is_life(config, platform, steps),
    ensures
        reported(
            state_after(platform, steps),
            reports(steps),
            allocated(steps),
            requests(steps).len(),
            opened(steps).len(),
        ),
    decreases steps.len(),
{
    if steps.len() > 0 {
        one_report_and_one_context(config, platform, steps.drop_last());
        replies_stay_in_order(config, platform, steps.drop_last());
    }
}

/// A part of a life, from its start, is a life.
proof fn a_life_so_far<H>(
    config: ConnectView,
    platform: Platform,
    steps: Seq<LifeStep<H>>,
    n: int,
)
    requires
        is_life(config, platform, steps),
        0 <= n <= steps.len(),
    ensures
        is_life(config, platform, steps.take(n)),
    decreases steps.len(),
{
    if n == steps.len() {
        assert(steps.take(n) =~= steps);
    } else {
        a_life_so_far(config, platform, steps.drop_last(), n);
        assert(steps.drop_last().take(n) =~= steps.take(n));
    }
}

/// One step of a life that goes on.
proof fn a_step_of_a_life<H>(
    config: ConnectView,
    platform: Platform,
    steps: Seq<LifeStep<H>>,
    i: int,
)
    requires
        is_life(config, platform, steps),
        0 <= i < steps.len(),
    ensures
        ({
            let before = state_after(platform, steps.take(i));
            &&& before.wf()
            &&& before.accepts(&steps[i].event)
            &&& before.leads_to(config, &steps[i].event, steps[i].state, steps[i].output)
            &&& state_after(platform, steps.take(i + 1)) == steps[i].state
        }),
{
    a_life_so_far(config, platform, steps, i + 1);
    a_life_so_far(config, platform, steps, i);
    replies_stay_in_order(config, platform, steps.take(i));
    assert(steps.take(i + 1).drop_last() =~= steps.take(i));
    assert(steps.take(i + 1).last() == steps[i]);
}

/// Disconnecting is followed by destroying and by nothing else, and destroying
/// ends a session.
proof fn destroying_follows_disconnecting<H>(
    s: LifeView<H>,
    config: ConnectView,
    event: &LifeEvent<H>,
    next: LifeView<H>,
    output: Option<LifeOutputView>,
)
    requires
        s.wf(),
        s.accepts(event),
        s.leads_to(config, event, next, output),
    ensures
        s.action() is Disconnect ==> next.action() is Destroy,
        s.action() is Destroy ==> next is Over,
        next.action() is Destroy ==> s.action() is Disconnect,
        s is Ending && next is Over ==> s.action() is Destroy,
        next is Over ==> s is Ending || s is Connecting,
{
}

proof fn a_step_before_and_after<H>(
    config: ConnectView,
    platform: Platform,
    steps: Seq<LifeStep<H>>,
    i: int,
)
    requires
        is_life(config, platform, steps),
        0 <= i < steps.len(),
    ensures
        ({
            let s = state_after(platform, steps.take(i));
            let next = state_after(platform, steps.take(i + 1));
            &&& s.action() is Disconnect ==> next.action() is Destroy
            &&& s.action() is Destroy ==> next is Over
            &&& next.action() is Destroy ==> s.action() is Disconnect
            &&& s is Ending && next is Over ==> s.action() is Destroy
            &&& next is Over ==> s is Ending || s is Connecting
            &&& !(s is Over)
        }),
{
    a_step_of_a_life(config, platform, steps, i);
    destroying_follows_disconnecting(
        state_after(platform, steps.take(i)),
        config,
        &steps[i].event,
        steps[i].state,
        steps[i].output,
    );
}

/// A context is destroyed in the last step of a session and disconnected in the
/// step before it, so that nothing is done with it after that: no handle is
/// closed, and no call made.
pub proof fn the_context_goes_last<H>(
    config: ConnectView,
    platform: Platform,
    steps: Seq<LifeStep<H>>,
    i: int,
)
    requires
        is_life(config, platform, steps),
        0 <= i < steps.len(),
    ensures
        done_at(platform, steps, i) is Disconnect ==> {
            &&& steps.len() <= i + 2
            &&& i + 1 < steps.len() ==> done_at(platform, steps, i + 1) is Destroy
        },
        done_at(platform, steps, i) is Destroy ==> {
            &&& steps.len() == i + 1
            &&& i > 0
            &&& done_at(platform, steps, i - 1) is Disconnect
        },
        state_after(platform, steps) is Over && allocated(steps) == 1 ==> done_at(
            platform,
            steps,
            steps.len() - 1,
        ) is Destroy,
        !(state_after(platform, steps) is Over) ==> !(done_at(platform, steps, i) is Destroy),
{
    let n = steps.len() as int;
    a_step_before_and_after(config, platform, steps, i);
    if i + 1 < n {
        a_step_before_and_after(config, platform, steps, i + 1);
        if i + 2 < n {
            a_step_of_a_life(config, platform, steps, i + 2);
        }
    }
    if i > 0 {
        a_step_before_and_after(config, platform, steps, i - 1);
    }
    a_step_before_and_after(config, platform, steps, n - 1);
    assert(steps.take(n) =~= steps);
    if state_after(platform, steps) is Over && allocated(steps) == 1 {
        assert(steps.take(n - 1) =~= steps.drop_last());
        one_report_and_one_context(config, platform, steps.drop_last());
    }
}

/// What a session's thread owes, whatever it is asked for and whatever the
/// client library answers:
///
/// - Whoever opened the session is told once whether it came up. If it did not,
///   no request is served.
/// - Every request gets one reply, of its own kind, in the order in which they
///   were received; only the one being served is without.
/// - A shutdown is the last request.
/// - Every handle that was opened is closed once by the end, and none that was
///   not. What happens to the context is [`the_context_goes_last`].
pub proof fn a_session_owes_every_caller_and_every_handle<H>(
    config: ConnectView,
    platform: Platform,
    steps: Seq<LifeStep<H>>,
)
    requires
        is_life(config, platform, steps),
    ensures
        ({
            let s = state_after(platform, steps);
            let asked = requests(steps);
            let given = replies(steps);
            let told = reports(steps);
            let all = opened(steps);
            let gone = closed(platform, steps);
            &&& told.len() <= 1
            &&& told.len() == 1 && told[0] is Err ==> asked.len() == 0 && all.len() == 0
            &&& asked.len() > 0 ==> told.len() == 1 && told[0] is Ok
            &&& given.len() == if s is Calling || s is Copying {
                asked.len() - 1
            } else {
                asked.len() as int
            }
            &&& forall|i: int|
                0 <= i < given.len() ==> actor::owed(&asked[i], #[trigger] given[i])
            &&& forall|i: int|
                0 <= i < asked.len() && (#[trigger] asked[i] is Shutdown) ==> i == asked.len() - 1
                    && (s is Ending || s is Over)
            &&& forall|i: int, j: int|
                0 <= i < j < gone.len() ==> (#[trigger] gone[i]).0 != (#[trigger] gone[j]).0
            &&& forall|i: int|
                0 <= i < gone.len() ==> 1 <= (#[trigger] gone[i]).0 <= all.len() && gone[i].1
                    == all[gone[i].0 - 1]
            &&& s is Over ==> told.len() == 1 && forall|k: int|
                #![trigger all[k]]
                0 <= k < all.len() ==> gone.contains(((k + 1) as u64, all[k]))
        }),
{
    replies_stay_in_order(config, platform, steps);
    handles_stay_accounted_for(config, platform, steps);
    one_report_and_one_context(config, platform, steps);
    let s = state_after(platform, steps);
    let all = opened(steps);
    let gone = closed(platform, steps);
    if s is Over {
        assert forall|k: int| #![trigger all[k]] 0 <= k < all.len() implies gone.contains(
            ((k + 1) as u64, all[k]),
        ) by {
            assert(!held(s, (k + 1) as u64, all[k]));
        }
    }
}

/// A request that is received leads to the very call that it asks for, with the
/// handle, the place and the bytes that the caller meant; a copy starts from its
/// first path, to its second.
pub proof fn what_is_performed_is_what_was_asked<H: Copy>(
    life: SessionLife<H>,
    actor: ActorView<H>,
    request: Request,
    r: (SessionLife<H>, Option<LifeOutput>),
    act: LifeAction<'_, H>,
)
    requires
        life@ == (LifeView::Waiting { actor }),
        actor.running,
        call_ensures(SessionLife::<H>::step, (life, LifeEvent::Received(request)), r),
        call_ensures(SessionLife::<H>::action, (&r.0,), act),
    ensures
        request matches Request::WriteAt { id, offset, data } ==> actor.files.contains_key(id)
            ==> (act matches LifeAction::Perform(Call::Write { handle, offset: at, data: bytes })
            && *handle == actor.files[id] && *at == offset && bytes@ == data@),
        request matches Request::ReadAt { id, offset, len } ==> actor.files.contains_key(id) ==> (
        act matches LifeAction::Perform(Call::Read { handle, offset: at, len: n }) && *handle
            == actor.files[id] && *at == offset && *n == len),
        request matches Request::SetLen { id, len } ==> actor.files.contains_key(id) ==> (
        act matches LifeAction::Perform(Call::Truncate { handle, len: n }) && *handle
            == actor.files[id] && *n == len),
        request matches Request::Flush { id } ==> actor.files.contains_key(id) ==> (act matches
            LifeAction::Perform(Call::Sync { handle }) && *handle == actor.files[id]),
        request matches Request::Close { id } ==> actor.files.contains_key(id) ==> (act matches
            LifeAction::Perform(Call::Close { handle, .. }) && *handle == actor.files[id]),
        request matches Request::Rename { from, to } ==> !path::rendered(from@).contains('\0')
            && !path::rendered(to@).contains('\0') ==> (act matches LifeAction::Perform(
            Call::Rename { from: p, to: q, .. },
        ) && seq!['/'] + p@ == path::rendered(from@) && seq!['/'] + q@ == path::rendered(to@)),
        request matches Request::Copy { from, to } ==> !path::rendered(from@).contains('\0')
            && !path::rendered(to@).contains('\0') ==> (act matches LifeAction::Copy {
            action,
            source,
            destination,
        } && action is OpenSource && seq!['/'] + source@ == path::rendered(from@) && seq!['/']
            + destination@ == path::rendered(to@)),
        !(act@ is Perform || act@ is Copy) ==> r.1 is Some && r.1->0 is Reply,
        act@ is Perform || act@ is Copy ==> r.1 is None,
{
    match request {
        Request::Rename { from, to } | Request::Copy { from, to } => {
            smb_path::only_the_leading_slash_goes(from@);
            smb_path::only_the_leading_slash_goes(to@);
        },
        _ => {},
    }
}

/// What the client library answers is what the caller is told.
pub proof fn what_was_answered_is_what_is_told<H: Copy>(
    life: SessionLife<H>,
    actor: ActorView<H>,
    call: CallView<H>,
    answer: Answer<H>,
    r: (SessionLife<H>, Option<LifeOutput>),
)
    requires
        life@ == (LifeView::Calling { actor, call }),
        actor.running,
        actor::fits(call, &answer),
        call_ensures(SessionLife::<H>::step, (life, LifeEvent::Answered(answer)), r),
    ensures
        r.1 is Some,
        answer matches Answer::Bytes(data) ==> told(r.1) == Some(
            LifeOutputView::Reply(ReplyView::Bytes(Ok(data@))),
        ),
        answer matches Answer::Count(n) ==> told(r.1) == Some(
            LifeOutputView::Reply(ReplyView::Written(Ok(n))),
        ),
        answer is Done ==> told(r.1) == Some(LifeOutputView::Reply(ReplyView::Done(Ok(())))),
        answer is Opened && actor.last_id < u64::MAX ==> (told(r.1) matches Some(
            LifeOutputView::Reply(ReplyView::Opened(Ok((id, _)))),
        ) && id == actor.last_id + 1),
        r.0@ is Waiting,
{
}

/// What a copy came to is what its caller is told.
pub proof fn what_a_copy_came_to_is_told<H: Copy>(
    life: SessionLife<H>,
    actor: ActorView<H>,
    paths: (Seq<char>, Seq<char>),
    names: CopyNames,
    state: CopyStateView,
    e: CopyEvent,
    outcome: Result<u64, ErrorView>,
    r: (SessionLife<H>, Option<LifeOutput>),
)
    requires
        life@ == (LifeView::Copying { actor, paths, names, state }),
        actor.running,
        state.accepts(e@),
        state.next(names, e@) == (CopyStateView::Done { outcome }),
        call_ensures(SessionLife::<H>::step, (life, LifeEvent::Copied(e)), r),
    ensures
        r.1 matches Some(LifeOutput::Reply(Reply::Copied(told))) && match told {
            Ok(n) => outcome == Ok::<u64, ErrorView>(n),
            Err(e) => outcome == Err::<u64, ErrorView>(e@),
        },
        r.0@ == (LifeView::Waiting { actor }),
{
}

/// Whoever opens a session learns why it did not come up: at once where there was
/// no context, and else once the context is gone.
pub proof fn why_a_session_failed_is_told<H: Copy>(
    life: SessionLife<H>,
    actor: ActorView<H>,
    state: ConnectStateView,
    e: ConnectEvent,
    r: (SessionLife<H>, Option<LifeOutput>),
    ending: SessionLife<H>,
    last: (SessionLife<H>, Option<LifeOutput>),
    error: ErrorView,
    release: bool,
)
    requires
        life@ == (LifeView::Connecting { actor, state }),
        answers_connecting(state, e@),
        state.next(life.config(), actor.platform.errnos, e@) == (ConnectStateView::Failed {
            error,
            release,
        }),
        call_ensures(SessionLife::<H>::step, (life, LifeEvent::Connecting(e)), r),
        ending@ == (LifeView::<H>::Ending {
            teardown: TeardownView { open: Seq::empty(), connected: false, alive: true },
            error: Some(error),
        }),
        call_ensures(SessionLife::<H>::step, (ending, LifeEvent::Done), last),
    ensures
        !release ==> (r.1 matches Some(LifeOutput::Ready(Err(told))) && told@ == error) && r.0@
            is Over,
        release ==> r.1 is None && (r.0@ matches LifeView::Ending { error: kept, .. } && kept
            == Some(error)),
        last.1 matches Some(LifeOutput::Ready(Err(told))) && told@ == error,
        last.0@ is Over,
{
}

/// A session that connects is reported as up, and waits for its first request.
pub proof fn a_session_that_connects_is_up<H: Copy>(
    life: SessionLife<H>,
    actor: ActorView<H>,
    plan: PlanView,
    r: (SessionLife<H>, Option<LifeOutput>),
    gone: SessionLife<H>,
    end: (SessionLife<H>, Option<LifeOutput>),
    act: LifeAction<'_, H>,
)
    requires
        life@ == (LifeView::Connecting { actor, state: ConnectStateView::Connect(plan) }),
        actor.running,
        call_ensures(
            SessionLife::<H>::step,
            (life, LifeEvent::Connecting(ConnectEvent::Connected)),
            r,
        ),
        gone@ == (LifeView::Waiting { actor }),
        actor.files == Map::<u64, H>::empty(),
        call_ensures(SessionLife::<H>::step, (gone, LifeEvent::Abandoned), end),
        call_ensures(SessionLife::<H>::action, (&end.0,), act),
    ensures
        r.1 matches Some(LifeOutput::Ready(Ok(_))),
        r.0@ == (LifeView::Waiting { actor }),
        // Without callers and without open files only the context is left.
        end.1 is None,
        act is Disconnect,
{
}

} // verus!
