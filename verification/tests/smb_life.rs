use krystallos::backend::OpenMode;
use krystallos::error::Error;
use krystallos::path::VfsPath;
use krystallos::smb::actor::{Answer, Call, Reply, Request};
use krystallos::smb::backend::ConnectConfig;
use krystallos::smb::copy::{CopyAction, CopyEvent};
use krystallos::smb::error::Failure;
use krystallos::smb::life::{
    LifeAction, LifeEvent, LifeOutput, SessionLife, Teardown, TeardownAction,
};
use krystallos::smb::session::ConnectEvent;
use krystallos::smb::status;

fn p(s: &str) -> VfsPath {
    VfsPath::new(s).unwrap()
}

fn config() -> ConnectConfig {
    ConnectConfig {
        server: "host".to_string(),
        share: "share".to_string(),
        user: None,
        password: None,
        domain: None,
        seal: false,
        timeout_secs: 5,
        label: "smb://host/share".to_string(),
    }
}

fn refusal() -> Failure {
    Failure {
        nterror: status::LOGON_FAILURE,
        known_name: None,
        rc: -111,
        message: "no".to_string(),
    }
}

/// What happens to a session whose network comes up and whose context is there
/// as said, and which accepts the connection as said.
struct World {
    network: bool,
    context: bool,
    accepts: bool,
    requests: Vec<Request>,
    next_handle: u32,
    done: Vec<String>,
    ready: Vec<Result<(), Error>>,
    replies: Vec<Reply>,
}

impl World {
    fn new(requests: Vec<Request>) -> Self {
        World {
            network: true,
            context: true,
            accepts: true,
            requests,
            next_handle: 70,
            done: Vec::new(),
            ready: Vec::new(),
            replies: Vec::new(),
        }
    }

    fn answer(&mut self, call: &Call<u32>) -> Answer<u32> {
        match call {
            Call::Open { .. } => {
                self.next_handle += 1;
                self.done.push(format!("open {}", self.next_handle));
                Answer::Opened { handle: self.next_handle, size: Some(1) }
            }
            Call::Close { handle, .. } => {
                self.done.push(format!("close {handle}"));
                Answer::Done
            }
            Call::Read { .. } => {
                self.done.push("read".to_string());
                Answer::Bytes(vec![7])
            }
            _ => {
                self.done.push("other".to_string());
                Answer::Failed(refusal())
            }
        }
    }

    fn live(&mut self) {
        let mut life: SessionLife<u32> = SessionLife::new(config());
        self.requests.reverse();
        loop {
            let event = match life.action() {
                LifeAction::Network => LifeEvent::Connecting(ConnectEvent::Network(
                    if self.network { Ok(()) } else { Err("down".to_string()) },
                )),
                LifeAction::Allocate => {
                    LifeEvent::Connecting(ConnectEvent::Allocated(self.context))
                }
                LifeAction::Connect(plan) => {
                    assert_eq!((plan.server.as_str(), plan.share.as_str()), ("host", "share"));
                    self.done.push("connect".to_string());
                    LifeEvent::Connecting(if self.accepts {
                        ConnectEvent::Connected
                    } else {
                        ConnectEvent::Refused(refusal())
                    })
                }
                LifeAction::Receive => match self.requests.pop() {
                    Some(request) => LifeEvent::Received(request),
                    None => LifeEvent::Abandoned,
                },
                LifeAction::Perform(call) => {
                    assert!(life.has_room());
                    LifeEvent::Answered(self.answer(call))
                }
                LifeAction::Copy { action, source, destination } => {
                    assert_eq!((source, destination), ("a", "b"));
                    LifeEvent::Copied(match action {
                        CopyAction::StatSource => CopyEvent::Size(0),
                        _ => CopyEvent::Done,
                    })
                }
                LifeAction::Close(handle) => {
                    self.done.push(format!("close {handle}"));
                    LifeEvent::Done
                }
                LifeAction::Disconnect => {
                    self.done.push("disconnect".to_string());
                    LifeEvent::Done
                }
                LifeAction::Destroy => {
                    self.done.push("destroy".to_string());
                    LifeEvent::Done
                }
                LifeAction::Finish => return,
            };
            let (next, output) = life.step(event);
            life = next;
            match output {
                Some(LifeOutput::Ready(r)) => self.ready.push(r),
                Some(LifeOutput::Reply(reply)) => self.replies.push(reply),
                None => {}
            }
        }
    }
}

fn open() -> Request {
    Request::Open { path: p("/f"), mode: OpenMode::read() }
}

#[test]
fn a_session_serves_up_to_its_shutdown_and_closes_what_is_open() {
    let mut world = World::new(vec![
        open(),
        open(),
        Request::ReadAt { id: 2, offset: 0, len: 1 },
        Request::Close { id: 1 },
        open(),
        Request::Copy { from: p("/a"), to: p("/b") },
        Request::Shutdown,
        open(),
    ]);
    world.live();
    assert!(matches!(world.ready[..], [Ok(())]));
    assert!(matches!(
        world.replies[..],
        [
            Reply::Opened(Ok((1, 1))),
            Reply::Opened(Ok((2, 1))),
            Reply::Bytes(Ok(_)),
            Reply::Done(Ok(())),
            Reply::Opened(Ok((3, 1))),
            Reply::Copied(Ok(0)),
            Reply::Stopped,
        ]
    ));
    assert_eq!(
        world.done[..6],
        ["connect", "open 71", "open 72", "read", "close 71", "open 73"]
    );
    let mut last = world.done[6..8].to_vec();
    last.sort();
    assert_eq!(last, ["close 72", "close 73"]);
    assert_eq!(world.done[8..], ["disconnect", "destroy"]);
    assert_eq!(world.requests.len(), 1, "nothing is received after a shutdown");
}

#[test]
fn a_session_without_callers_is_taken_down() {
    let mut world = World::new(vec![open()]);
    world.live();
    assert_eq!(world.done, ["connect", "open 71", "close 71", "disconnect", "destroy"]);
    assert_eq!(world.replies.len(), 1);
}

#[test]
fn a_session_that_does_not_connect_serves_nothing() {
    let mut world = World::new(vec![open(), Request::Shutdown]);
    world.accepts = false;
    world.live();
    assert!(matches!(world.ready[..], [Err(Error::Auth { .. })]));
    assert_eq!(world.done, ["connect", "disconnect", "destroy"]);
    assert!(world.replies.is_empty());
    assert_eq!(world.requests.len(), 2);

    let mut world = World::new(vec![open()]);
    world.context = false;
    world.live();
    assert!(matches!(world.ready[..], [Err(Error::Backend { .. })]));
    assert!(world.done.is_empty(), "there is no context to take down");
    assert!(world.replies.is_empty());

    let mut world = World::new(vec![open()]);
    world.network = false;
    world.live();
    match &world.ready[..] {
        [Err(Error::Backend { message })] => assert_eq!(message, "down"),
        other => panic!("got {other:?}"),
    }
    assert!(world.done.is_empty());
}

#[test]
fn handles_go_before_the_context() {
    let mut teardown = Teardown::new(vec![(1, 'a'), (4, 'b')]);
    let mut done = Vec::new();
    loop {
        assert!(!teardown.is_finished() || matches!(teardown.action(), TeardownAction::Finish));
        match teardown.action() {
            TeardownAction::Close(h) => done.push(h),
            TeardownAction::Disconnect => done.push('-'),
            TeardownAction::Destroy => done.push('x'),
            TeardownAction::Finish => break,
        }
        teardown = teardown.step();
    }
    assert!(teardown.is_finished());
    assert_eq!(done, ['b', 'a', '-', 'x']);
}
