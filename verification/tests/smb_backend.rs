use krystallos::backend::StorageBackend;
use krystallos::capabilities::Capabilities;
use krystallos::error::{Error, Result};
use krystallos::path::VfsPath;
use krystallos::registry::{BackendDriver, ConnectionOptions, Credentials, Endpoint};
use krystallos::smb::actor::SmbInfo;
use krystallos::smb::backend::{ParsedEndpoint, SmbBackend, SmbDriver};
use krystallos::smb::error::{Errnos, Failure};
use krystallos::smb::ffi::{
    SMB2_FILE_ATTRIBUTE_DIRECTORY, SMB2_FILE_ATTRIBUTE_READONLY,
    SMB2_FILE_ATTRIBUTE_REPARSE_POINT, SMB2_TYPE_DIRECTORY, SMB2_TYPE_FILE, SMB2_TYPE_LINK,
};
use krystallos::smb::path::{cstring, smb_path, to_smb_path};
use krystallos::smb::session::{
    call_outcome, connect_plan, ready_outcome, thread_name, CallOutcome, ConnectEvent,
    ConnectState,
};
use krystallos::smb::status;

fn parse(s: &str) -> Result<ParsedEndpoint> {
    ParsedEndpoint::parse(s)
}

fn p(s: &str) -> VfsPath {
    VfsPath::new(s).unwrap()
}

#[test]
fn parses_a_bare_server_and_share() {
    let p = parse("nas.local/media").unwrap();
    assert_eq!(p.server, "nas.local");
    assert_eq!(p.share, "media");
    assert_eq!(p.user, None);
    assert_eq!(p.domain, None);
}

#[test]
fn parses_user_and_domain() {
    let p = parse("WORKGROUP;alice@nas.local/media").unwrap();
    assert_eq!(p.server, "nas.local");
    assert_eq!(p.share, "media");
    assert_eq!(p.user.as_deref(), Some("alice"));
    assert_eq!(p.domain.as_deref(), Some("WORKGROUP"));
}

#[test]
fn parses_user_without_domain() {
    let p = parse("b@127.0.0.1/krystallos-test").unwrap();
    assert_eq!(p.server, "127.0.0.1");
    assert_eq!(p.share, "krystallos-test");
    assert_eq!(p.user.as_deref(), Some("b"));
}

#[test]
fn an_ipv4_literal_is_not_mistaken_for_a_domain_separator() {
    let p = parse("192.168.1.10/share").unwrap();
    assert_eq!(p.server, "192.168.1.10");
    assert_eq!(p.domain, None);
}

#[test]
fn a_path_within_the_share_still_yields_the_share_name() {
    let p = parse("nas.local/media/movies/2024").unwrap();
    assert_eq!(p.share, "media");
}

#[test]
fn rejects_endpoints_with_no_share() {
    for bad in ["nas.local", "nas.local/", "nas.local//x"] {
        assert!(parse(bad).is_err(), "{bad:?} should be rejected");
    }
}

#[test]
fn rejects_an_empty_server() {
    assert!(parse("/share").is_err());
}

#[test]
fn empty_user_and_domain_components_are_dropped() {
    let p = parse(";@nas.local/media").unwrap();
    assert_eq!(p.user, None);
    assert_eq!(p.domain, None);
}

#[test]
fn label_is_canonical_and_has_no_trailing_slash() {
    assert_eq!(parse("nas.local/media").unwrap().label(), "smb://nas.local/media");
    assert_eq!(parse("b@127.0.0.1/share").unwrap().label(), "smb://127.0.0.1/share");
}

#[test]
fn the_driver_declares_its_scheme() {
    assert_eq!(SmbDriver::new().scheme(), "smb");
    assert!(!SmbDriver::new().description().is_empty());
}

#[test]
fn type_and_attribute_constants_do_not_overlap() {
    assert_eq!(SMB2_TYPE_FILE, 0);
    assert_eq!(SMB2_TYPE_DIRECTORY, 1);
    assert_eq!(SMB2_TYPE_LINK, 2);
    assert_eq!(SMB2_FILE_ATTRIBUTE_READONLY, 0x1);
    assert_eq!(SMB2_FILE_ATTRIBUTE_DIRECTORY, 0x10);
    assert_eq!(SMB2_FILE_ATTRIBUTE_REPARSE_POINT, 0x400);
}

#[test]
fn the_root_becomes_the_empty_string() {
    assert_eq!(to_smb_path(&VfsPath::root()), "");
}

#[test]
fn nested_paths_lose_the_leading_separator() {
    assert_eq!(to_smb_path(&p("/a")), "a");
    assert_eq!(to_smb_path(&p("/a/b/c")), "a/b/c");
    assert_eq!(to_smb_path(&p("a/b")), "a/b");
}

#[test]
fn unicode_names_pass_through_unchanged() {
    assert_eq!(to_smb_path(&p("/影片/第 1 集.mkv")), "影片/第 1 集.mkv");
}

#[test]
fn share_relative_paths_are_distinct() {
    let paths = ["/", "/a", "/a/b", "/ab", "/b/a", "/a b"];
    for a in paths {
        for b in paths {
            assert_eq!(to_smb_path(&p(a)) == to_smb_path(&p(b)), a == b, "{a} and {b}");
        }
    }
}

#[test]
fn cstring_accepts_ordinary_paths() {
    assert_eq!(cstring("a/b").unwrap(), "a/b");
    assert!(cstring("").unwrap().is_empty());
}

#[test]
fn cstring_rejects_an_interior_nul() {
    let err = cstring("a\0b").unwrap_err();
    match err {
        Error::InvalidPath { reason, .. } => assert!(reason.contains("NUL")),
        other => panic!("expected InvalidPath, got {other:?}"),
    }
    assert!(smb_path(&p("/a\0b")).is_err());
    assert_eq!(smb_path(&p("/a/b")).unwrap(), "a/b");
}

fn info() -> SmbInfo {
    SmbInfo { dialect: 0x0311, max_read_size: 65536, max_write_size: 32768 }
}

fn table() -> Errnos {
    Errnos {
        enoent: 2,
        eacces: 13,
        einval: 22,
        enotdir: 20,
        eisdir: 21,
        enotempty: 39,
        econnrefused: 111,
        eperm: 1,
    }
}

#[test]
fn a_session_reports_what_it_negotiated() {
    let endpoint = Endpoint::parse("smb://bob@nas/media").unwrap();
    let config = SmbDriver::new()
        .configure(&endpoint, &Credentials::anonymous(), &ConnectionOptions::new())
        .unwrap();
    assert_eq!(config.user.as_deref(), Some("bob"));
    let backend = SmbBackend::new(&config, info());
    assert_eq!(backend.endpoint(), "smb://nas/media");
    assert_eq!(backend.capabilities(), Capabilities::full());
    assert_eq!(backend.info().dialect, 0x0311);
    assert_eq!(backend.info().max_read_size, 65536);
    assert_eq!(backend.info().max_write_size, 32768);
}

fn configured(uri: &str, user: &str, password: &str) -> krystallos::smb::backend::ConnectConfig {
    SmbDriver::default()
        .configure(
            &Endpoint::parse(uri).unwrap(),
            &Credentials::user_password(user, password),
            &ConnectionOptions::new().with("smb.seal", "1"),
        )
        .unwrap()
}

#[test]
fn a_session_opens_step_by_step() {
    let config = configured("smb://nas/media", "alice", "hunter2");
    let plan = connect_plan(&config).unwrap();
    assert_eq!(plan.server, "nas");
    assert_eq!(plan.share, "media");
    assert_eq!(plan.user.as_deref(), Some("alice"));
    assert_eq!(plan.password.as_deref(), Some("hunter2"));
    assert_eq!(plan.domain, None);
    assert!(plan.seal);
    assert_eq!(plan.timeout_secs, 20);

    let s = ConnectState::Network.step(&config, &table(), ConnectEvent::Network(Ok(())));
    assert!(matches!(s, ConnectState::Allocate));
    let s = s.step(&config, &table(), ConnectEvent::Allocated(true));
    assert!(matches!(s, ConnectState::Connect(_)));
    let s = s.step(&config, &table(), ConnectEvent::Connected);
    assert!(matches!(s, ConnectState::Connected));
}

#[test]
fn a_failed_attempt_releases_only_what_it_allocated() {
    let config = configured("smb://nas/media", "alice", "hunter2");
    let t = table();
    match ConnectState::Network.step(&config, &t, ConnectEvent::Network(Err("down".into()))) {
        ConnectState::Failed { error: Error::Backend { message }, release: false } => {
            assert_eq!(message, "down")
        }
        _ => panic!("expected a failure"),
    }
    assert!(matches!(
        ConnectState::Allocate.step(&config, &t, ConnectEvent::Allocated(false)),
        ConnectState::Failed { release: false, .. }
    ));
    let bad = configured("smb://nas/media", "al\0ice", "x");
    assert!(connect_plan(&bad).is_err());
    assert!(matches!(
        ConnectState::Allocate.step(&bad, &t, ConnectEvent::Allocated(true)),
        ConnectState::Failed { error: Error::InvalidPath { .. }, release: true }
    ));
    let refused = Failure {
        nterror: status::LOGON_FAILURE,
        known_name: None,
        rc: -1,
        message: String::new(),
    };
    assert!(matches!(
        ConnectState::Allocate
            .step(&config, &t, ConnectEvent::Allocated(true))
            .step(&config, &t, ConnectEvent::Refused(refused)),
        ConnectState::Failed { error: Error::Auth { .. }, release: true }
    ));
}

#[test]
fn a_thread_that_is_gone_is_a_lost_session() {
    assert_eq!(thread_name("smb://h/s"), "krystallos-smb smb://h/s");
    assert!(ready_outcome(Some(Ok(info()))).is_ok());
    assert!(matches!(ready_outcome(None), Err(Error::ConnectionLost { .. })));
    assert!(matches!(
        call_outcome::<()>(CallOutcome::NotSent),
        Err(Error::ConnectionLost { .. })
    ));
    assert!(matches!(
        call_outcome::<()>(CallOutcome::NoReply),
        Err(Error::ConnectionLost { .. })
    ));
    assert_eq!(call_outcome(CallOutcome::Replied(Ok(5))).unwrap(), 5);
    assert!(matches!(
        call_outcome::<()>(CallOutcome::Replied(Err(Error::backend("x")))),
        Err(Error::Backend { .. })
    ));
}
