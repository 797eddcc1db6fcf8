use krystallos::error::Error;
use krystallos::smb::error::{
    auth_message, from_channels, from_errno, from_parts, from_status, status_from_name,
    status_name, status_token, tap_path, Errnos, Failure,
};
use krystallos::smb::status;

fn by_status(status: u32) -> Error {
    from_parts(status, 0, String::new(), Some("/a"), None)
}

fn by_message(message: &str) -> Error {
    from_parts(0, 0, message.to_string(), Some("/a"), None)
}

fn by_errno(errno: i32) -> Error {
    from_parts(0, -errno, String::new(), Some("/a"), None)
}

/// Numbers of no particular platform.
fn table() -> Errnos {
    Errnos {
        enoent: 102,
        eacces: 113,
        einval: 122,
        enotdir: 120,
        eisdir: 121,
        enotempty: 139,
        econnrefused: 211,
        eperm: 101,
    }
}

#[test]
fn not_found_variants_all_map_to_not_found() {
    for status in [
        status::OBJECT_NAME_NOT_FOUND,
        status::OBJECT_PATH_NOT_FOUND,
        status::NO_SUCH_FILE,
        status::BAD_NETWORK_NAME,
    ] {
        match by_status(status) {
            Error::NotFound { path } => assert_eq!(path, "/a"),
            other => panic!("status {status:#010X} mapped to {other:?}"),
        }
    }
}

#[test]
fn the_create_path_is_classified_from_its_message() {
    match by_message("Create failed with status STATUS_OBJECT_NAME_COLLISION.") {
        Error::AlreadyExists { path } => assert_eq!(path, "/a"),
        other => panic!("expected AlreadyExists, got {other:?}"),
    }
}

#[test]
fn a_silent_failure_is_classified_from_the_errno() {
    match by_errno(libc::ENOENT) {
        Error::NotFound { path } => assert_eq!(path, "/a"),
        other => panic!("expected NotFound, got {other:?}"),
    }
}

#[test]
fn authentication_failures_are_distinct_from_permission_denied() {
    assert!(matches!(by_status(status::LOGON_FAILURE), Error::Auth { .. }));
    assert!(matches!(by_errno(libc::ECONNREFUSED), Error::Auth { .. }));

    let perm = by_status(status::ACCESS_DENIED);
    assert!(matches!(perm, Error::PermissionDenied { .. }));
    assert!(!perm.is_fatal_to_session());
}

#[test]
fn session_level_failures_are_marked_fatal() {
    for status in [
        status::NETWORK_NAME_DELETED,
        status::USER_SESSION_DELETED,
        status::CONNECTION_DISCONNECTED,
        status::CONNECTION_RESET,
        status::NETWORK_SESSION_EXPIRED,
    ] {
        let e = by_status(status);
        assert!(
            e.is_fatal_to_session(),
            "status {status:#010X} should be fatal to the session, got {e:?}"
        );
    }
}

#[test]
fn an_unknown_status_keeps_the_original_text() {
    match from_parts(0xDEAD_BEEF, 0, "server said something odd".into(), None, None) {
        Error::Backend { message } => assert_eq!(message, "server said something odd"),
        other => panic!("expected Backend, got {other:?}"),
    }
}

#[test]
fn a_failure_with_nothing_to_say_still_says_something() {
    match from_parts(0, -22, String::new(), None, None) {
        Error::Unsupported { .. } => {}
        other => panic!("errno EINVAL should be Unsupported, got {other:?}"),
    }
    match from_parts(0, -9999, String::new(), None, None) {
        Error::Backend { message } => {
            assert!(!message.is_empty());
            assert!(!message.contains("STATUS_SUCCESS"), "got: {message}");
        }
        other => panic!("expected Backend, got {other:?}"),
    }
}

#[test]
fn status_token_extraction_stops_at_the_identifier() {
    assert_eq!(
        status_token("Create failed with status STATUS_OBJECT_NAME_COLLISION."),
        Some("STATUS_OBJECT_NAME_COLLISION")
    );
    assert_eq!(status_token("read from socket failed, errno:10038"), None);
    assert_eq!(status_token("STATUS_ACCESS_DENIED"), Some("STATUS_ACCESS_DENIED"));
}

#[test]
fn a_stale_nterror_does_not_override_a_clearer_message() {
    match from_parts(
        0x0000_0001,
        0,
        "Create failed with status STATUS_ACCESS_DENIED.".into(),
        None,
        None,
    ) {
        Error::PermissionDenied { .. } => {}
        other => panic!("expected the message to win, got {other:?}"),
    }
}

#[test]
fn a_bare_minus_one_is_a_lost_connection_not_a_permission_problem() {
    let e = from_parts(0, -1, "smb2_service: POLLHUP, socket error.".into(), Some("/a"), None);
    assert!(
        matches!(e, Error::ConnectionLost { .. }),
        "a bare -1 should be a lost connection, got {e:?}"
    );
    assert!(e.is_fatal_to_session());
}

#[test]
fn a_genuine_errno_beyond_minus_one_still_classifies() {
    assert!(matches!(
        from_parts(0, -(libc::ENOENT), String::new(), None, None),
        Error::NotFound { .. }
    ));
}

#[test]
fn the_status_channel_outranks_a_generic_failure_code() {
    let e = from_parts(
        status::LOGON_FAILURE,
        -1,
        "smb2_service failed with : Read from socket failed, errno:10038.".into(),
        None,
        None,
    );
    assert!(matches!(e, Error::Auth { .. }), "got {e:?}");
}

#[test]
fn an_auth_failure_does_not_read_as_a_network_problem() {
    match by_status(status::LOGON_FAILURE) {
        Error::Auth { message } => {
            assert!(
                message.contains("credentials"),
                "should say what actually went wrong: {message}"
            );
        }
        other => panic!("expected Auth, got {other:?}"),
    }
}

#[test]
fn the_libraries_own_text_is_kept_as_secondary() {
    assert_eq!(auth_message("  "), "the server rejected the credentials");
    assert_eq!(
        auth_message(" socket gone\n"),
        "the server rejected the credentials (libsmb2 reported: socket gone)"
    );
}

#[test]
fn every_known_errno_has_a_portable_meaning() {
    let t = table();
    let e = |errno| from_errno(&t, errno, "text", Some("/a"));
    assert!(matches!(e(102), Some(Error::NotFound { .. })));
    assert!(matches!(e(113), Some(Error::PermissionDenied { .. })));
    assert!(matches!(e(122), Some(Error::Unsupported { .. })));
    assert!(matches!(e(120), Some(Error::NotADirectory { .. })));
    assert!(matches!(e(121), Some(Error::IsADirectory { .. })));
    assert!(matches!(e(139), Some(Error::DirectoryNotEmpty { .. })));
    assert!(matches!(e(211), Some(Error::Auth { .. })));
    assert!(e(101).is_none(), "EPERM means nothing in particular");
    assert!(e(1).is_none());
    for errno in [
        libc::ENOENT,
        libc::EACCES,
        libc::EINVAL,
        libc::ENOTDIR,
        libc::EISDIR,
        libc::ENOTEMPTY,
        libc::ECONNREFUSED,
    ] {
        assert!(!matches!(by_errno(errno), Error::Backend { .. }), "{errno}");
    }
}

#[test]
fn the_numbers_come_from_the_table_and_nowhere_else() {
    assert!(matches!(
        from_channels(&table(), 0, -102, String::new(), Some("/a"), None),
        Error::NotFound { .. }
    ));
    match from_channels(&table(), 0, -2, String::new(), Some("/a"), None) {
        Error::Backend { message } => assert!(!message.is_empty()),
        other => panic!("got {other:?}"),
    }
}

#[test]
fn every_known_status_has_a_portable_meaning() {
    let e = |code| from_status(code, "m", Some("/a"));
    assert!(matches!(e(status::ACCESS_DENIED), Some(Error::PermissionDenied { .. })));
    assert!(matches!(e(status::OBJECT_NAME_COLLISION), Some(Error::AlreadyExists { .. })));
    assert!(matches!(e(status::NOT_A_DIRECTORY), Some(Error::NotADirectory { .. })));
    assert!(matches!(e(status::FILE_IS_A_DIRECTORY), Some(Error::IsADirectory { .. })));
    assert!(matches!(e(status::DIRECTORY_NOT_EMPTY), Some(Error::DirectoryNotEmpty { .. })));
    assert!(matches!(e(status::NOT_SUPPORTED), Some(Error::Unsupported { .. })));
    assert!(e(0xDEAD_BEEF).is_none());
    assert!(e(0).is_none());
}

#[test]
fn names_and_codes_agree() {
    assert_eq!(status_from_name("STATUS_ACCESS_DENIED"), Some(status::ACCESS_DENIED));
    assert_eq!(status_from_name("STATUS_OF_NOTHING"), None);
    assert_eq!(status_name(0xC000_0034, Some("STATUS_X")), "STATUS_X");
    assert_eq!(status_name(0xDEAD_BEEF, None), "0xDEADBEEF");
    assert_eq!(status_name(0x22, None), "0x00000022");
}

#[test]
fn an_error_learns_which_path_it_concerns() {
    assert!(matches!(tap_path(Error::not_found(""), "/a"), Error::NotFound { path } if path == "/a"));
    assert!(matches!(tap_path(Error::not_found("/b"), ""), Error::NotFound { path } if path == "/b"));
    match tap_path(Error::backend("odd"), "/a") {
        Error::Backend { message } => assert_eq!(message, "odd"),
        other => panic!("got {other:?}"),
    }
    let f = Failure {
        nterror: status::OBJECT_NAME_NOT_FOUND,
        known_name: None,
        rc: -1,
        message: "whatever".into(),
    };
    match f.error(&table(), "/movies") {
        Error::NotFound { path } => assert_eq!(path, "/movies"),
        other => panic!("got {other:?}"),
    }
}

#[test]
fn eperm_is_never_read_as_permission_denied() {
    assert!(from_errno(&table(), table().eperm, "text", Some("/a")).is_none());
    assert!(matches!(
        from_channels(&table(), 0, -table().eperm, "text".to_string(), Some("/a"), None),
        Error::Backend { .. }
    ));
    assert!(!matches!(by_errno(libc::EPERM), Error::PermissionDenied { .. }));
}
