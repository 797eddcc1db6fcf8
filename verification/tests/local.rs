use krystallos::backend::StorageBackend;
use krystallos::capabilities::Capabilities;
use krystallos::entry::{EntryKind, Timestamp};
use krystallos::error::{Error, IoError, IoErrorKind};
use krystallos::local::backend::{list_entries, map_io, to_metadata, LocalBackend, LocalStat, RawEntry};
use krystallos::local::driver::{
    check_root, looks_like_drive_path, parse_root, root_error, uri_for, LocalDriver,
};
use krystallos::path::VfsPath;
use krystallos::registry::{BackendDriver, Endpoint};

fn p(s: &str) -> VfsPath {
    VfsPath::new(s).unwrap()
}

fn plain(is_dir: bool, len: u64) -> LocalStat {
    LocalStat {
        is_symlink: false,
        is_dir,
        is_file: !is_dir,
        len,
        modified: None,
        created: None,
        accessed: None,
        read_only: false,
    }
}

#[test]
fn rejects_endpoints_with_no_path() {
    let err = parse_root("", false).unwrap_err();
    match err {
        Error::InvalidPath { reason, .. } => assert!(reason.contains("must name a directory")),
        other => panic!("expected InvalidPath, got {other:?}"),
    }
}

#[test]
fn strips_the_uri_slash_before_a_windows_drive() {
    assert_eq!(parse_root("/D:/media", true).unwrap(), "D:/media");
    assert_eq!(parse_root("/c:/x", true).unwrap(), "c:/x");
}

#[test]
fn drive_shapes_mean_nothing_elsewhere() {
    assert_eq!(parse_root("/D:/media", false).unwrap(), "/D:/media");
}

#[test]
fn a_path_that_is_not_a_drive_keeps_its_leading_slash() {
    for windows in [false, true] {
        assert_eq!(parse_root("/home/u", windows).unwrap(), "/home/u");
        assert_eq!(parse_root("/ab", windows).unwrap(), "/ab");
        assert_eq!(parse_root("/1:/x", windows).unwrap(), "/1:/x");
    }
}

#[test]
fn four_slashes_yield_a_unc_style_path() {
    for windows in [false, true] {
        let p = parse_root("//server/share", windows).unwrap();
        assert_eq!(p.replace('\\', "/"), "//server/share");
    }
}

#[test]
fn uri_for_renders_a_drive_root() {
    assert_eq!(uri_for("D:\\media"), "file:///D:/media");
}

#[test]
fn uri_for_renders_a_posix_root() {
    assert_eq!(uri_for("/home/u"), "file:///home/u");
}

#[test]
fn drive_detection_boundaries() {
    assert!(looks_like_drive_path("/D:/x"));
    assert!(looks_like_drive_path("/D:"));
    assert!(!looks_like_drive_path("/D"), "the colon is what makes it a drive");
    assert!(!looks_like_drive_path("D:/x"), "must start with a slash");
    assert!(!looks_like_drive_path("/DD:/x"), "one letter only");
    assert!(!looks_like_drive_path("/1:/x"), "the letter must be alphabetic");
}

#[test]
fn a_rendered_root_parses_back() {
    for (root, windows) in [("/home/u", false), ("D:/media", true), ("/影", false)] {
        let uri = uri_for(root);
        let endpoint = Endpoint::parse(&uri).unwrap();
        assert_eq!(endpoint.scheme(), LocalDriver::new().scheme());
        assert_eq!(parse_root(endpoint.authority_and_path(), windows).unwrap(), root);
    }
    assert!(!LocalDriver::new().description().is_empty());
}

#[test]
fn resolve_cannot_escape_the_root() {
    let be = LocalBackend::new("/srv/media", '/');
    let root = be.root().to_string();

    let resolved = be.resolve(&p("/C:/windows"));
    assert!(
        resolved.starts_with(&root),
        "resolve escaped the root: {resolved} (root {root})"
    );
    assert_eq!(resolved, "/srv/media/C:/windows");
    assert_eq!(be.resolve(&VfsPath::root()), "/srv/media");
    assert_eq!(LocalBackend::new("D:\\m", '\\').resolve(&p("/a/b")), "D:\\m\\a\\b");
}

#[test]
fn endpoint_round_trips_as_a_uri() {
    for be in [LocalBackend::new("/srv/media", '/'), LocalBackend::new("D:\\media", '\\')] {
        let ep = be.endpoint();
        assert!(ep.starts_with("file:///"), "unexpected endpoint: {ep}");
        assert!(!ep.contains('\\'), "URIs use forward slashes: {ep}");
    }
}

#[test]
fn the_local_backend_declares_full_capabilities() {
    let caps = LocalBackend::new("/", '/').capabilities();
    assert!(caps.random_read && caps.random_write);
    assert!(caps.atomic_rename && caps.durable_flush);
    assert_eq!(caps, Capabilities::full());
}

#[test]
fn list_reports_names_and_metadata_in_one_pass() {
    let entries = list_entries(vec![
        RawEntry { name: "b.txt".to_string(), st: Some(plain(false, 5)) },
        RawEntry { name: "gone".to_string(), st: None },
        RawEntry { name: "sub".to_string(), st: Some(plain(true, 4096)) },
        RawEntry { name: "a.txt".to_string(), st: Some(plain(false, 2)) },
    ]);

    let names: Vec<&str> = entries.iter().map(|e| e.name.as_str()).collect();
    assert_eq!(names, ["a.txt", "b.txt", "sub"], "listing is sorted");

    let a = &entries[0];
    assert!(a.metadata.is_file());
    assert_eq!(a.metadata.len, 2, "metadata arrives with the entry");
    assert!(entries[2].is_dir());
}

#[test]
fn a_symlink_is_described_as_itself() {
    let mut st = plain(false, 4);
    st.modified = Some(Timestamp { secs: 3, nanos: 4 });
    st.read_only = true;
    let m = to_metadata(&st);
    assert_eq!(m.kind, EntryKind::File);
    assert_eq!(m.modified, Some(Timestamp { secs: 3, nanos: 4 }));
    assert!(m.read_only);
    st.is_symlink = true;
    assert_eq!(to_metadata(&st).kind, EntryKind::Symlink);
    st.is_symlink = false;
    st.is_file = false;
    assert_eq!(to_metadata(&st).kind, EntryKind::Other);
}

#[test]
fn errors_name_the_path_that_failed() {
    let e = |kind| map_io(IoError::new(kind, "text"), &p("/nope"));
    match e(IoErrorKind::NotFound) {
        Error::NotFound { path } => assert_eq!(path, "/nope"),
        other => panic!("expected NotFound, got {other:?}"),
    }
    assert!(matches!(e(IoErrorKind::PermissionDenied), Error::PermissionDenied { .. }));
    assert!(matches!(e(IoErrorKind::AlreadyExists), Error::AlreadyExists { .. }));
    assert!(matches!(e(IoErrorKind::NotADirectory), Error::NotADirectory { .. }));
    assert!(matches!(e(IoErrorKind::IsADirectory), Error::IsADirectory { .. }));
    assert!(matches!(e(IoErrorKind::DirectoryNotEmpty), Error::DirectoryNotEmpty { .. }));
    match e(IoErrorKind::TimedOut) {
        Error::Io(inner) => assert_eq!(inner.kind(), IoErrorKind::TimedOut),
        other => panic!("got {other:?}"),
    }
}

#[test]
fn connecting_to_a_missing_directory_names_it() {
    match root_error(IoError::new(IoErrorKind::NotFound, "x"), "/definitely/not/here/at/all") {
        Error::NotFound { path } => assert_eq!(path, "/definitely/not/here/at/all"),
        other => panic!("got {other:?}"),
    }
    assert!(matches!(
        root_error(IoError::new(IoErrorKind::Other, "x"), "/r"),
        Error::Io(_)
    ));
}

#[test]
fn connecting_to_a_file_rather_than_a_directory_is_rejected() {
    let err = check_root("/f.txt", false).unwrap_err();
    assert!(matches!(err, Error::NotADirectory { .. }), "got {err:?}");
    assert!(check_root("/d", true).is_ok());
}
