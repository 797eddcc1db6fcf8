use krystallos::backend::{OpenMode, StorageBackend};
use krystallos::capabilities::Capabilities;
use krystallos::entry::{Entry, EntryKind, Metadata};
use krystallos::error::{Error, IoError, IoErrorKind};
use krystallos::listing::sort_entries;

#[test]
fn connection_lost_is_not_retryable_but_is_session_fatal() {
    let e = Error::connection_lost("server went away");
    assert!(!e.is_retryable());
    assert!(e.is_fatal_to_session());
}

#[test]
fn not_found_is_neither_retryable_nor_fatal() {
    let e = Error::not_found("/a/b");
    assert!(!e.is_retryable());
    assert!(!e.is_fatal_to_session());
    assert_eq!(e.to_string(), "not found: /a/b");
}

#[test]
fn interrupted_io_is_retryable() {
    let e = Error::Io(IoError::new(IoErrorKind::Interrupted, "operation interrupted"));
    assert!(e.is_retryable());
    assert!(!e.is_fatal_to_session());
}

#[test]
fn only_interruptions_are_worth_retrying() {
    for kind in [
        IoErrorKind::NotFound,
        IoErrorKind::TimedOut,
        IoErrorKind::UnexpectedEof,
        IoErrorKind::Other,
    ] {
        let e = IoError::new(kind, "x");
        assert_eq!(e.kind(), kind);
        assert!(!Error::Io(e).is_retryable());
    }
    assert!(Error::Auth { message: "no".into() }.is_fatal_to_session());
    assert!(!Error::backend("odd").is_fatal_to_session());
}

#[test]
fn every_error_reads_as_it_should() {
    let path = || "/p".to_string();
    let cases = [
        (Error::NotFound { path: path() }, "not found: /p"),
        (Error::PermissionDenied { path: path() }, "permission denied: /p"),
        (Error::AlreadyExists { path: path() }, "already exists: /p"),
        (Error::NotADirectory { path: path() }, "not a directory: /p"),
        (Error::IsADirectory { path: path() }, "is a directory: /p"),
        (Error::DirectoryNotEmpty { path: path() }, "directory not empty: /p"),
        (
            Error::invalid_path("/p", "why"),
            "path not representable on this backend: /p (why)",
        ),
        (
            Error::Unsupported { operation: "op" },
            "operation not supported by this backend: op",
        ),
        (Error::connection_lost("gone"), "connection lost: gone"),
        (Error::Auth { message: "bad".into() }, "authentication failed: bad"),
        (Error::backend("odd"), "backend error: odd"),
        (Error::Io(IoError::new(IoErrorKind::Other, "disk on fire")), "disk on fire"),
    ];
    for (e, expected) in cases {
        assert_eq!(e.to_string(), expected);
    }
}

#[test]
fn kind_predicates() {
    assert!(EntryKind::Directory.is_dir());
    assert!(!EntryKind::Directory.is_file());
    assert!(EntryKind::File.is_file());
    assert!(!EntryKind::Symlink.is_file());
    assert!(!EntryKind::Symlink.is_dir());
}

#[test]
fn metadata_constructors_set_kind_and_len() {
    let f = Metadata::file(4096);
    assert!(f.is_file() && !f.is_dir());
    assert_eq!(f.len, 4096);
    assert!(!f.read_only);

    let d = Metadata::directory();
    assert!(d.is_dir() && !d.is_file());
    assert_eq!(d.len, 0);
}

#[test]
fn entry_exposes_its_metadata() {
    let e = Entry::new("movie.mkv", Metadata::file(1024));
    assert_eq!(e.name, "movie.mkv");
    assert!(!e.is_dir());
    assert_eq!(e.metadata.len, 1024);
}

#[test]
fn full_declares_everything() {
    let c = Capabilities::full();
    assert!(c.random_read && c.random_write && c.atomic_rename);
    assert!(c.set_len && c.durable_flush && c.modification_times);
}

#[test]
fn minimal_is_conservative_about_atomicity_and_durability() {
    let c = Capabilities::minimal();
    assert!(!c.atomic_rename, "must not promise atomicity it lacks");
    assert!(!c.durable_flush, "must not promise durability it lacks");
    assert!(!c.modification_times);
}

#[test]
fn default_is_minimal_not_full() {
    assert_eq!(Capabilities::default(), Capabilities::minimal());
}

struct Forgetful;

impl StorageBackend for Forgetful {
    fn endpoint(&self) -> &str {
        "forgetful://x"
    }
}

#[test]
fn a_backend_that_declares_nothing_under_promises() {
    assert_eq!(Forgetful.capabilities(), Capabilities::minimal());
    assert_eq!(Forgetful.endpoint(), "forgetful://x");
}

#[test]
fn read_mode_is_read_only() {
    let m = OpenMode::read();
    assert!(m.is_read() && !m.is_write());
    assert!(!m.creates() && !m.truncates() && !m.must_not_exist());
}

#[test]
fn write_mode_creates_but_does_not_truncate() {
    let m = OpenMode::write();
    assert!(m.is_write() && !m.is_read());
    assert!(m.creates() && !m.truncates());
}

#[test]
fn create_new_refuses_to_clobber_but_still_creates() {
    let m = OpenMode::create_new();
    assert!(m.creates() && m.must_not_exist());
}

#[test]
fn with_truncate_preserves_the_rest_of_the_mode() {
    let m = OpenMode::read_write().with_truncate();
    assert!(m.is_read() && m.is_write());
    assert!(m.truncates() && m.creates());
}

#[test]
fn default_open_mode_is_read() {
    assert_eq!(OpenMode::default(), OpenMode::read());
}

#[test]
fn listings_are_sorted_by_name_and_keep_equal_names_in_order() {
    let listed = sort_entries(vec![
        Entry::new("sub", Metadata::directory()),
        Entry::new("b.txt", Metadata::file(1)),
        Entry::new("a", Metadata::file(2)),
        Entry::new("b.txt", Metadata::file(3)),
        Entry::new("Z", Metadata::file(4)),
        Entry::new("影", Metadata::file(5)),
        Entry::new("", Metadata::file(6)),
        Entry::new("a1", Metadata::file(7)),
    ]);
    let names: Vec<&str> = listed.iter().map(|e| e.name.as_str()).collect();
    assert_eq!(names, ["", "Z", "a", "a1", "b.txt", "b.txt", "sub", "影"]);
    assert_eq!(listed[4].metadata.len, 1);
    assert_eq!(listed[5].metadata.len, 3);
}

#[test]
fn a_large_listing_sorts_like_the_standard_sort() {
    let mut names: Vec<String> = (0..500u32).map(|i| format!("f{}", (i * 7919) % 499)).collect();
    let listed = sort_entries(names.iter().map(|n| Entry::new(n, Metadata::file(0))).collect());
    names.sort();
    let got: Vec<String> = listed.into_iter().map(|e| e.name).collect();
    assert_eq!(got, names);
}
