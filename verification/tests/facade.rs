use krystallos::backend::{FileHandle, OpenMode};
use krystallos::capabilities;
use krystallos::entry::{Entry, EntryKind, Metadata, Timestamp};
use krystallos::error::{Error, IoError, IoErrorKind, Result};
use krystallos::facade::error::KernelError;
use krystallos::facade::file::RemoteFile;
use krystallos::facade::kernel::Kernel;
use krystallos::facade::session::Session;
use krystallos::facade::types::{
    already_closed, to_millis, ByteRange, Capabilities, ConnectRequest, DirEntry, EntryMetadata,
    Kind, OpenFlags,
};
use krystallos::registry::{ConnectionOptions, Credentials};
use krystallos::smb::backend::OPT_SEAL;

#[test]
fn each_core_variant_maps_to_its_own_ffi_variant() {
    let cases: Vec<(Error, &str)> = vec![
        (Error::not_found("/a"), "NotFound"),
        (Error::PermissionDenied { path: "/a".into() }, "PermissionDenied"),
        (Error::AlreadyExists { path: "/a".into() }, "AlreadyExists"),
        (Error::NotADirectory { path: "/a".into() }, "NotADirectory"),
        (Error::IsADirectory { path: "/a".into() }, "IsADirectory"),
        (Error::DirectoryNotEmpty { path: "/a".into() }, "DirectoryNotEmpty"),
        (
            Error::InvalidPath { path: "/a".into(), reason: "why".into() },
            "InvalidPath",
        ),
        (Error::Unsupported { operation: "op" }, "Unsupported"),
        (Error::connection_lost("gone"), "ConnectionLost"),
        (Error::Auth { message: "bad password".into() }, "Auth"),
        (Error::backend("odd"), "Backend"),
    ];

    for (core, expected) in cases {
        let mapped: KernelError = core.into();
        let actual = match mapped {
            KernelError::NotFound { .. } => "NotFound",
            KernelError::PermissionDenied { .. } => "PermissionDenied",
            KernelError::AlreadyExists { .. } => "AlreadyExists",
            KernelError::NotADirectory { .. } => "NotADirectory",
            KernelError::IsADirectory { .. } => "IsADirectory",
            KernelError::DirectoryNotEmpty { .. } => "DirectoryNotEmpty",
            KernelError::InvalidPath { .. } => "InvalidPath",
            KernelError::Unsupported { .. } => "Unsupported",
            KernelError::ConnectionLost { .. } => "ConnectionLost",
            KernelError::Auth { .. } => "Auth",
            KernelError::Backend { .. } => "Backend",
        };
        assert_eq!(actual, expected);
    }
}

#[test]
fn an_io_error_keeps_its_message_rather_than_being_flattened() {
    let e: KernelError =
        Error::Io(IoError::new(IoErrorKind::TimedOut, "the socket gave up")).into();
    match e {
        KernelError::Backend { detail: message } => {
            assert!(message.contains("the socket gave up"), "got: {message}");
        }
        other => panic!("expected Backend, got {other:?}"),
    }
}

#[test]
fn session_level_failures_stay_distinguishable_across_the_boundary() {
    let lost: KernelError = Error::connection_lost("gone").into();
    assert!(matches!(lost, KernelError::ConnectionLost { .. }));

    let auth: KernelError = Error::Auth { message: "bad".into() }.into();
    assert!(matches!(auth, KernelError::Auth { .. }));

    let missing: KernelError = Error::not_found("/a").into();
    assert!(matches!(missing, KernelError::NotFound { .. }));
}

#[test]
fn error_messages_are_human_readable() {
    let e: KernelError = Error::not_found("/movies/a.mkv").into();
    assert_eq!(e.to_string(), "not found: /movies/a.mkv");
}

#[test]
fn exported_errors_read_like_the_ones_they_come_from() {
    let text = |e: Error| {
        let before = e.to_string();
        (before, KernelError::from(e).to_string())
    };
    for e in [
        Error::PermissionDenied { path: "/p".into() },
        Error::AlreadyExists { path: "/p".into() },
        Error::NotADirectory { path: "/p".into() },
        Error::IsADirectory { path: "/p".into() },
        Error::DirectoryNotEmpty { path: "/p".into() },
        Error::connection_lost("gone"),
        Error::Auth { message: "bad".into() },
        Error::backend("odd"),
    ] {
        let (before, after) = text(e);
        assert_eq!(before, after);
    }
    let (_, after) = text(Error::invalid_path("/p", "why"));
    assert!(after.contains("/p") && after.contains("why"), "got {after}");
    let (_, after) = text(Error::Unsupported { operation: "op" });
    assert!(after.contains("op"), "got {after}");
}

#[test]
fn a_new_kernel_has_both_backends() {
    let k = Kernel::default();
    let schemes = k.schemes();
    assert!(schemes.contains(&"file".to_string()), "got {schemes:?}");
    assert!(schemes.contains(&"smb".to_string()), "got {schemes:?}");
    assert!(!k.describe("SMB").is_empty());
    assert_eq!(k.describe("sftp"), "");
}

#[test]
fn an_unregistered_scheme_names_the_problem() {
    let err = Kernel::new()
        .plan("sftp://host/share", &Credentials::anonymous(), &ConnectionOptions::new(), false)
        .map(|_| ())
        .expect_err("sftp is not implemented");
    let err = KernelError::from(err);
    assert!(matches!(err, KernelError::Unsupported { .. }), "got {err:?}");
}

#[test]
fn open_mode_conversion_is_reachable_from_the_ffi_types() {
    let mode: OpenMode = OpenFlags::read_write().into();
    assert!(mode.is_read() && mode.is_write());
    let _ = Credentials::anonymous();
}

#[test]
fn entry_metadata_converts_every_field() {
    let mut m = Metadata::file(4096);
    m.modified = Some(Timestamp { secs: 1_700_000_000, nanos: 123_000_000 });
    m.read_only = true;

    let ffi = EntryMetadata::from_core(&m);
    assert_eq!(ffi.kind, Kind::File);
    assert_eq!(ffi.len, 4096);
    assert_eq!(ffi.modified_ms, Some(1_700_000_000_123));
    assert!(ffi.read_only);
    assert_eq!(ffi.created_ms, None);
}

#[test]
fn an_absent_timestamp_stays_absent() {
    assert_eq!(to_millis(None), None);
}

#[test]
fn a_pre_epoch_timestamp_is_reported_as_absent() {
    let before = Timestamp { secs: -60, nanos: 0 };
    assert_eq!(to_millis(Some(before)), None);
}

#[test]
fn kinds_map_across_the_boundary() {
    assert_eq!(Kind::from(EntryKind::File), Kind::File);
    assert_eq!(Kind::from(EntryKind::Directory), Kind::Directory);
    assert_eq!(Kind::from(EntryKind::Symlink), Kind::Symlink);
    assert_eq!(Kind::from(EntryKind::Other), Kind::Other);
}

#[test]
fn directory_entries_carry_their_metadata() {
    let e = Entry::new("movie.mkv", Metadata::file(1024));
    let ffi = DirEntry::from(e);
    assert_eq!(ffi.name, "movie.mkv");
    assert_eq!(ffi.metadata.len, 1024);
    assert_eq!(ffi.metadata.kind, Kind::File);
}

#[test]
fn open_flags_map_to_the_kernel_modes() {
    assert_eq!(OpenMode::from(OpenFlags::read_only()), OpenMode::read());
    assert_eq!(OpenMode::from(OpenFlags::write_only()), OpenMode::write());
    assert_eq!(OpenMode::from(OpenFlags::read_write()), OpenMode::read_write());
    assert_eq!(OpenMode::from(OpenFlags::create_exclusive()), OpenMode::create_new());
}

#[test]
fn truncation_survives_the_mapping() {
    let m = OpenMode::from(OpenFlags::write_only().with_truncate());
    assert!(m.truncates());
    assert!(m.is_write());
}

#[test]
fn a_degenerate_flag_combination_is_read_only_rather_than_a_panic() {
    let flags = OpenFlags {
        read: false,
        write: false,
        create: true,
        create_new: false,
        truncate: false,
    };
    assert_eq!(OpenMode::from(flags), OpenMode::read());
}

#[test]
fn connect_request_carries_seal_into_options() {
    let (uri, _, options) = ConnectRequest::new("smb://h/s").into_parts();
    assert_eq!(uri, "smb://h/s");
    assert_eq!(options.get_bool(OPT_SEAL), None, "off by default");

    let (_, _, options) = ConnectRequest::new("smb://h/s").with_smb_seal(true).into_parts();
    assert_eq!(options.get_bool(OPT_SEAL), Some(true));
}

#[test]
fn connect_request_keeps_credentials_out_of_the_uri() {
    let (uri, creds, _) = ConnectRequest::new("smb://h/s")
        .with_credentials("alice", "hunter2")
        .into_parts();
    assert_eq!(uri, "smb://h/s");
    assert!(!uri.contains("hunter2"));
    assert_eq!(creds.username.as_deref(), Some("alice"));
    assert_eq!(creds.password.as_deref(), Some("hunter2"));
}

#[test]
fn a_domain_is_carried_along() {
    let (_, creds, _) = ConnectRequest::new("smb://h/s").with_domain("W").into_parts();
    assert_eq!(creds.domain.as_deref(), Some("W"));
    assert_eq!(creds.username, None);
}

#[test]
fn a_byte_range_reports_its_length() {
    let r = ByteRange::new(100, vec![0u8; 7]);
    assert_eq!(r.offset, 100);
    assert_eq!(r.len(), 7);
    assert!(!r.is_empty());

    let empty = ByteRange::new(100, Vec::new());
    assert!(empty.is_empty(), "an empty read means end-of-file");
}

#[test]
fn times_are_counted_in_whole_milliseconds() {
    assert_eq!(to_millis(Some(Timestamp { secs: 0, nanos: 0 })), Some(0));
    assert_eq!(to_millis(Some(Timestamp { secs: 1, nanos: 1_999_999 })), Some(1001));
    assert_eq!(to_millis(Some(Timestamp { secs: i64::MAX, nanos: 0 })), None);
    let last = (u64::MAX / 1000) as i64;
    assert_eq!(
        to_millis(Some(Timestamp { secs: last, nanos: 615_000_000 })),
        Some(u64::MAX)
    );
    assert_eq!(to_millis(Some(Timestamp { secs: last, nanos: 616_000_000 })), None);
}

#[test]
fn capabilities_cross_the_boundary_unchanged() {
    let c = Capabilities::from(capabilities::Capabilities::minimal());
    let m = capabilities::Capabilities::minimal();
    assert_eq!(c.random_read, m.random_read);
    assert_eq!(c.random_write, m.random_write);
    assert_eq!(c.atomic_rename, m.atomic_rename);
    assert_eq!(c.durable_flush, m.durable_flush);
}

#[test]
fn a_closed_session_refuses_further_work() {
    let mut session = Session::new("file:///x");
    assert!(!session.is_closed());
    assert_eq!(session.endpoint(), "file:///x");
    assert_eq!(session.enter("/a//b").unwrap().as_str(), "/a/b");
    assert!(session.ensure_open().is_ok());

    assert!(session.close(), "the first close has a backend to shut down");
    assert!(!session.close(), "closing twice must be harmless");
    assert!(session.is_closed());

    match session.enter("/") {
        Err(KernelError::ConnectionLost { .. }) => {}
        other => panic!("expected ConnectionLost, got {other:?}"),
    }
    assert!(matches!(session.enter_pair("/a", "/b"), Err(KernelError::ConnectionLost { .. })));
    assert_eq!(
        already_closed("session").to_string(),
        "connection lost: this session has already been closed"
    );
}

#[test]
fn paths_that_escape_the_root_are_rejected_at_the_boundary() {
    let session = Session::new("file:///x");
    match session.enter("/../../etc") {
        Err(KernelError::InvalidPath { .. }) => {}
        other => panic!("expected InvalidPath, got {other:?}"),
    }
    assert!(session.enter_pair("/a", "/..").is_err());
    assert!(session.enter_pair("/..", "/a").is_err());
    let (from, to) = session.enter_pair("/a", "b").unwrap();
    assert_eq!((from.as_str(), to.as_str()), ("/a", "/b"));
    assert_eq!(Session::path("x").unwrap().as_str(), "/x");
}

/// A file in memory that hands over at most `burst` bytes at once.
struct Memory {
    data: Vec<u8>,
    burst: usize,
}

impl FileHandle for Memory {
    fn read_at(&mut self, offset: u64, buf: &mut [u8]) -> Result<usize> {
        let start = (offset as usize).min(self.data.len());
        let n = (self.data.len() - start).min(buf.len()).min(self.burst);
        buf[..n].copy_from_slice(&self.data[start..start + n]);
        Ok(n)
    }

    fn write_at(&mut self, offset: u64, buf: &[u8]) -> Result<usize> {
        let end = offset as usize + buf.len();
        if self.data.len() < end {
            self.data.resize(end, 0);
        }
        self.data[offset as usize..end].copy_from_slice(buf);
        Ok(buf.len())
    }

    fn set_len(&mut self, len: u64) -> Result<()> {
        self.data.resize(len as usize, 0);
        Ok(())
    }

    fn flush(&mut self) -> Result<()> {
        Ok(())
    }

    fn close(&mut self) -> Result<()> {
        Ok(())
    }

    fn len(&self) -> u64 {
        self.data.len() as u64
    }
}

#[test]
fn reading_past_the_end_yields_an_empty_range_not_an_error() {
    let mut handle = Memory { data: b"abc".to_vec(), burst: 100 };
    let file = RemoteFile::new("/small", 3);

    let r = file.read_at(&mut handle, 3, 16).expect("read at eof");
    assert!(r.is_empty(), "end-of-file is a short read, not an error");
    assert_eq!(r.offset, 3);

    let r = file.read_at(&mut handle, 9999, 16).expect("read past eof");
    assert!(r.is_empty());
}

#[test]
fn read_exact_fails_rather_than_returning_a_short_read() {
    let mut handle = Memory { data: b"abc".to_vec(), burst: 100 };
    let file = RemoteFile::new("/small", 3);
    let err = file.read_exact_at(&mut handle, 0, 16);
    assert!(err.is_err(), "expected a failure, got {err:?}");
    assert_eq!(file.read_exact_at(&mut handle, 1, 2).unwrap().data, b"bc");
}

#[test]
fn a_short_answer_does_not_cut_a_read_off() {
    let data: Vec<u8> = (0..200_000u32).map(|i| (i % 251) as u8).collect();
    let mut handle = Memory { data: data.clone(), burst: 1000 };
    let file = RemoteFile::new("/x.bin", data.len() as u64);
    let r = file.read_at(&mut handle, 0, data.len() as u32 + 10).unwrap();
    assert_eq!(r.data, data);
    assert_eq!(file.read_exact_at(&mut handle, 5, 9000).unwrap().data, data[5..9005]);
}

#[test]
fn a_closed_file_refuses_further_work() {
    let mut handle = Memory { data: b"abc".to_vec(), burst: 100 };
    let mut file = RemoteFile::new("/f", 3);
    assert!(file.ensure_open().is_ok());
    assert!(file.close());
    assert!(!file.close(), "close again");
    assert!(file.is_closed());

    match file.read_at(&mut handle, 0, 3) {
        Err(KernelError::ConnectionLost { .. }) => {}
        other => panic!("expected ConnectionLost, got {other:?}"),
    }
    assert!(matches!(
        file.read_exact_at(&mut handle, 0, 3),
        Err(KernelError::ConnectionLost { .. })
    ));
}

/// A handle that counts its reads and fails every one.
struct Failing {
    reads: usize,
}

impl FileHandle for Failing {
    fn read_at(&mut self, _offset: u64, _buf: &mut [u8]) -> Result<usize> {
        self.reads += 1;
        Err(Error::not_found("/gone"))
    }

    fn write_at(&mut self, _offset: u64, _buf: &[u8]) -> Result<usize> {
        Err(Error::backend("no"))
    }

    fn set_len(&mut self, _len: u64) -> Result<()> {
        Err(Error::backend("no"))
    }

    fn flush(&mut self) -> Result<()> {
        Ok(())
    }

    fn close(&mut self) -> Result<()> {
        Ok(())
    }

    fn len(&self) -> u64 {
        3
    }
}

#[test]
fn a_read_fails_only_after_asking_and_a_closed_file_asks_nothing() {
    let mut handle = Failing { reads: 0 };
    let mut file = RemoteFile::new("/f", 3);
    match file.read_at(&mut handle, 0, 3) {
        Err(KernelError::NotFound { path }) => assert_eq!(path, "/gone"),
        other => panic!("got {other:?}"),
    }
    match file.read_exact_at(&mut handle, 0, 3) {
        Err(KernelError::NotFound { path }) => assert_eq!(path, "/gone"),
        other => panic!("got {other:?}"),
    }
    assert_eq!(handle.reads, 2);
    assert!(file.read_at(&mut handle, 0, 0).unwrap().is_empty());
    assert!(file.read_exact_at(&mut handle, 7, 0).unwrap().is_empty());
    assert_eq!(handle.reads, 2, "an empty range asks for nothing");

    file.close();
    assert!(file.read_at(&mut handle, 0, 3).is_err());
    assert!(file.read_exact_at(&mut handle, 0, 3).is_err());
    assert_eq!(handle.reads, 2, "a closed file leaves the handle alone");
}

#[test]
fn a_file_knows_what_it_was_opened_with() {
    let file = RemoteFile::new("/f", 3);
    assert_eq!(file.path(), "/f");
    assert_eq!(file.len(), 3);
    assert!(!file.is_empty());
    assert!(RemoteFile::new("/g", 0).is_empty());
}

#[test]
fn the_known_length_follows_writes_and_resizes() {
    let mut file = RemoteFile::new("/f", 3);
    file.wrote(1, 2);
    assert_eq!(file.len(), 3, "inside the file");
    file.wrote(2, 5);
    assert_eq!(file.len(), 7);
    file.resized(1);
    assert_eq!(file.len(), 1);
}
