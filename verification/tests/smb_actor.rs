use krystallos::backend::OpenMode;
use krystallos::entry::EntryKind;
use krystallos::error::Error;
use krystallos::path::VfsPath;
use krystallos::smb::actor::{
    list_entries, metadata_from_stat, open_flags, open_flags_with, timestamp, Actor, Answer, Call,
    OpenBits, RawEntry, Reply, Request, Step,
};
use krystallos::smb::copy::{
    control_code, destination_mode, is_copy_unsupported, source_mode, CopyAction, CopyEvent,
    CopyFile,
};
use krystallos::smb::error::{Errnos, Failure};
use krystallos::smb::ffi::{
    smb2_srv_copychunk, smb2_srv_copychunk_reply, smb2_stat_64, SMB2_FILE_ATTRIBUTE_DIRECTORY,
    SMB2_FILE_ATTRIBUTE_READONLY, SMB2_STATUS_CTL_FILE_NOT_SUPPORTED,
    SMB2_STATUS_INVALID_DEVICE_REQUEST, SMB2_STATUS_INVALID_PARAMETER, SMB2_STATUS_NOT_SUPPORTED,
    SMB2_TYPE_BLOCKDEV, SMB2_TYPE_CHARDEV, SMB2_TYPE_DIRECTORY, SMB2_TYPE_FIFO, SMB2_TYPE_FILE,
    SMB2_TYPE_LINK, SMB2_TYPE_SOCKET,
};
use krystallos::smb::file::{RemoteFile, Transfer};
use krystallos::smb::files::{handle_of, OpenFiles};
use krystallos::smb::status;

fn p(s: &str) -> VfsPath {
    VfsPath::new(s).unwrap()
}

#[test]
fn timestamps_treat_zero_as_absent() {
    assert!(timestamp(0, 0).is_none());
    assert!(timestamp(0, 123).is_none());
}

#[test]
fn timestamps_round_trip_a_real_value() {
    let t = timestamp(1_700_000_000, 500).expect("should be Some");
    assert_eq!(t.secs, 1_700_000_000);
    assert_eq!(t.nanos, 500);
}

#[test]
fn an_out_of_range_nanosecond_field_falls_back_rather_than_panicking() {
    let t = timestamp(1_700_000_000, 5_000_000_000).expect("should still be Some");
    assert_eq!(t.secs, 1_700_000_000);
    assert_eq!(t.nanos, 0);
    assert_eq!(timestamp(1, 999_999_999).unwrap().nanos, 999_999_999);
    assert_eq!(timestamp(1, 1_000_000_000).unwrap().nanos, 0);
}

#[test]
fn kind_maps_every_smb2_type() {
    let mut st = smb2_stat_64::default();

    st.smb2_type = SMB2_TYPE_DIRECTORY;
    assert_eq!(metadata_from_stat(&st).kind, EntryKind::Directory);
    st.smb2_type = SMB2_TYPE_FILE;
    assert_eq!(metadata_from_stat(&st).kind, EntryKind::File);
    st.smb2_type = SMB2_TYPE_LINK;
    assert_eq!(metadata_from_stat(&st).kind, EntryKind::Symlink);
    for exotic in [
        SMB2_TYPE_FIFO,
        SMB2_TYPE_CHARDEV,
        SMB2_TYPE_BLOCKDEV,
        SMB2_TYPE_SOCKET,
        9999,
    ] {
        st.smb2_type = exotic;
        assert_eq!(metadata_from_stat(&st).kind, EntryKind::Other);
    }
}

#[test]
fn size_and_read_only_come_across() {
    let mut st = smb2_stat_64::default();
    st.smb2_type = SMB2_TYPE_FILE;
    st.smb2_size = 4_294_967_296;
    assert_eq!(metadata_from_stat(&st).len, 4_294_967_296);
    assert!(!metadata_from_stat(&st).read_only);

    st.smb2_attributes = SMB2_FILE_ATTRIBUTE_READONLY;
    assert!(metadata_from_stat(&st).read_only);

    st.smb2_attributes = SMB2_FILE_ATTRIBUTE_DIRECTORY;
    assert!(!metadata_from_stat(&st).read_only);
}

#[test]
fn open_flags_select_the_right_access_mode() {
    assert_eq!(open_flags(OpenMode::read()), libc::O_RDONLY);

    let write = open_flags(OpenMode::write());
    assert_eq!(write & 0b11, libc::O_WRONLY, "write mode must not request read");
    assert_ne!(write & libc::O_CREAT, 0);

    let rw = open_flags(OpenMode::read_write());
    assert_eq!(rw & 0b11, libc::O_RDWR);
}

#[test]
fn exclusive_creation_sets_the_exclusive_flag() {
    let flags = open_flags(OpenMode::create_new());
    assert_ne!(flags & libc::O_CREAT, 0);
    assert_ne!(flags & libc::O_EXCL, 0);
    assert_eq!(flags & libc::O_TRUNC, 0, "create_new must not truncate");
}

#[test]
fn truncation_is_only_requested_when_asked_for() {
    assert_eq!(open_flags(OpenMode::read_write()) & libc::O_TRUNC, 0);
    assert_ne!(open_flags(OpenMode::read_write().with_truncate()) & libc::O_TRUNC, 0);
}

#[test]
fn flags_are_made_of_the_given_bits() {
    let bits = OpenBits { rdonly: 0, wronly: 1, rdwr: 2, creat: 4, excl: 8, trunc: 16 };
    assert_eq!(open_flags_with(&bits, OpenMode::read()), 0);
    assert_eq!(open_flags_with(&bits, OpenMode::write()), 5);
    assert_eq!(open_flags_with(&bits, OpenMode::read_write()), 6);
    assert_eq!(open_flags_with(&bits, OpenMode::read_write().with_truncate()), 22);
    assert_eq!(open_flags_with(&bits, OpenMode::create_new()) & 8, 8);
}

#[test]
fn the_handle_table_hands_out_distinct_ids() {
    let mut files: OpenFiles<usize> = OpenFiles::new();
    let a = files.insert(0);
    let b = files.insert(0);
    assert_ne!(a, b);
    assert!(files.get(a).is_some());
    assert!(files.take(a).is_some());
    assert!(files.get(a).is_none(), "a taken handle must be gone");
    assert!(files.get(b).is_some(), "taking one must not disturb another");
    assert!(files.has_room());
    let c = files.insert(9);
    assert!(c != a && c != b);
    let mut rest = files.close_all();
    rest.sort();
    assert_eq!(rest, [(b, 0), (c, 9)]);
    assert!(files.get(b).is_none());
}

#[test]
fn a_server_that_cannot_copy_server_side_is_recognised() {
    for status in [
        SMB2_STATUS_NOT_SUPPORTED,
        SMB2_STATUS_INVALID_DEVICE_REQUEST,
        SMB2_STATUS_CTL_FILE_NOT_SUPPORTED,
    ] {
        assert!(is_copy_unsupported(status), "{status:#x} should fall back");
    }
}

#[test]
fn other_failures_do_not_fall_back() {
    for status in [
        SMB2_STATUS_INVALID_PARAMETER,
        0xC000_0034,
        0xDEAD_BEEF,
    ] {
        assert!(!is_copy_unsupported(status), "{status:#x} should not fall back");
    }
}

#[test]
fn a_stale_handle_is_an_error_not_a_crash() {
    let files: OpenFiles<usize> = OpenFiles::new();
    match handle_of(&files, 42, "read") {
        Err(Error::Backend { message }) => assert!(message.contains("not open")),
        other => panic!("expected a clear error, got {other:?}"),
    }
}

#[test]
fn an_explicit_close_is_not_repeated_by_drop() {
    let mut file = RemoteFile::new(3, 0, p("/a.mkv"), 65536, 65536);
    assert_eq!(file.id(), 3);
    assert!(file.close(), "the first close releases the handle");
    assert!(!file.close(), "close then drop must close once");
}

#[test]
fn dropping_a_file_outside_any_runtime_still_closes_it() {
    let mut file = RemoteFile::new(7, 0, p("/a.mkv"), 65536, 65536);
    assert_eq!(file.id(), 7);
    assert!(file.close(), "a file that was never closed is closed when it goes");
    assert!(!file.close(), "exactly one close per file");
}

#[test]
fn transfers_stay_within_what_was_negotiated() {
    let mut file = RemoteFile::new(1, 10, p("/a"), 100, 40);
    assert!(matches!(file.plan_read(0), Ok(Transfer::Nothing)));
    assert!(matches!(file.plan_read(99), Ok(Transfer::Request { len: 99 })));
    assert!(matches!(file.plan_read(1000), Ok(Transfer::Request { len: 100 })));
    assert!(matches!(file.plan_write(1000), Ok(Transfer::Request { len: 40 })));
    let mut buf = [0u8; 4];
    assert_eq!(RemoteFile::deliver(&vec![1, 2], &mut buf), 2);
    assert_eq!(buf, [1, 2, 0, 0]);
    assert_eq!(RemoteFile::deliver(&vec![1, 2, 3, 4, 5], &mut buf), 4);
    file.wrote(8, 5);
    assert_eq!(file.len(), 13);
    file.resized(2);
    assert_eq!(file.len(), 2);
    assert!(file.check_open().is_ok());
    file.close();
    assert!(file.check_open().is_err());
    assert!(file.plan_read(1).is_err());
    assert!(file.plan_write(1).is_err());
}

fn raw(name: &str, size: u64) -> RawEntry {
    let mut st = smb2_stat_64::default();
    st.smb2_size = size;
    RawEntry { name: name.to_string(), st }
}

#[test]
fn listings_hold_neither_self_nor_parent() {
    let entries = list_entries(vec![raw("b", 2), raw(".", 0), raw("..", 0), raw("a", 1), raw("...", 3)]);
    let names: Vec<&str> = entries.iter().map(|e| e.name.as_str()).collect();
    assert_eq!(names, ["...", "a", "b"]);
    assert_eq!(entries[1].metadata.len, 1);
}

fn failure(nterror: u32, rc: i32, message: &str) -> Failure {
    Failure { nterror, known_name: None, rc, message: message.to_string() }
}

#[test]
fn a_file_is_opened_read_and_closed() {
    let mut actor: Actor<u32> = Actor::new();
    assert!(actor.has_room());
    let call = match actor.receive(Request::Open { path: p("/a/b"), mode: OpenMode::read() }) {
        Step::Call(call) => call,
        Step::Reply(_) => panic!("expected a call"),
    };
    match &call {
        Call::Open { path, flags, label } => {
            assert_eq!(path, "a/b");
            assert_eq!(*flags, libc::O_RDONLY);
            assert_eq!(label, "/a/b");
        }
        _ => panic!("expected an open"),
    }
    let id = match actor.finish(&call, Answer::Opened { handle: 77, size: Some(5) }) {
        Reply::Opened(Ok((id, size))) => {
            assert_eq!(size, 5);
            id
        }
        _ => panic!("expected an id"),
    };

    let call = match actor.receive(Request::ReadAt { id, offset: 3, len: 9 }) {
        Step::Call(call) => call,
        Step::Reply(_) => panic!("expected a call"),
    };
    assert!(matches!(call, Call::Read { handle: 77, offset: 3, len: 9 }));
    match actor.finish(&call, Answer::Bytes(vec![1, 2])) {
        Reply::Bytes(Ok(data)) => assert_eq!(data, [1, 2]),
        _ => panic!("expected bytes"),
    }

    let call = match actor.receive(Request::Close { id }) {
        Step::Call(call) => call,
        Step::Reply(_) => panic!("expected a call"),
    };
    assert!(matches!(call, Call::Close { handle: 77, .. }));
    assert!(matches!(actor.finish(&call, Answer::Done), Reply::Done(Ok(()))));
    assert!(
        matches!(actor.receive(Request::Close { id }), Step::Reply(Reply::Done(Ok(())))),
        "closing twice is harmless"
    );
    assert!(matches!(
        actor.receive(Request::ReadAt { id, offset: 0, len: 1 }),
        Step::Reply(Reply::Bytes(Err(Error::Backend { .. })))
    ));
    assert!(actor.stop().is_empty());
}

#[test]
fn what_is_left_open_is_handed_back_at_the_end() {
    let mut actor: Actor<u32> = Actor::new();
    for handle in [5, 6] {
        match actor.receive(Request::Open { path: p("/x"), mode: OpenMode::write() }) {
            Step::Call(call) => {
                assert!(matches!(
                    actor.finish(&call, Answer::Opened { handle, size: None }),
                    Reply::Opened(Ok((_, 0)))
                ));
            }
            Step::Reply(_) => panic!("expected a call"),
        }
    }
    assert!(actor.is_running());
    assert!(matches!(actor.receive(Request::Shutdown), Step::Reply(Reply::Stopped)));
    assert!(!actor.is_running());
    let mut handles: Vec<u32> = actor.stop().into_iter().map(|(_, h)| h).collect();
    handles.sort();
    assert_eq!(handles, [5, 6]);
}

#[test]
fn nothing_runs_after_a_shutdown() {
    let mut actor: Actor<u32> = Actor::new();
    actor.receive(Request::Shutdown);
    assert!(matches!(
        actor.receive(Request::Stat { path: p("/") }),
        Step::Reply(Reply::Metadata(Err(Error::ConnectionLost { .. })))
    ));
    assert!(matches!(
        actor.receive(Request::List { path: p("/") }),
        Step::Reply(Reply::Entries(Err(Error::ConnectionLost { .. })))
    ));
    assert!(matches!(
        actor.receive(Request::Copy { from: p("/a"), to: p("/b") }),
        Step::Reply(Reply::Copied(Err(Error::ConnectionLost { .. })))
    ));
    assert!(matches!(
        actor.receive(Request::Open { path: p("/a"), mode: OpenMode::read() }),
        Step::Reply(Reply::Opened(Err(Error::ConnectionLost { .. })))
    ));
    assert!(matches!(
        actor.receive(Request::ReadAt { id: 1, offset: 0, len: 1 }),
        Step::Reply(Reply::Bytes(Err(Error::ConnectionLost { .. })))
    ));
    assert!(matches!(
        actor.receive(Request::WriteAt { id: 1, offset: 0, data: vec![1] }),
        Step::Reply(Reply::Written(Err(Error::ConnectionLost { .. })))
    ));
    for request in [Request::Close { id: 1 }, Request::Flush { id: 1 }, Request::Shutdown] {
        assert!(matches!(
            actor.receive(request),
            Step::Reply(Reply::Done(Err(Error::ConnectionLost { .. })))
        ));
    }

    let mut actor: Actor<u32> = Actor::new();
    actor.stop();
    assert!(!actor.is_running());
}

#[test]
fn every_request_is_answered_in_kind() {
    let mut actor: Actor<u32> = Actor::new();
    let mut run = |request: Request, answer: Answer<u32>| match actor.receive(request) {
        Step::Call(call) => actor.finish(&call, answer),
        Step::Reply(reply) => reply,
    };
    assert!(matches!(
        run(Request::List { path: p("/d") }, Answer::Entries(vec![raw("a", 1)])),
        Reply::Entries(Ok(entries)) if entries.len() == 1
    ));
    assert!(matches!(
        run(Request::Stat { path: p("/d") }, Answer::Stat(smb2_stat_64::default())),
        Reply::Metadata(Ok(_))
    ));
    assert!(matches!(run(Request::Mkdir { path: p("/d") }, Answer::Done), Reply::Done(Ok(()))));
    assert!(matches!(
        run(Request::RemoveFile { path: p("/d") }, Answer::Done),
        Reply::Done(Ok(()))
    ));
    assert!(matches!(
        run(Request::RemoveDir { path: p("/d") }, Answer::Done),
        Reply::Done(Ok(()))
    ));
    assert!(matches!(
        run(Request::Rename { from: p("/d"), to: p("/e") }, Answer::Done),
        Reply::Done(Ok(()))
    ));
    assert!(matches!(
        run(Request::Copy { from: p("/d"), to: p("/e") }, Answer::Copied(Ok(4))),
        Reply::Copied(Ok(4))
    ));
    match run(
        Request::Mkdir { path: p("/d") },
        Answer::Failed(failure(status::OBJECT_NAME_COLLISION, -1, "x")),
    ) {
        Reply::Done(Err(Error::AlreadyExists { path })) => assert_eq!(path, "/d"),
        _ => panic!("expected a classified failure"),
    }
    assert!(matches!(
        run(Request::Stat { path: p("/a\0") }, Answer::Done),
        Reply::Metadata(Err(Error::InvalidPath { .. }))
    ));
    assert!(matches!(
        run(Request::Flush { id: 12 }, Answer::Done),
        Reply::Done(Err(Error::Backend { .. }))
    ));
    assert!(matches!(
        run(Request::WriteAt { id: 12, offset: 0, data: vec![1] }, Answer::Done),
        Reply::Written(Err(Error::Backend { .. }))
    ));
    assert!(matches!(
        run(Request::SetLen { id: 12, len: 0 }, Answer::Done),
        Reply::Done(Err(Error::Backend { .. }))
    ));
}

fn table() -> Errnos {
    Errnos {
        enoent: 2,
        eacces: 13,
        einval: 22,
        enotdir: 20,
        eisdir: 21,
        enotempty: 39,
        econnrefused: 111,
        eperm: 1,
    }
}

fn nothing() -> smb2_srv_copychunk_reply {
    smb2_srv_copychunk_reply { chunks_written: 0, chunk_bytes_written: 0, total_bytes_written: 0 }
}

/// How a server takes server-side copies.
enum Server {
    /// It copies, up to so many bytes at a time.
    Copies { most: u32 },
    /// It has no such thing.
    Unsupported,
    /// It refuses for another reason.
    Refuses,
}

/// Copies `source` on a made-up server; what came of it, and the destination.
fn run_copy(source: &[u8], server: Server, burst: usize) -> (Result<u64, Error>, Option<Vec<u8>>) {
    let mut copy = CopyFile::new(&p("/from"), &p("/to"), table()).unwrap();
    assert_eq!((copy.source(), copy.destination()), ("from", "to"));
    let mut dest: Option<Vec<u8>> = None;
    let mut buffer = vec![0u8; 4 * 1024 * 1024];
    let (mut source_open, mut dest_open) = (false, false);
    loop {
        let event = match copy.action() {
            CopyAction::OpenSource => {
                source_open = true;
                CopyEvent::Done
            }
            CopyAction::StatSource => CopyEvent::Size(source.len() as u64),
            CopyAction::CreateDest => {
                dest = Some(Vec::new());
                dest_open = true;
                CopyEvent::Done
            }
            CopyAction::RequestKey => CopyEvent::Done,
            CopyAction::Chunk(chunk) => chunk_on(&server, source, &mut dest, chunk),
            CopyAction::Read { offset, len } => {
                let from = (offset as usize).min(source.len());
                let n = (source.len() - from).min(len as usize).min(burst);
                buffer[..n].copy_from_slice(&source[from..from + n]);
                CopyEvent::Count(n as u32)
            }
            CopyAction::Write { from, len, offset } => {
                let n = (len as usize).min(burst);
                let d = dest.as_mut().unwrap();
                assert_eq!(d.len(), offset as usize);
                d.extend_from_slice(&buffer[from as usize..from as usize + n]);
                CopyEvent::Count(n as u32)
            }
            CopyAction::CloseDest => {
                dest_open = false;
                CopyEvent::Done
            }
            CopyAction::Unlink => {
                assert!(!dest_open);
                dest = None;
                CopyEvent::Done
            }
            CopyAction::CloseSource => {
                source_open = false;
                CopyEvent::Done
            }
            CopyAction::Finish => {
                assert!(!source_open && !dest_open, "nothing stays open");
                return (copy.outcome().unwrap(), dest);
            }
        };
        copy = copy.step(event);
    }
}

fn chunk_on(
    server: &Server,
    source: &[u8],
    dest: &mut Option<Vec<u8>>,
    chunk: smb2_srv_copychunk,
) -> CopyEvent {
    match server {
        Server::Copies { most } if chunk.length > *most => {
            let mut limits = nothing();
            limits.chunk_bytes_written = *most;
            CopyEvent::Refused(limits, failure(SMB2_STATUS_INVALID_PARAMETER, -22, "too much"))
        }
        Server::Copies { .. } => {
            let (from, len) = (chunk.source_offset as usize, chunk.length as usize);
            assert_eq!(chunk.source_offset, chunk.target_offset);
            dest.as_mut().unwrap().extend_from_slice(&source[from..from + len]);
            let mut reply = nothing();
            reply.total_bytes_written = chunk.length;
            CopyEvent::Copied(reply)
        }
        Server::Unsupported => {
            CopyEvent::Refused(nothing(), failure(SMB2_STATUS_NOT_SUPPORTED, -22, "no"))
        }
        Server::Refuses => CopyEvent::Refused(nothing(), failure(status::ACCESS_DENIED, -13, "no")),
    }
}

#[test]
fn a_copy_is_byte_exact_however_the_server_goes_about_it() {
    let source: Vec<u8> = (0..3_000_000u32).map(|i| (i % 251) as u8).collect();
    for server in [
        Server::Copies { most: u32::MAX },
        Server::Copies { most: 65536 },
        Server::Unsupported,
    ] {
        let (outcome, dest) = run_copy(&source, server, 70_000);
        assert_eq!(outcome.unwrap(), source.len() as u64);
        assert!(dest.unwrap() == source);
    }
    let (outcome, dest) = run_copy(&[], Server::Copies { most: 5 }, 10);
    assert_eq!(outcome.unwrap(), 0);
    assert_eq!(dest.unwrap(), []);
}

#[test]
fn a_copy_that_fails_leaves_nothing_behind() {
    let source = vec![7u8; 1000];
    let (outcome, dest) = run_copy(&source, Server::Refuses, 1000);
    assert!(matches!(outcome, Err(Error::PermissionDenied { .. })));
    assert!(dest.is_none());
}

#[test]
fn a_source_without_a_size_is_an_error_and_creates_nothing() {
    let copy = CopyFile::new(&p("/from"), &p("/to"), table()).unwrap();
    let copy = copy.step(CopyEvent::Done);
    assert!(matches!(copy.action(), CopyAction::StatSource));
    let copy = copy.step(CopyEvent::Failed(failure(status::ACCESS_DENIED, -13, "no")));
    assert!(matches!(copy.action(), CopyAction::CloseSource));
    let copy = copy.step(CopyEvent::Done);
    assert!(matches!(copy.action(), CopyAction::Finish));
    match copy.outcome() {
        Some(Err(Error::PermissionDenied { path })) => assert_eq!(path, "/from"),
        other => panic!("got {other:?}"),
    }
}

#[test]
fn a_missing_source_ends_a_copy_before_anything_is_created() {
    let copy = CopyFile::new(&p("/from"), &p("/to"), table()).unwrap();
    let copy = copy.step(CopyEvent::Failed(failure(status::OBJECT_NAME_NOT_FOUND, -2, "no")));
    assert!(matches!(copy.action(), CopyAction::Finish));
    match copy.outcome() {
        Some(Err(Error::NotFound { path })) => assert_eq!(path, "/from"),
        other => panic!("got {other:?}"),
    }
}

#[test]
fn a_server_that_gives_up_half_way_leaves_an_exact_copy() {
    let source: Vec<u8> = (0..5000u32).map(|i| (i % 251) as u8).collect();
    let mut dest = Vec::new();
    let mut buffer = vec![0u8; 5000];
    let mut copy = CopyFile::new(&p("/from"), &p("/to"), table()).unwrap();
    loop {
        let event = match copy.action() {
            CopyAction::StatSource => CopyEvent::Size(5000),
            CopyAction::Chunk(_) if dest.is_empty() => {
                // It copies less than it was asked to.
                dest.extend_from_slice(&source[..2000]);
                let mut reply = nothing();
                reply.total_bytes_written = 2000;
                CopyEvent::Copied(reply)
            }
            CopyAction::Chunk(chunk) => {
                assert_eq!((chunk.target_offset, chunk.length), (2000, 3000));
                CopyEvent::Refused(nothing(), failure(SMB2_STATUS_NOT_SUPPORTED, -22, "no"))
            }
            CopyAction::Read { offset, len } => {
                let n = (len as usize).min(700);
                buffer[..n].copy_from_slice(&source[offset as usize..offset as usize + n]);
                CopyEvent::Count(n as u32)
            }
            CopyAction::Write { from, len, offset } => {
                let (at, from, n) = (offset as usize, from as usize, len as usize);
                if dest.len() < at + n {
                    dest.resize(at + n, 0);
                }
                dest[at..at + n].copy_from_slice(&buffer[from..from + n]);
                CopyEvent::Count(len)
            }
            CopyAction::Finish => break,
            _ => CopyEvent::Done,
        };
        copy = copy.step(event);
    }
    assert_eq!(copy.outcome().unwrap().unwrap(), 5000);
    assert!(dest == source);
}

#[test]
fn a_copy_opens_its_files_as_it_should() {
    assert_eq!(source_mode(), OpenMode::read());
    assert_eq!(destination_mode(), OpenMode::create_new());
    assert!(destination_mode().must_not_exist());
    assert_eq!(control_code(), 0x0014_80F2);
}

#[test]
fn a_copy_refuses_to_overwrite() {
    let copy = CopyFile::new(&p("/from"), &p("/to"), table()).unwrap();
    let copy = copy.step(CopyEvent::Done).step(CopyEvent::Size(4));
    assert!(matches!(copy.action(), CopyAction::CreateDest));
    let copy = copy.step(CopyEvent::Failed(failure(status::OBJECT_NAME_COLLISION, -1, "x")));
    assert!(matches!(copy.action(), CopyAction::CloseSource), "what was there is not touched");
    let copy = copy.step(CopyEvent::Done);
    assert!(matches!(copy.action(), CopyAction::Finish));
    match copy.outcome() {
        Some(Err(Error::AlreadyExists { path })) => assert_eq!(path, "/to"),
        other => panic!("got {other:?}"),
    }
    assert!(CopyFile::new(&p("/a\0"), &p("/b"), table()).is_err());
    assert!(CopyFile::new(&p("/a"), &p("/b\0"), table()).is_err());
}
