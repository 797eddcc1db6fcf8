use krystallos::backend::OpenMode;
use krystallos::cli::command::{CommandAction, CommandRun};
use krystallos::cli::transfer::{
    check_readable, finish, upload_mode, Download, Upload, UploadAction, UploadEvent, CHUNK,
    DEFAULT_CHUNK,
};
use krystallos::entry::Metadata;
use krystallos::error::Error;
use krystallos::path::VfsPath;

/// Downloads `file` from a source that hands over at most `burst` bytes at once.
fn download(file: &[u8], mut state: Download, burst: usize) -> Vec<u8> {
    let mut out = Vec::new();
    while let Some(offset) = state.next() {
        let from = (offset as usize).min(file.len());
        let n = (file.len() - from).min(burst);
        out.extend_from_slice(&file[from..from + n]);
        state.took(n);
    }
    assert_eq!(state.moved() as usize, out.len());
    out
}

/// Uploads `file`, with at most `read` bytes per local read and `write` bytes
/// per remote write.
fn upload(file: &[u8], chunk: usize, read: usize, write: usize) -> Result<Vec<u8>, Error> {
    let mut state = Upload::new(chunk);
    let mut buffer = vec![0u8; chunk];
    let mut taken = 0;
    let mut remote = Vec::new();
    let mut flushed = false;
    loop {
        let event = match state.action() {
            UploadAction::Read { from, len } => {
                let n = (file.len() - taken).min(len).min(read);
                buffer[from..from + n].copy_from_slice(&file[taken..taken + n]);
                taken += n;
                UploadEvent::Count(n)
            }
            UploadAction::Write { from, to, offset } => {
                let n = (to - from).min(write);
                assert_eq!(offset as usize, remote.len());
                remote.extend_from_slice(&buffer[from..from + n]);
                UploadEvent::Count(n)
            }
            UploadAction::Flush => {
                flushed = true;
                UploadEvent::Done
            }
            UploadAction::Close => {
                assert!(flushed, "what is closed unflushed may be lost");
                UploadEvent::Done
            }
            UploadAction::Finish => {
                assert_eq!(state.moved() as usize, file.len());
                return Ok(remote);
            }
        };
        state = state.step(event)?;
    }
}

#[test]
fn a_download_delivers_the_file() {
    let file: Vec<u8> = (0..10_000u32).map(|i| (i % 251) as u8).collect();
    for burst in [1, 7, 4096, 20_000] {
        assert_eq!(download(&file, Download::to_the_end(), burst), file);
    }
    assert_eq!(download(&[], Download::to_the_end(), 5), []);
}

#[test]
fn only_an_empty_read_ends_a_download() {
    let mut state = Download::to_the_end();
    assert_eq!(state.next(), Some(0));
    state.took(3);
    assert_eq!(state.next(), Some(3));
    state.took(1);
    assert_eq!(state.next(), Some(4));
    state.took(0);
    assert_eq!(state.next(), None);
    assert_eq!(state.moved(), 4);
}

#[test]
fn an_upload_is_faithful_whatever_the_pieces() {
    let file: Vec<u8> = (0..10_000u32).map(|i| (i % 251) as u8).collect();
    for (chunk, read, write) in [(4096, 4096, 4096), (4096, 1000, 17), (1, 1, 1), (65536, 5, 65536)]
    {
        assert_eq!(upload(&file, chunk, read, write).unwrap(), file);
    }
    assert_eq!(upload(&[], 10, 10, 10).unwrap(), []);
}

#[test]
fn an_upload_discards_what_was_there() {
    let mode = upload_mode();
    assert_eq!(mode, OpenMode::write().with_truncate());
    assert!(mode.truncates() && mode.creates() && !mode.must_not_exist() && !mode.is_read());
}

fn command(results: [Result<(), Error>; 3]) -> (Vec<CommandAction>, Result<(), Error>) {
    let mut run = CommandRun::new();
    let mut actions = Vec::new();
    for result in results {
        if run.action() == CommandAction::Finish {
            break;
        }
        actions.push(run.action());
        run = run.step(result);
    }
    assert_eq!(run.action(), CommandAction::Finish);
    (actions, run.outcome().unwrap())
}

#[test]
fn what_was_connected_is_shut_down_once() {
    let all = [CommandAction::Connect, CommandAction::Work, CommandAction::Shutdown];
    let (actions, outcome) = command([Ok(()), Ok(()), Ok(())]);
    assert_eq!(actions, all);
    assert!(outcome.is_ok());

    let (actions, outcome) = command([Ok(()), Err(Error::not_found("/a")), Ok(())]);
    assert_eq!(actions, all, "a failure is no reason to leave the backend up");
    assert!(matches!(outcome, Err(Error::NotFound { .. })));

    let (actions, outcome) =
        command([Ok(()), Err(Error::not_found("/a")), Err(Error::backend("b"))]);
    assert_eq!(actions, all);
    assert!(matches!(outcome, Err(Error::NotFound { .. })));

    let (actions, outcome) = command([Ok(()), Ok(()), Err(Error::backend("b"))]);
    assert_eq!(actions, all);
    assert!(matches!(outcome, Err(Error::Backend { .. })));

    let (actions, outcome) = command([Err(Error::backend("down")), Ok(()), Ok(())]);
    assert_eq!(actions, [CommandAction::Connect]);
    assert!(matches!(outcome, Err(Error::Backend { .. })));
    assert!(CommandRun::new().outcome().is_none());
}

#[test]
fn a_write_that_makes_no_progress_is_an_error() {
    match upload(b"abc", 10, 10, 0) {
        Err(Error::Backend { message }) => assert!(!message.is_empty()),
        other => panic!("got {other:?}"),
    }
}

#[test]
fn a_directory_cannot_be_read() {
    let path = VfsPath::new("/a").unwrap();
    assert!(check_readable(&path, &Metadata::file(1)).is_ok());
    match check_readable(&path, &Metadata::directory()) {
        Err(Error::IsADirectory { path }) => assert_eq!(path, "/a"),
        other => panic!("got {other:?}"),
    }
}

#[test]
fn the_first_failure_is_the_one_that_is_reported() {
    assert!(finish(Ok(()), Ok(())).is_ok());
    assert!(matches!(
        finish(Err(Error::backend("a")), Err(Error::not_found("b"))),
        Err(Error::Backend { .. })
    ));
    assert!(matches!(finish(Err(Error::backend("a")), Ok(())), Err(Error::Backend { .. })));
    assert!(matches!(
        finish(Ok(()), Err(Error::not_found("b"))),
        Err(Error::NotFound { .. })
    ));
}

#[test]
fn the_chunk_sizes_are_what_they_are_said_to_be() {
    assert_eq!(CHUNK, 1024 * 1024);
    assert_eq!(DEFAULT_CHUNK, 65536);
}
