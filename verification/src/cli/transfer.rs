//! Moving bytes between a file on a backend and a local one.
//!
//! Both directions are state machines: they say what to ask for next, and take
//! in how much came of it. The caller does the asking.

use vstd::prelude::*;
use crate::backend::{self, OpenMode, OpenModeView};
use crate::entry::Metadata;
use crate::error::{Error, ErrorView};
use crate::path::{self, VfsPath};

verus! {

/// Upload chunk size.
///
/// One mebibyte keeps the round-trip count proportional to the size of the file
/// rather than to whatever buffer the caller happens to pass.
pub const CHUNK: usize = 1024 * 1024;

/// Download chunk size unless another is asked for. Close to how a player reads,
/// and smaller than a read-ahead window: read-ahead only helps a caller that
/// reads less than a window at a time.
pub const DEFAULT_CHUNK: usize = 65536;

/// Report the outcome of the work, preferring it over a shutdown failure: if
/// both failed, the work's error is the one that explains why.
pub fn finish(outcome: Result<(), Error>, shutdown: Result<(), Error>) -> (r: Result<(), Error>)
    ensures
        r == if outcome is Err {
            outcome
        } else {
            shutdown
        },
{
    match outcome {
        Err(e) => Err(e),
        Ok(_) => shutdown,
    }
}

/// Reject a directory before it is opened for reading.
///
/// Without this the failure would come from the backend as whatever its "cannot
/// open a directory" error happens to be.
pub fn check_readable(path: &VfsPath, meta: &Metadata) -> (r: Result<(), Error>)
    ensures
        if meta.kind is Directory {
            r matches Err(e) && e@ == (ErrorView::IsADirectory { path: path::rendered(path@) })
        } else {
            r is Ok
        },
{
    if meta.is_dir() {
        Err(Error::IsADirectory { path: path.to_string() })
    } else {
        Ok(())
    }
}

// ---------------------------------------------------------------------------
// Downloading
// ---------------------------------------------------------------------------

/// A file being read from its start to its end.
///
/// Only a read that gives nothing ends a download. A length that was announced
/// is not asked: it can be out of date either way.
pub struct Download {
    offset: u64,
    ended: bool,
}

/// A [`Download`] as plain values.
#[verifier::ext_equal]
pub struct DownloadView {
    pub offset: u64,
    pub ended: bool,
}

impl View for Download {
    type V = DownloadView;

    closed spec fn view(&self) -> DownloadView {
        DownloadView { offset: self.offset, ended: self.ended }
    }
}

impl DownloadView {
    /// Before the first read.
    pub open spec fn start() -> DownloadView {
        DownloadView { offset: 0, ended: false }
    }

    /// After a read of `n` bytes. None is the end of the file.
    pub open spec fn took(self, n: nat) -> DownloadView {
        DownloadView { offset: (self.offset + n) as u64, ended: n == 0 }
    }
}

impl Download {
    /// Reads on until the end of the file.
    pub fn to_the_end() -> (r: Self)
        ensures
            r@ == DownloadView::start(),
    {
        Download { offset: 0, ended: false }
    }

    /// Where to read next; `None` where the file has ended.
    pub fn next(&self) -> (r: Option<u64>)
        ensures
            r == if self@.ended {
                None
            } else {
                Some(self@.offset)
            },
    {
        if self.ended {
            None
        } else {
            Some(self.offset)
        }
    }

    /// How many bytes have been read.
    pub fn moved(&self) -> (r: u64)
        ensures
            r == self@.offset,
    {
        self.offset
    }

    /// Takes in how many bytes the last read gave.
    pub fn took(&mut self, n: usize)
        requires
            !old(self)@.ended,
            old(self)@.offset + n <= u64::MAX,
        ensures
            final(self)@ == old(self)@.took(n as nat),
    {
        self.offset = self.offset + n as u64;
        self.ended = n == 0;
    }
}

/// A download after it has taken in these reads, in order.
pub open spec fn after_reads(reads: Seq<Seq<u8>>) -> DownloadView
    decreases reads.len(),
{
    if reads.len() == 0 {
        DownloadView::start()
    } else {
        after_reads(reads.drop_last()).took(reads.last().len())
    }
}

/// Whether these reads are what a file of these `contents` gave, one after the
/// other and each where the download asked for it, into a buffer of `chunk`
/// bytes.
pub open spec fn are_reads_of(contents: Seq<u8>, chunk: nat, reads: Seq<Seq<u8>>) -> bool
    decreases reads.len(),
{
    reads.len() > 0 ==> {
        let before = after_reads(reads.drop_last());
        &&& are_reads_of(contents, chunk, reads.drop_last())
        &&& !before.ended
        &&& exists|buf: Seq<u8>|
            {
                &&& buf.len() == chunk
                &&& #[trigger] backend::is_read_of(
                    contents,
                    before.offset as int,
                    buf,
                    reads.last().len() as int,
                )
                &&& reads.last() == buf.take(reads.last().len() as int)
            }
    }
}

/// Reading in order delivers the file from its start, without gaps or repeats.
/// Once the download has ended it has delivered the whole file, and it does end:
/// each read before the last gives at least a byte.
pub proof fn a_download_delivers_the_file(contents: Seq<u8>, chunk: nat, reads: Seq<Seq<u8>>)
    requires
        chunk > 0,
        backend::addressable(contents),
        are_reads_of(contents, chunk, reads),
    ensures
        after_reads(reads).offset <= contents.len(),
        reads.flatten() == contents.take(after_reads(reads).offset as int),
        after_reads(reads).ended ==> reads.flatten() == contents,
        reads.len() <= contents.len() + 1,
        !after_reads(reads).ended ==> reads.len() <= after_reads(reads).offset,
    decreases reads.len(),
{
    reads.lemma_flatten_and_flatten_alt_are_equivalent();
    if reads.len() == 0 {
        assert(reads.flatten_alt() =~= contents.take(0));
    } else {
        let earlier = reads.drop_last();
        a_download_delivers_the_file(contents, chunk, earlier);
        earlier.lemma_flatten_and_flatten_alt_are_equivalent();
        let d = after_reads(earlier);
        let n = reads.last().len() as int;
        let buf = choose|buf: Seq<u8>|
            {
                &&& buf.len() == chunk
                &&& #[trigger] backend::is_read_of(contents, d.offset as int, buf, n)
                &&& reads.last() == buf.take(n)
            };
        let seen = backend::visible(contents, d.offset as int, chunk as int);
        if n > 0 {
            assert forall|i: int| 0 <= i < n implies #[trigger] reads.last()[i]
                == contents[d.offset + i] by {
                assert(buf.take(n)[i] == seen.take(n)[i]);
            }
        }
        assert(earlier.flatten_alt() + reads.last() =~= contents.take(d.offset + n));
        if n == 0 {
            assert(contents.take(d.offset as int) =~= contents);
        }
    }
}

// ---------------------------------------------------------------------------
// Uploading
// ---------------------------------------------------------------------------

/// What the remote file is opened with.
pub open spec fn upload_mode_view() -> OpenModeView {
    OpenModeView { read: false, write: true, create: true, create_new: false, truncate: true }
}

/// How the remote file is opened: created where there is none, and emptied where
/// there is one, so that nothing of it is left behind a shorter file.
pub fn upload_mode() -> (r: OpenMode)
    ensures
        r@ == (OpenModeView {
            read: false,
            write: true,
            create: true,
            create_new: false,
            truncate: true,
        }),
        r@ == upload_mode_view(),
{
    OpenMode::write().with_truncate()
}

/// Where an upload stands.
#[derive(Clone, Copy, PartialEq, Eq, Debug, Structural)]
pub enum UploadState {
    /// The buffer is being filled from the local file.
    Fill { filled: usize },
    /// What was filled is being written.
    Write { filled: usize, written: usize },
    /// Everything is written and has to be flushed.
    Flush,
    /// The remote file has to be closed.
    Close,
    Done,
}

/// What an upload asks for.
#[derive(Clone, Copy, PartialEq, Eq, Debug, Structural)]
pub enum UploadAction {
    /// Read from the local file into the buffer, from `from` on.
    Read { from: usize, len: usize },
    /// Write the bytes `from..to` of the buffer at `offset`.
    Write { from: usize, to: usize, offset: u64 },
    Flush,
    Close,
    Finish,
}

/// What came of it.
#[derive(Clone, Copy, PartialEq, Eq, Debug, Structural)]
pub enum UploadEvent {
    /// So many bytes were read or written.
    Count(usize),
    /// It was flushed or closed.
    Done,
}

/// A local file being written to a backend.
pub struct Upload {
    chunk: usize,
    offset: u64,
    state: UploadState,
}

/// An [`Upload`] as plain values.
#[verifier::ext_equal]
pub struct UploadView {
    pub chunk: usize,
    pub offset: u64,
    pub state: UploadState,
}

impl View for Upload {
    type V = UploadView;

    closed spec fn view(&self) -> UploadView {
        UploadView { chunk: self.chunk, offset: self.offset, state: self.state }
    }
}

/// A backend that accepts nothing of a write would keep an upload going for
/// ever.
pub open spec fn no_progress() -> ErrorView {
    ErrorView::Backend { message: "backend accepted 0 bytes of a write and made no progress"@ }
}

impl UploadView {
    /// Before anything was read.
    pub open spec fn start(chunk: usize) -> UploadView {
        UploadView { chunk, offset: 0, state: UploadState::Fill { filled: 0 } }
    }

    pub open spec fn wf(self) -> bool {
        &&& self.chunk > 0
        &&& match self.state {
            UploadState::Fill { filled } => filled < self.chunk,
            UploadState::Write { filled, written } => written < filled <= self.chunk,
            _ => true,
        }
    }

    /// What a state asks for.
    pub open spec fn action(self) -> UploadAction {
        match self.state {
            UploadState::Fill { filled } => UploadAction::Read {
                from: filled,
                len: (self.chunk - filled) as usize,
            },
            UploadState::Write { filled, written } => UploadAction::Write {
                from: written,
                to: filled,
                offset: self.offset,
            },
            UploadState::Flush => UploadAction::Flush,
            UploadState::Close => UploadAction::Close,
            UploadState::Done => UploadAction::Finish,
        }
    }

    /// Which events make sense in a state. Nothing reads or writes more than it
    /// was asked to, and no file is longer than an offset can say.
    pub open spec fn accepts(self, e: UploadEvent) -> bool {
        match (self.state, e) {
            (UploadState::Fill { filled }, UploadEvent::Count(n)) => n <= self.chunk - filled,
            (UploadState::Write { filled, written }, UploadEvent::Count(n)) => n <= filled - written
                && self.offset + n <= u64::MAX,
            (UploadState::Flush, UploadEvent::Done) => true,
            (UploadState::Close, UploadEvent::Done) => true,
            _ => false,
        }
    }

    /// The state after an event.
    pub open spec fn next(self, e: UploadEvent) -> Result<UploadView, ErrorView> {
        match (self.state, e) {
            (UploadState::Fill { filled }, UploadEvent::Count(n)) => if n == 0 && filled == 0 {
                Ok(UploadView { state: UploadState::Flush, ..self })
            } else if n == 0 || filled + n == self.chunk {
                Ok(
                    UploadView {
                        state: UploadState::Write { filled: (filled + n) as usize, written: 0 },
                        ..self
                    },
                )
            } else {
                Ok(UploadView { state: UploadState::Fill { filled: (filled + n) as usize }, ..self })
            },
            (UploadState::Write { filled, written }, UploadEvent::Count(n)) => if n == 0 {
                Err(no_progress())
            } else if written + n < filled {
                Ok(
                    UploadView {
                        offset: (self.offset + n) as u64,
                        state: UploadState::Write { filled, written: (written + n) as usize },
                        ..self
                    },
                )
            } else {
                Ok(
                    UploadView {
                        offset: (self.offset + n) as u64,
                        state: UploadState::Fill { filled: 0 },
                        ..self
                    },
                )
            },
            (UploadState::Flush, UploadEvent::Done) => Ok(
                UploadView { state: UploadState::Close, ..self },
            ),
            (UploadState::Close, UploadEvent::Done) => Ok(
                UploadView { state: UploadState::Done, ..self },
            ),
            _ => Ok(self),
        }
    }
}

impl Upload {
    /// An upload through a buffer of `chunk` bytes.
    pub fn new(chunk: usize) -> (r: Self)
        requires
            chunk > 0,
        ensures
            r@ == UploadView::start(chunk),
            r@.wf(),
    {
        Upload { chunk, offset: 0, state: UploadState::Fill { filled: 0 } }
    }

    /// What to do next.
    pub fn action(&self) -> (r: UploadAction)
        requires
            self@.wf(),
        ensures
            r == self@.action(),
    {
        match self.state {
            UploadState::Fill { filled } => UploadAction::Read {
                from: filled,
                len: self.chunk - filled,
            },
            UploadState::Write { filled, written } => UploadAction::Write {
                from: written,
                to: filled,
                offset: self.offset,
            },
            UploadState::Flush => UploadAction::Flush,
            UploadState::Close => UploadAction::Close,
            UploadState::Done => UploadAction::Finish,
        }
    }

    /// How many bytes have been written.
    pub fn moved(&self) -> (r: u64)
        ensures
            r == self@.offset,
    {
        self.offset
    }

    /// Takes in what came of the last action.
    pub fn step(self, e: UploadEvent) -> (r: Result<Self, Error>)
        requires
            self@.wf(),
            self@.accepts(e),
        ensures
            match self@.next(e) {
                Ok(v) => r matches Ok(next) && next@ == v && v.wf(),
                Err(v) => r matches Err(error) && error@ == v,
            },
    {
        match (self.state, e) {
            (UploadState::Fill { filled }, UploadEvent::Count(n)) => if n == 0 && filled == 0 {
                Ok(Upload { state: UploadState::Flush, ..self })
            } else if n == 0 || filled + n == self.chunk {
                Ok(Upload { state: UploadState::Write { filled: filled + n, written: 0 }, ..self })
            } else {
                // A local read may be short; go on until the buffer is full or
                // the file ends.
                Ok(Upload { state: UploadState::Fill { filled: filled + n }, ..self })
            },
            (UploadState::Write { filled, written }, UploadEvent::Count(n)) => if n == 0 {
                Err(Error::backend("backend accepted 0 bytes of a write and made no progress"))
            } else if written + n < filled {
                Ok(
                    Upload {
                        offset: self.offset + n as u64,
                        state: UploadState::Write { filled, written: written + n },
                        ..self
                    },
                )
            } else {
                Ok(
                    Upload {
                        offset: self.offset + n as u64,
                        state: UploadState::Fill { filled: 0 },
                        ..self
                    },
                )
            },
            (UploadState::Flush, UploadEvent::Done) => Ok(
                Upload { state: UploadState::Close, ..self },
            ),
            (UploadState::Close, UploadEvent::Done) => Ok(
                Upload { state: UploadState::Done, ..self },
            ),
            _ => Ok(self),
        }
    }
}

/// One event of an upload, with what is at the remote path after it.
pub struct UploadStep {
    pub event: UploadEvent,
    pub remote: Seq<u8>,
}

/// Where an upload through a buffer of `chunk` bytes stands after these steps.
pub open spec fn upload_after(chunk: usize, steps: Seq<UploadStep>) -> Result<UploadView, ErrorView>
    decreases steps.len(),
{
    if steps.len() == 0 {
        Ok(UploadView::start(chunk))
    } else {
        match upload_after(chunk, steps.drop_last()) {
            Ok(v) => v.next(steps.last().event),
            Err(e) => Err(e),
        }
    }
}

/// What is at the remote path after these steps, which the upload opened where
/// `before` was.
pub open spec fn remote_after(before: Option<Seq<u8>>, steps: Seq<UploadStep>) -> Seq<u8> {
    if steps.len() == 0 {
        backend::opened(before, upload_mode_view())->0
    } else {
        steps.last().remote
    }
}

/// Where the bytes in the buffer start in the local file.
pub open spec fn buffer_start(v: UploadView) -> int {
    match v.state {
        UploadState::Write { written, .. } => v.offset - written,
        _ => v.offset as int,
    }
}

/// What the buffer holds: what follows in the local file.
pub open spec fn buffered(v: UploadView, local: Seq<u8>) -> Seq<u8> {
    match v.state {
        UploadState::Fill { filled } | UploadState::Write { filled, .. } => local.subrange(
            buffer_start(v),
            buffer_start(v) + filled,
        ),
        _ => Seq::empty(),
    }
}

/// What an event may do. A local read gives what follows in the file, and nothing
/// only at its end; a write writes so many of the bytes it was given where it was
/// asked to; and nobody else touches either file.
pub open spec fn moves(
    v: UploadView,
    local: Seq<u8>,
    e: UploadEvent,
    remote: Seq<u8>,
    after: Seq<u8>,
) -> bool {
    match (v.action(), e) {
        (UploadAction::Read { from, .. }, UploadEvent::Count(n)) => {
            &&& v.offset + from + n <= local.len()
            &&& n == 0 ==> v.offset + from == local.len()
            &&& after == remote
        },
        (UploadAction::Write { from, to, offset }, UploadEvent::Count(n)) => backend::is_write_of(
            remote,
            after,
            offset as int,
            buffered(v, local).subrange(from as int, from + n),
        ),
        _ => after == remote,
    }
}

/// Whether these steps are an upload of `local` through a buffer of `chunk`
/// bytes, to where `before` was.
pub open spec fn is_upload(
    chunk: usize,
    local: Seq<u8>,
    before: Option<Seq<u8>>,
    steps: Seq<UploadStep>,
) -> bool
    decreases steps.len(),
{
    steps.len() > 0 ==> {
        let earlier = steps.drop_last();
        &&& is_upload(chunk, local, before, earlier)
        &&& upload_after(chunk, earlier) matches Ok(v) && {
            &&& v.accepts(steps.last().event)
            &&& moves(
                v,
                local,
                steps.last().event,
                remote_after(before, earlier),
                steps.last().remote,
            )
        }
    }
}

/// What holds of an upload at every moment: the remote file is the start of the
/// local one, as far as writes were accepted, and the buffer is what follows.
pub open spec fn is_faithful(v: UploadView, local: Seq<u8>, remote: Seq<u8>) -> bool {
    &&& v.wf()
    &&& 0 <= buffer_start(v)
    &&& v.offset <= local.len()
    &&& remote == local.take(v.offset as int)
    &&& match v.state {
        UploadState::Fill { filled } | UploadState::Write { filled, .. } => buffer_start(v) + filled
            <= local.len(),
        _ => v.offset == local.len(),
    }
}

proof fn an_upload_stays_faithful(
    v: UploadView,
    local: Seq<u8>,
    e: UploadEvent,
    remote: Seq<u8>,
    after: Seq<u8>,
)
    requires
        is_faithful(v, local, remote),
        v.accepts(e),
        moves(v, local, e, remote, after),
        v.next(e) is Ok,
    ensures
        is_faithful(v.next(e)->Ok_0, local, after),
{
    if let UploadState::Write { filled, written } = v.state {
        if let UploadEvent::Count(n) = e {
            let at = v.offset as int;
            let data = buffered(v, local).subrange(written as int, written + n);
            assert(data =~= local.subrange(at, at + n));
            assert forall|i: int| 0 <= i < at + n implies #[trigger] after[i] == local[i] by {
                if i < at {
                    assert(after[i] == remote[i]);
                } else {
                    assert(after.subrange(at, at + n)[i - at] == data[i - at]);
                }
            }
            assert(after =~= local.take(at + n));
        }
    }
}

/// Whatever was at the remote path before, an upload discards it and writes the
/// local file from its start, without gaps or repeats:
///
/// - The remote file is at every moment the start of the local one, as far as
///   writes were accepted.
/// - A write is asked for at that very place, with bytes that follow there in
///   the local file, and with at least one.
/// - Once the upload is done the remote file is the local one, and it was flushed
///   and then closed.
pub proof fn an_upload_replaces_the_file(
    chunk: usize,
    local: Seq<u8>,
    before: Option<Seq<u8>>,
    steps: Seq<UploadStep>,
)
    requires
        chunk > 0,
        is_upload(chunk, local, before, steps),
    ensures
        upload_after(chunk, steps) matches Ok(v) ==> {
            let remote = remote_after(before, steps);
            &&& is_faithful(v, local, remote)
            &&& v.action() matches UploadAction::Write { from, to, offset } ==> {
                &&& offset == remote.len()
                &&& from < to
                &&& offset + (to - from) <= local.len()
                &&& buffered(v, local).subrange(from as int, to as int) == local.subrange(
                    offset as int,
                    offset + (to - from),
                )
            }
            &&& v.state is Done ==> {
                &&& remote == local
                &&& v.offset == local.len()
                &&& steps.len() >= 2
                &&& upload_after(chunk, steps.take(steps.len() - 1)) matches Ok(w) && w.state
                    is Close
                &&& upload_after(chunk, steps.take(steps.len() - 2)) matches Ok(w) && w.state
                    is Flush
            }
        },
    decreases steps.len(),
{
    assert(local.take(0) =~= Seq::<u8>::empty());
    if steps.len() > 0 {
        let earlier = steps.drop_last();
        an_upload_replaces_the_file(chunk, local, before, earlier);
        assert(steps.take(steps.len() - 1) =~= earlier);
        let v = upload_after(chunk, earlier)->Ok_0;
        if v.next(steps.last().event) is Ok {
            an_upload_stays_faithful(
                v,
                local,
                steps.last().event,
                remote_after(before, earlier),
                steps.last().remote,
            );
        }
        if v.state is Close {
            assert(earlier.len() > 0);
            assert(is_upload(chunk, local, before, earlier));
            let w = upload_after(chunk, earlier.drop_last())->Ok_0;
            assert(w.accepts(earlier.last().event));
            assert(w.state is Flush);
            assert(steps.take(steps.len() - 2) =~= earlier.drop_last());
        }
    }
    if let Ok(v) = upload_after(chunk, steps) {
        if let UploadState::Write { filled, written } = v.state {
            assert(buffered(v, local).subrange(written as int, filled as int) =~= local.subrange(
                v.offset as int,
                v.offset + (filled - written),
            ));
        }
        if v.state is Done {
            assert(local.take(local.len() as int) =~= local);
        }
    }
}

/// A write of which nothing is accepted ends an upload, with an error.
pub proof fn an_empty_write_is_an_error(v: UploadView)
    requires
        v.state is Write,
    ensures
        v.next(UploadEvent::Count(0)) == Err::<UploadView, ErrorView>(no_progress()),
{
}

impl UploadView {
    /// How much is left to do for a local file of `len` bytes, most significant
    /// first: the stage, the bytes to write, and the room in the buffer.
    pub open spec fn left(self, len: int) -> (int, int, int) {
        match self.state {
            UploadState::Fill { filled } => (3, len - self.offset, self.chunk - filled + 1),
            UploadState::Write { .. } => (3, len - self.offset, 0),
            UploadState::Flush => (2, 0, 0),
            UploadState::Close => (1, 0, 0),
            UploadState::Done => (0, 0, 0),
        }
    }
}

/// Whether less is left in `a` than in `b`.
pub open spec fn less_left(a: (int, int, int), b: (int, int, int)) -> bool {
    ||| a.0 < b.0
    ||| a.0 == b.0 && a.1 < b.1
    ||| a.0 == b.0 && a.1 == b.1 && a.2 < b.2
}

/// Every event brings an upload closer to its end, however little is read or
/// written at a time: no backend can keep it going for ever.
pub proof fn every_event_makes_progress(
    v: UploadView,
    local: Seq<u8>,
    e: UploadEvent,
    remote: Seq<u8>,
    after: Seq<u8>,
)
    requires
        is_faithful(v, local, remote),
        v.accepts(e),
        moves(v, local, e, remote, after),
        v.next(e) is Ok,
    ensures
        less_left(v.next(e)->Ok_0.left(local.len() as int), v.left(local.len() as int)),
        v.next(e)->Ok_0.left(local.len() as int).0 >= 0,
        v.next(e)->Ok_0.left(local.len() as int).1 >= 0,
        v.next(e)->Ok_0.left(local.len() as int).2 >= 0,
{
    an_upload_stays_faithful(v, local, e, remote, after);
}

/// The work's own failure is the one that is reported, and a failed shutdown only
/// where the work succeeded; both have to succeed for a success.
pub proof fn the_first_failure_is_reported(
    outcome: Result<(), Error>,
    shutdown: Result<(), Error>,
    r: Result<(), Error>,
)
    requires
        call_ensures(finish, (outcome, shutdown), r),
    ensures
        outcome is Err ==> r == outcome,
        outcome is Ok ==> r is Ok == shutdown is Ok,
        outcome is Ok && shutdown is Err ==> r == shutdown,
{
}

/// Everything but a directory can be read.
pub proof fn only_a_directory_cannot_be_read(
    path: VfsPath,
    meta: Metadata,
    r: Result<(), Error>,
)
    requires
        call_ensures(check_readable, (&path, &meta), r),
    ensures
        r is Err <==> meta.kind is Directory,
        r matches Err(e) ==> e@ == (ErrorView::IsADirectory { path: path::rendered(path@) }),
{
}

/// An upload empties what it opens: whatever was there before, nothing of it is
/// left, and a missing file is created.
pub proof fn an_upload_starts_from_nothing(mode: OpenMode, before: Option<Seq<u8>>)
    requires
        call_ensures(upload_mode, (), mode),
    ensures
        backend::opened(before, mode@) == Some(Seq::<u8>::empty()),
        mode@.write,
{
}

/// A download asks for the bytes in order: for the first one first, after each read
/// for the one behind it, and for nothing after a read that gave nothing.
pub proof fn a_download_asks_in_order(
    fresh: Download,
    first: Option<u64>,
    d: &mut Download,
    before: Option<u64>,
    n: usize,
    after: Option<u64>,
    moved: u64,
)
    requires
        call_ensures(Download::to_the_end, (), fresh),
        call_ensures(Download::next, (&fresh,), first),
        call_ensures(Download::next, (old(d),), before),
        before is Some,
        before->0 + n <= u64::MAX,
        call_ensures(Download::took, (d, n), ()),
        call_ensures(Download::next, (final(d),), after),
        call_ensures(Download::moved, (final(d),), moved),
    ensures
        first == Some(0u64),
        n > 0 ==> after == Some((before->0 + n) as u64),
        n == 0 ==> after is None,
        moved == before->0 + n,
{
}

/// An upload starts by reading into the whole of its buffer, and then asks for
/// what its state says; what it has moved is where it has got.
pub proof fn an_upload_starts_by_filling_its_buffer(
    chunk: usize,
    u: Upload,
    first: UploadAction,
    moved: u64,
)
    requires
        chunk > 0,
        call_ensures(Upload::new, (chunk,), u),
        call_ensures(Upload::action, (&u,), first),
        call_ensures(Upload::moved, (&u,), moved),
    ensures
        first == (UploadAction::Read { from: 0, len: chunk }),
        moved == 0,
{
}

/// What is filled is written from the front of the buffer, and what was accepted
/// is not written again: the next write starts behind it, in the buffer and in
/// the file.
pub proof fn an_upload_writes_what_is_left(
    u: Upload,
    from: usize,
    to: usize,
    offset: u64,
    n: usize,
    r: Result<Upload, Error>,
    next: UploadAction,
)
    requires
        u@.wf(),
        u@.accepts(UploadEvent::Count(n)),
        call_ensures(Upload::action, (&u,), UploadAction::Write { from, to, offset }),
        call_ensures(Upload::step, (u, UploadEvent::Count(n)), r),
        r matches Ok(v) ==> v@.wf() && call_ensures(Upload::action, (&v,), next),
    ensures
        from < to,
        n == 0 <==> r is Err,
        r matches Err(e) ==> e@ is Backend,
        r is Ok && from + n < to ==> next == (UploadAction::Write {
            from: (from + n) as usize,
            to,
            offset: (offset + n) as u64,
        }),
        r is Ok && from + n == to ==> next is Read && next->Read_from == 0,
        r matches Ok(v) ==> v@.offset == offset + n,
{
}

} // verus!
