//! Copying a single file on a share.
//!
//! **Server-side, so the bytes never pass through this process.** The source's
//! *resume key* identifies it, and a request tells the server to move ranges
//! between its own handles. Not every server implements that, so the copy falls
//! back to reading and writing through this process.
//!
//! The copy is a state machine: [`CopyFile::action`] says which call to make on
//! the session, and [`CopyFile::step`] takes in how it went.

use vstd::prelude::*;
use crate::backend::{self, OpenMode, OpenModeView};
use crate::error::{Error, ErrorView};
use crate::path::{self, VfsPath};
use crate::smb::error::{Errnos, Failure, FailureView};
use crate::smb::ffi;
use crate::smb::path as smb_path;

verus! {

/// Initial per-request copy size. The server gets to lower this.
pub const COPY_CHUNK_BYTES: u32 = 1024 * 1024;

/// Whether a status means "this server does not do server-side copies".
pub open spec fn means_unsupported(status: u32) -> bool {
    ||| status == ffi::SMB2_STATUS_NOT_SUPPORTED
    ||| status == ffi::SMB2_STATUS_INVALID_DEVICE_REQUEST
    ||| status == ffi::SMB2_STATUS_CTL_FILE_NOT_SUPPORTED
}

/// Whether a status means "this server does not do server-side copies".
///
/// The three codes are the ones Windows and Samba use for a file system control
/// they do not implement, and treating one of them as a hard failure would break
/// copying against those servers entirely.
pub fn is_copy_unsupported(status: u32) -> (r: bool)
    ensures
        r == means_unsupported(status),
{
    status == ffi::SMB2_STATUS_NOT_SUPPORTED || status == ffi::SMB2_STATUS_INVALID_DEVICE_REQUEST
        || status == ffi::SMB2_STATUS_CTL_FILE_NOT_SUPPORTED
}

/// How the source is opened.
pub fn source_mode() -> (r: OpenMode)
    ensures
        r@ == (OpenModeView {
            read: true,
            write: false,
            create: false,
            create_new: false,
            truncate: false,
        }),
{
    OpenMode::read()
}

/// What the destination is opened with.
pub open spec fn destination_mode_view() -> OpenModeView {
    OpenModeView { read: false, write: true, create: true, create_new: true, truncate: false }
}

/// How the destination is opened: it has to be new. A copy that silently
/// replaced an existing file would be the worst kind of surprise.
pub fn destination_mode() -> (r: OpenMode)
    ensures
        r@ == (OpenModeView {
            read: false,
            write: true,
            create: true,
            create_new: true,
            truncate: false,
        }),
        r@ == destination_mode_view(),
{
    OpenMode::create_new()
}

/// The file system control that asks the server to copy a range.
///
/// Of the two that there are, this one makes do with a destination that can be
/// written; the other wants one that can be read too, which
/// [`destination_mode`] does not ask for.
pub fn control_code() -> (r: u32)
    ensures
        r == ffi::SMB2_FSCTL_SRV_COPYCHUNK_WRITE,
{
    ffi::SMB2_FSCTL_SRV_COPYCHUNK_WRITE
}

/// Where a copy stands.
pub enum CopyState {
    /// Nothing is open yet.
    OpenSource,
    /// The source is open; its size is not known.
    StatSource,
    /// The destination has to be created, exclusively.
    CreateDest { size: u64 },
    /// Both are open; the server has to identify the source.
    RequestKey { size: u64 },
    /// The server copies range by range.
    Chunk { size: u64, offset: u64, chunk_bytes: u32 },
    /// The bytes move through here: read the next range.
    Read { size: u64, offset: u64 },
    /// The bytes move through here: write what was read.
    Write { size: u64, offset: u64, read: u32, written: u32 },
    /// The destination is finished with.
    CloseDest { outcome: Result<u64, Error> },
    /// A partial destination is removed.
    Unlink { error: Error },
    /// The source is finished with.
    CloseSource { outcome: Result<u64, Error> },
    Done { outcome: Result<u64, Error> },
}

/// A [`CopyState`] with views of its errors.
#[verifier::ext_equal]
pub enum CopyStateView {
    OpenSource,
    StatSource,
    CreateDest { size: u64 },
    RequestKey { size: u64 },
    Chunk { size: u64, offset: u64, chunk_bytes: u32 },
    Read { size: u64, offset: u64 },
    Write { size: u64, offset: u64, read: u32, written: u32 },
    CloseDest { outcome: Result<u64, ErrorView> },
    Unlink { error: ErrorView },
    CloseSource { outcome: Result<u64, ErrorView> },
    Done { outcome: Result<u64, ErrorView> },
}

/// A result with the view of its error.
pub open spec fn outcome_view(r: Result<u64, Error>) -> Result<u64, ErrorView> {
    match r {
        Ok(n) => Ok(n),
        Err(e) => Err(e@),
    }
}

impl View for CopyState {
    type V = CopyStateView;

    open spec fn view(&self) -> CopyStateView {
        match *self {
            CopyState::OpenSource => CopyStateView::OpenSource,
            CopyState::StatSource => CopyStateView::StatSource,
            CopyState::CreateDest { size } => CopyStateView::CreateDest { size },
            CopyState::RequestKey { size } => CopyStateView::RequestKey { size },
            CopyState::Chunk { size, offset, chunk_bytes } => CopyStateView::Chunk {
                size,
                offset,
                chunk_bytes,
            },
            CopyState::Read { size, offset } => CopyStateView::Read { size, offset },
            CopyState::Write { size, offset, read, written } => CopyStateView::Write {
                size,
                offset,
                read,
                written,
            },
            CopyState::CloseDest { outcome } => CopyStateView::CloseDest {
                outcome: outcome_view(outcome),
            },
            CopyState::Unlink { error } => CopyStateView::Unlink { error: error@ },
            CopyState::CloseSource { outcome } => CopyStateView::CloseSource {
                outcome: outcome_view(outcome),
            },
            CopyState::Done { outcome } => CopyStateView::Done { outcome: outcome_view(outcome) },
        }
    }
}

/// A call to make on the session.
pub enum CopyAction {
    /// Open the source for reading.
    OpenSource,
    /// Ask for the size of the source.
    StatSource,
    /// Create the destination for writing, failing if it exists.
    CreateDest,
    /// Ask the server for a key that identifies the source.
    RequestKey,
    /// Ask the server to copy one range.
    Chunk(ffi::smb2_srv_copychunk),
    /// Read from the source.
    Read { offset: u64, len: u32 },
    /// Write the bytes `from..from + len` of what was read to the destination.
    Write { from: u32, len: u32, offset: u64 },
    CloseDest,
    /// Remove the destination.
    Unlink,
    CloseSource,
    /// Nothing more to do.
    Finish,
}

/// How a call went.
pub enum CopyEvent {
    /// It succeeded, or its result does not matter.
    Done,
    /// The size of the source.
    Size(u64),
    /// The server copied a range.
    Copied(ffi::smb2_srv_copychunk_reply),
    /// The server refused a range.
    Refused(ffi::smb2_srv_copychunk_reply, Failure),
    /// So many bytes were read or written.
    Count(u32),
    Failed(Failure),
}

/// A [`CopyEvent`] with the view of its failure.
pub enum CopyEventView {
    Done,
    Size(u64),
    Copied(ffi::smb2_srv_copychunk_reply),
    Refused(ffi::smb2_srv_copychunk_reply, FailureView),
    Count(u32),
    Failed(FailureView),
}

impl View for CopyEvent {
    type V = CopyEventView;

    open spec fn view(&self) -> CopyEventView {
        match *self {
            CopyEvent::Done => CopyEventView::Done,
            CopyEvent::Size(size) => CopyEventView::Size(size),
            CopyEvent::Copied(reply) => CopyEventView::Copied(reply),
            CopyEvent::Refused(reply, f) => CopyEventView::Refused(reply, f@),
            CopyEvent::Count(n) => CopyEventView::Count(n),
            CopyEvent::Failed(f) => CopyEventView::Failed(f@),
        }
    }
}

impl CopyEvent {
    pub open spec fn wf(&self) -> bool {
        match *self {
            CopyEvent::Refused(_, f) => f.wf(),
            CopyEvent::Failed(f) => f.wf(),
            _ => true,
        }
    }
}

/// What a copy works on, as texts: the names that errors carry, and the
/// platform's `errno` values.
#[verifier::ext_equal]
pub struct CopyNames {
    pub from: Seq<char>,
    pub to: Seq<char>,
    pub table: Errnos,
}

// ---------------------------------------------------------------------------
// Model
// ---------------------------------------------------------------------------

/// How much to ask for at most, given what is left.
pub open spec fn at_most(limit: u32, left: int) -> u32 {
    if left < limit {
        left as u32
    } else {
        limit
    }
}

impl CopyStateView {
    pub open spec fn wf(self) -> bool {
        match self {
            CopyStateView::RequestKey { size } => size > 0,
            CopyStateView::Chunk { size, offset, chunk_bytes } => {
                &&& offset < size
                &&& 0 < chunk_bytes <= COPY_CHUNK_BYTES
            },
            CopyStateView::Read { size, offset } => offset < size,
            CopyStateView::Write { size, offset, read, written } => {
                &&& written < read <= COPY_CHUNK_BYTES
                &&& offset + read <= size
            },
            _ => true,
        }
    }

    /// The call that a state asks for.
    pub open spec fn action(self) -> CopyAction {
        match self {
            CopyStateView::OpenSource => CopyAction::OpenSource,
            CopyStateView::StatSource => CopyAction::StatSource,
            CopyStateView::CreateDest { .. } => CopyAction::CreateDest,
            CopyStateView::RequestKey { .. } => CopyAction::RequestKey,
            CopyStateView::Chunk { size, offset, chunk_bytes } => CopyAction::Chunk(
                (ffi::smb2_srv_copychunk {
                    source_offset: offset,
                    target_offset: offset,
                    length: at_most(chunk_bytes, size - offset),
                    reserved: 0,
                }),
            ),
            CopyStateView::Read { size, offset } => CopyAction::Read {
                offset,
                len: at_most(COPY_CHUNK_BYTES, size - offset),
            },
            CopyStateView::Write { offset, read, written, .. } => CopyAction::Write {
                from: written,
                len: (read - written) as u32,
                offset: (offset + written) as u64,
            },
            CopyStateView::CloseDest { .. } => CopyAction::CloseDest,
            CopyStateView::Unlink { .. } => CopyAction::Unlink,
            CopyStateView::CloseSource { .. } => CopyAction::CloseSource,
            CopyStateView::Done { .. } => CopyAction::Finish,
        }
    }

    /// Which answers make sense in a state: the ones that the call it asks for
    /// can give. No call reads or writes more than it was asked to, and a write
    /// that moves nothing is a failure.
    pub open spec fn accepts(self, event: CopyEventView) -> bool {
        match self {
            CopyStateView::OpenSource
            | CopyStateView::CreateDest { .. }
            | CopyStateView::RequestKey { .. } => event is Done || event is Failed,
            CopyStateView::StatSource => event is Size || event is Failed,
            CopyStateView::Chunk { .. } => event is Copied || event is Refused,
            CopyStateView::Read { size, offset } => match event {
                CopyEventView::Count(n) => n <= at_most(COPY_CHUNK_BYTES, size - offset),
                CopyEventView::Failed(_) => true,
                _ => false,
            },
            CopyStateView::Write { read, written, .. } => match event {
                CopyEventView::Count(n) => 0 < n <= read - written,
                CopyEventView::Failed(_) => true,
                _ => false,
            },
            CopyStateView::CloseDest { .. }
            | CopyStateView::Unlink { .. }
            | CopyStateView::CloseSource { .. } => event is Done,
            CopyStateView::Done { .. } => false,
        }
    }

    /// What a failed server-side copy leads to: moving the bytes where the
    /// server cannot do it, the error otherwise.
    pub open spec fn without_the_server(
        names: CopyNames,
        size: u64,
        f: FailureView,
    ) -> CopyStateView {
        if means_unsupported(f.nterror) {
            CopyStateView::Read { size, offset: 0 }
        } else {
            CopyStateView::CloseDest { outcome: Err(f.error(names.table, "copy"@)) }
        }
    }

    /// The state after an answer.
    pub open spec fn next(self, names: CopyNames, event: CopyEventView) -> CopyStateView {
        match (self, event) {
            (CopyStateView::OpenSource, CopyEventView::Done) => CopyStateView::StatSource,
            (CopyStateView::OpenSource, CopyEventView::Failed(f)) => CopyStateView::Done {
                outcome: Err(f.error(names.table, names.from)),
            },
            (CopyStateView::StatSource, CopyEventView::Size(size)) => CopyStateView::CreateDest {
                size,
            },
            (CopyStateView::StatSource, CopyEventView::Failed(f)) => CopyStateView::CloseSource {
                outcome: Err(f.error(names.table, names.from)),
            },
            (CopyStateView::CreateDest { size }, CopyEventView::Done) => if size == 0 {
                CopyStateView::CloseDest { outcome: Ok(0) }
            } else {
                CopyStateView::RequestKey { size }
            },
            (
                CopyStateView::CreateDest { .. },
                CopyEventView::Failed(f),
            ) => CopyStateView::CloseSource { outcome: Err(f.error(names.table, names.to)) },
            (CopyStateView::RequestKey { size }, CopyEventView::Done) => CopyStateView::Chunk {
                size,
                offset: 0,
                chunk_bytes: COPY_CHUNK_BYTES,
            },
            (
                CopyStateView::RequestKey { size },
                CopyEventView::Failed(f),
            ) => CopyStateView::without_the_server(names, size, f),
            (
                CopyStateView::Chunk { size, offset, chunk_bytes },
                CopyEventView::Copied(reply),
            ) => if reply.total_bytes_written == 0 {
                CopyStateView::CloseDest {
                    outcome: Err(
                        ErrorView::Backend {
                            message: "the server reported a copy of zero bytes"@,
                        },
                    ),
                }
            } else {
                let after = offset.saturating_add(reply.total_bytes_written as u64);
                if after < size {
                    CopyStateView::Chunk { size, offset: after, chunk_bytes }
                } else {
                    CopyStateView::CloseDest { outcome: Ok(after) }
                }
            },
            (
                CopyStateView::Chunk { size, offset, chunk_bytes },
                CopyEventView::Refused(reply, f),
            ) => if 0 < reply.chunk_bytes_written < chunk_bytes {
                CopyStateView::Chunk { size, offset, chunk_bytes: reply.chunk_bytes_written }
            } else {
                CopyStateView::without_the_server(names, size, f)
            },
            (CopyStateView::Read { size, offset }, CopyEventView::Count(n)) => if n == 0 {
                CopyStateView::CloseDest { outcome: Ok(offset) }
            } else {
                CopyStateView::Write { size, offset, read: n, written: 0 }
            },
            (CopyStateView::Read { .. }, CopyEventView::Failed(f)) => CopyStateView::CloseDest {
                outcome: Err(f.error(names.table, "copy (read)"@)),
            },
            (
                CopyStateView::Write { size, offset, read, written },
                CopyEventView::Count(n),
            ) => if written + n < read {
                CopyStateView::Write { size, offset, read, written: (written + n) as u32 }
            } else if offset + read < size {
                CopyStateView::Read { size, offset: (offset + read) as u64 }
            } else {
                CopyStateView::CloseDest { outcome: Ok((offset + read) as u64) }
            },
            (CopyStateView::Write { .. }, CopyEventView::Failed(f)) => CopyStateView::CloseDest {
                outcome: Err(f.error(names.table, "copy (write)"@)),
            },
            (CopyStateView::CloseDest { outcome }, CopyEventView::Done) => match outcome {
                Ok(_) => CopyStateView::CloseSource { outcome },
                Err(error) => CopyStateView::Unlink { error },
            },
            (CopyStateView::Unlink { error }, CopyEventView::Done) => CopyStateView::CloseSource {
                outcome: Err(error),
            },
            (CopyStateView::CloseSource { outcome }, CopyEventView::Done) => CopyStateView::Done {
                outcome,
            },
            _ => self,
        }
    }
}

// ---------------------------------------------------------------------------
// The machine
// ---------------------------------------------------------------------------

/// One copy on its way.
pub struct CopyFile {
    from: String,
    to: String,
    smb_from: String,
    smb_to: String,
    table: Errnos,
    state: CopyState,
}

fn classify_copy_failure(table: &Errnos, size: u64, f: &Failure) -> (r: CopyState)
    requires
        f.wf(),
    ensures
        forall|names: CopyNames|
            names.table == *table ==> r@ == #[trigger] CopyStateView::without_the_server(
                names,
                size,
                f@,
            ),
{
    if is_copy_unsupported(f.nterror) {
        CopyState::Read { size, offset: 0 }
    } else {
        CopyState::CloseDest { outcome: Err(f.error(table, "copy")) }
    }
}

impl CopyFile {
    /// What the copy works on.
    pub closed spec fn names(&self) -> CopyNames {
        CopyNames { from: self.from@, to: self.to@, table: self.table }
    }

    /// Where the copy stands.
    pub closed spec fn state(&self) -> CopyStateView {
        self.state@
    }

    /// The share-relative source and destination.
    pub closed spec fn paths(&self) -> (Seq<char>, Seq<char>) {
        (self.smb_from@, self.smb_to@)
    }

    /// A copy of `from` to `to` that has not started, against a given table of
    /// `errno` values.
    pub fn new(from: &VfsPath, to: &VfsPath, table: Errnos) -> (r: Result<Self, Error>)
        ensures
            match (smb_path::handed_over(from@), smb_path::handed_over(to@)) {
                (Err(v), _) => r matches Err(e) && e@ == v,
                (Ok(_), Err(v)) => r matches Err(e) && e@ == v,
                (Ok(a), Ok(b)) => {
                    &&& r matches Ok(copy)
                    &&& copy.state() == CopyStateView::OpenSource
                    &&& copy.paths() == (a, b)
                    &&& copy.names() == (CopyNames {
                        from: path::rendered(from@),
                        to: path::rendered(to@),
                        table,
                    })
                },
            },
    {
        let smb_from = match smb_path::smb_path(from) {
            Ok(s) => s,
            Err(e) => {
                return Err(e);
            },
        };
        let smb_to = match smb_path::smb_path(to) {
            Ok(s) => s,
            Err(e) => {
                return Err(e);
            },
        };
        Ok(
            CopyFile {
                from: from.to_string(),
                to: to.to_string(),
                smb_from,
                smb_to,
                table,
                state: CopyState::OpenSource,
            },
        )
    }

    /// The share-relative source.
    pub fn source(&self) -> (r: &str)
        ensures
            r@ == self.paths().0,
    {
        self.smb_from.as_str()
    }

    /// The share-relative destination.
    pub fn destination(&self) -> (r: &str)
        ensures
            r@ == self.paths().1,
    {
        self.smb_to.as_str()
    }

    /// The call to make next.
    pub fn action(&self) -> (r: CopyAction)
        requires
            self.state().wf(),
        ensures
            r == self.state().action(),
    {
        match &self.state {
            CopyState::OpenSource => CopyAction::OpenSource,
            CopyState::StatSource => CopyAction::StatSource,
            CopyState::CreateDest { .. } => CopyAction::CreateDest,
            CopyState::RequestKey { .. } => CopyAction::RequestKey,
            CopyState::Chunk { size, offset, chunk_bytes } => {
                let left: u64 = *size - *offset;
                let length: u32 = if left < *chunk_bytes as u64 {
                    left as u32
                } else {
                    *chunk_bytes
                };
                CopyAction::Chunk(
                    ffi::smb2_srv_copychunk {
                        source_offset: *offset,
                        target_offset: *offset,
                        length,
                        reserved: 0,
                    },
                )
            },
            CopyState::Read { size, offset } => {
                let left: u64 = *size - *offset;
                let len: u32 = if left < COPY_CHUNK_BYTES as u64 {
                    left as u32
                } else {
                    COPY_CHUNK_BYTES
                };
                CopyAction::Read { offset: *offset, len }
            },
            CopyState::Write { offset, read, written, .. } => CopyAction::Write {
                from: *written,
                len: *read - *written,
                offset: *offset + *written as u64,
            },
            CopyState::CloseDest { .. } => CopyAction::CloseDest,
            CopyState::Unlink { .. } => CopyAction::Unlink,
            CopyState::CloseSource { .. } => CopyAction::CloseSource,
            CopyState::Done { .. } => CopyAction::Finish,
        }
    }

    /// Takes in how the call went that [`CopyFile::action`] asked for.
    pub fn step(self, event: CopyEvent) -> (r: Self)
        requires
            self.state().wf(),
            event.wf(),
            self.state().accepts(event@),
        ensures
            r.state() == self.state().next(self.names(), event@),
            r.state().wf(),
            r.names() == self.names(),
            r.paths() == self.paths(),
    {
        let state = match (self.state, event) {
            (CopyState::OpenSource, CopyEvent::Done) => CopyState::StatSource,
            (CopyState::OpenSource, CopyEvent::Failed(f)) => CopyState::Done {
                outcome: Err(f.error(&self.table, &self.from)),
            },
            (CopyState::StatSource, CopyEvent::Size(size)) => CopyState::CreateDest { size },
            // Without a size there is nothing to copy by, and taking it for an
            // empty file would report a copy that never was.
            (CopyState::StatSource, CopyEvent::Failed(f)) => CopyState::CloseSource {
                outcome: Err(f.error(&self.table, &self.from)),
            },
            (CopyState::CreateDest { size }, CopyEvent::Done) => if size == 0 {
                // An empty source still means "create the destination", which
                // has just been done.
                CopyState::CloseDest { outcome: Ok(0) }
            } else {
                CopyState::RequestKey { size }
            },
            (CopyState::CreateDest { .. }, CopyEvent::Failed(f)) => CopyState::CloseSource {
                outcome: Err(f.error(&self.table, &self.to)),
            },
            (CopyState::RequestKey { size }, CopyEvent::Done) => CopyState::Chunk {
                size,
                offset: 0,
                chunk_bytes: COPY_CHUNK_BYTES,
            },
            (CopyState::RequestKey { size }, CopyEvent::Failed(f)) => classify_copy_failure(
                &self.table,
                size,
                &f,
            ),
            (CopyState::Chunk { size, offset, chunk_bytes }, CopyEvent::Copied(reply)) => {
                if reply.total_bytes_written == 0 {
                    // A success that moved nothing would loop forever. The
                    // server is misbehaving; report it rather than spinning.
                    CopyState::CloseDest {
                        outcome: Err(Error::backend("the server reported a copy of zero bytes")),
                    }
                } else {
                    let after: u64 = offset.saturating_add(reply.total_bytes_written as u64);
                    if after < size {
                        CopyState::Chunk { size, offset: after, chunk_bytes }
                    } else {
                        CopyState::CloseDest { outcome: Ok(after) }
                    }
                }
            },
            (CopyState::Chunk { size, offset, chunk_bytes }, CopyEvent::Refused(reply, f)) => {
                // A refusal carrying a usable limit means "not that much at a
                // time". It is adopted only where it is smaller than what was
                // just tried, so a server that refuses everything cannot keep
                // the copy going.
                let limit: u32 = reply.chunk_bytes_written;
                if limit > 0 && limit < chunk_bytes {
                    CopyState::Chunk { size, offset, chunk_bytes: limit }
                } else {
                    classify_copy_failure(&self.table, size, &f)
                }
            },
            (CopyState::Read { size, offset }, CopyEvent::Count(n)) => if n == 0 {
                // The source shrank. Whatever was copied is all there is.
                CopyState::CloseDest { outcome: Ok(offset) }
            } else {
                CopyState::Write { size, offset, read: n, written: 0 }
            },
            (CopyState::Read { .. }, CopyEvent::Failed(f)) => CopyState::CloseDest {
                outcome: Err(f.error(&self.table, "copy (read)")),
            },
            (CopyState::Write { size, offset, read, written }, CopyEvent::Count(n)) => {
                if written + n < read {
                    CopyState::Write { size, offset, read, written: written + n }
                } else if offset + (read as u64) < size {
                    CopyState::Read { size, offset: offset + read as u64 }
                } else {
                    CopyState::CloseDest { outcome: Ok(offset + read as u64) }
                }
            },
            (CopyState::Write { .. }, CopyEvent::Failed(f)) => CopyState::CloseDest {
                outcome: Err(f.error(&self.table, "copy (write)")),
            },
            (CopyState::CloseDest { outcome }, CopyEvent::Done) => match outcome {
                Ok(n) => CopyState::CloseSource { outcome: Ok(n) },
                // A copy that fails part-way leaves a short or empty file
                // behind, which is worse than leaving nothing. It is ours to
                // remove: it was created here, exclusively.
                Err(error) => CopyState::Unlink { error },
            },
            (CopyState::Unlink { error }, CopyEvent::Done) => CopyState::CloseSource {
                outcome: Err(error),
            },
            (CopyState::CloseSource { outcome }, CopyEvent::Done) => CopyState::Done { outcome },
            (state, _) => state,
        };
        CopyFile {
            from: self.from,
            to: self.to,
            smb_from: self.smb_from,
            smb_to: self.smb_to,
            table: self.table,
            state,
        }
    }

    /// What the copy came to: the bytes copied, or why it failed. `None` while
    /// it is still going on.
    pub fn outcome(self) -> (r: Option<Result<u64, Error>>)
        ensures
            match self.state() {
                CopyStateView::Done { outcome } => r matches Some(o) && outcome_view(o) == outcome,
                _ => r is None,
            },
    {
        match self.state {
            CopyState::Done { outcome } => Some(outcome),
            _ => None,
        }
    }
}

// ---------------------------------------------------------------------------
// Laws
// ---------------------------------------------------------------------------

impl CopyStateView {
    /// How much is left to do, most significant first: the stage, the bytes
    /// still to copy, and what is left of the current step.
    pub open spec fn left(self) -> (int, int, int) {
        match self {
            CopyStateView::OpenSource => (9, 0, 0),
            CopyStateView::StatSource => (8, 0, 0),
            CopyStateView::CreateDest { .. } => (7, 0, 0),
            CopyStateView::RequestKey { .. } => (6, 0, 0),
            CopyStateView::Chunk { size, offset, chunk_bytes } => (
                5,
                size - offset,
                chunk_bytes as int,
            ),
            CopyStateView::Read { size, offset } => (4, size - offset, COPY_CHUNK_BYTES + 1),
            CopyStateView::Write { size, offset, read, written } => (
                4,
                size - offset,
                read - written,
            ),
            CopyStateView::CloseDest { .. } => (3, 0, 0),
            CopyStateView::Unlink { .. } => (2, 0, 0),
            CopyStateView::CloseSource { .. } => (1, 0, 0),
            CopyStateView::Done { .. } => (0, 0, 0),
        }
    }
}

/// Whether less is left in `a` than in `b`.
pub open spec fn less_left(a: (int, int, int), b: (int, int, int)) -> bool {
    ||| a.0 < b.0
    ||| a.0 == b.0 && a.1 < b.1
    ||| a.0 == b.0 && a.1 == b.1 && a.2 < b.2
}

/// Every answer brings a copy closer to its end, whatever the server says: no
/// server can keep a copy going for ever.
pub proof fn every_answer_makes_progress(s: CopyStateView, names: CopyNames, e: CopyEventView)
    requires
        s.wf(),
        s.accepts(e),
    ensures
        s.next(names, e).wf(),
        less_left(s.next(names, e).left(), s.left()),
        s.next(names, e).left().0 >= 0,
        s.next(names, e).left().1 >= 0,
        s.next(names, e).left().2 >= 0,
{
}

/// A copy together with what it has opened, created and removed so far.
#[verifier::ext_equal]
pub struct CopyTrace {
    pub state: CopyStateView,
    pub source_open: bool,
    pub dest_open: bool,
    /// The destination came into being through this copy.
    pub created: bool,
    /// The destination was removed by this copy.
    pub removed: bool,
}

impl CopyTrace {
    /// Before the first call.
    pub open spec fn start() -> CopyTrace {
        CopyTrace {
            state: CopyStateView::OpenSource,
            source_open: false,
            dest_open: false,
            created: false,
            removed: false,
        }
    }

    /// After the call that the state asks for was answered.
    pub open spec fn then_answered(self, names: CopyNames, e: CopyEventView) -> CopyTrace {
        CopyTrace {
            state: self.state.next(names, e),
            source_open: match self.state.action() {
                CopyAction::OpenSource => e is Done,
                CopyAction::CloseSource => false,
                _ => self.source_open,
            },
            dest_open: match self.state.action() {
                CopyAction::CreateDest => e is Done,
                CopyAction::CloseDest => false,
                _ => self.dest_open,
            },
            created: self.created || (self.state.action() is CreateDest && e is Done),
            removed: self.removed || self.state.action() is Unlink,
        }
    }

    /// What holds of a copy at every moment.
    pub open spec fn tidy(self) -> bool {
        &&& self.state.wf()
        // Handles are held exactly while they are needed.
        &&& self.source_open == !(self.state is OpenSource || self.state is Done)
        &&& self.dest_open == (self.state is RequestKey || self.state is Chunk || self.state is Read
            || self.state is Write || self.state is CloseDest)
        // A destination is written or removed only if this copy created it.
        &&& self.dest_open ==> self.created
        &&& self.state is Unlink ==> self.created
        &&& self.removed ==> self.created
        // A failed copy leaves no destination of its own behind, and a
        // successful one leaves it in place.
        &&& !self.removed || self.state is CloseSource || self.state is Done
        &&& match self.state {
            CopyStateView::CloseSource { outcome } => match outcome {
                Ok(_) => self.created && !self.removed,
                Err(_) => self.created ==> self.removed,
            },
            CopyStateView::Done { outcome } => match outcome {
                Ok(_) => self.created && !self.removed,
                Err(_) => self.created ==> self.removed,
            },
            CopyStateView::OpenSource
            | CopyStateView::StatSource
            | CopyStateView::CreateDest { .. } => !self.created,
            _ => true,
        }
    }
}

/// A copy starts tidy.
pub proof fn a_copy_starts_tidy()
    ensures
        CopyTrace::start().tidy(),
{
}

/// Whatever the server answers, a copy stays tidy: it closes what it opened, it
/// never removes a destination that it did not create, and a copy that fails
/// removes the partial destination that it did create.
pub proof fn a_copy_stays_tidy(t: CopyTrace, names: CopyNames, e: CopyEventView)
    requires
        t.tidy(),
        t.state.accepts(e),
    ensures
        t.then_answered(names, e).tidy(),
{
}

/// A copy whose source has no size to be had creates nothing, and reports why.
pub proof fn a_source_without_a_size_is_an_error(names: CopyNames, f: FailureView)
    ensures
        ({
            let after = CopyStateView::StatSource.next(names, CopyEventView::Failed(f));
            let error = f.error(names.table, names.from);
            &&& after == (CopyStateView::CloseSource { outcome: Err(error) })
            &&& after.next(names, CopyEventView::Done) == (CopyStateView::Done {
                outcome: Err(error),
            })
        }),
{
}

/// `dest` with `n` bytes of the source written over it at `offset`, where the
/// source has them.
pub open spec fn overwritten(dest: Seq<u8>, source: Seq<u8>, offset: int, n: int) -> Seq<u8> {
    dest.take(offset) + source.subrange(offset, offset + n) + if offset + n < dest.len() {
        dest.skip(offset + n)
    } else {
        Seq::empty()
    }
}

/// How far a state has got: so many bytes are known to be at the destination.
pub open spec fn position(s: CopyStateView) -> int {
    match s {
        CopyStateView::Chunk { offset, .. } => offset as int,
        CopyStateView::Read { offset, .. } => offset as int,
        CopyStateView::Write { offset, written, .. } => offset + written,
        CopyStateView::CloseDest { outcome: Ok(n) } => n as int,
        _ => 0,
    }
}

/// Whether a destination holds the start of the source, as far as a state has
/// got at least.
pub open spec fn prefix_written(s: CopyStateView, source: Seq<u8>, dest: Seq<u8>) -> bool {
    &&& dest.is_prefix_of(source)
    &&& position(s) <= dest.len()
}

/// What an answer may do to the bytes of a destination. A range that the server
/// copies, and bytes that are written from here, come from the same place in the
/// source; no more is moved than was asked for, and no more than there is. A
/// range that is refused may have been copied in part.
pub open spec fn moves(
    s: CopyStateView,
    e: CopyEventView,
    source: Seq<u8>,
    dest: Seq<u8>,
    after: Seq<u8>,
) -> bool {
    match (s.action(), e) {
        (CopyAction::Chunk(range), CopyEventView::Copied(reply)) => {
            &&& reply.total_bytes_written <= range.length
            &&& range.target_offset + reply.total_bytes_written <= source.len()
            &&& after == overwritten(
                dest,
                source,
                range.target_offset as int,
                reply.total_bytes_written as int,
            )
        },
        (CopyAction::Chunk(range), CopyEventView::Refused(..)) => exists|n: int|
            {
                &&& 0 <= n <= range.length
                &&& range.target_offset + n <= source.len()
                &&& after == #[trigger] overwritten(dest, source, range.target_offset as int, n)
            },
        (CopyAction::Read { offset, .. }, CopyEventView::Count(n)) => {
            &&& offset + n <= source.len()
            &&& n == 0 ==> offset == source.len()
            &&& after == dest
        },
        (CopyAction::Write { offset, .. }, CopyEventView::Count(n)) => {
            &&& offset + n <= source.len()
            &&& after == overwritten(dest, source, offset as int, n as int)
        },
        _ => after == dest,
    }
}

/// Writing the source over a start of it leaves a start of it.
proof fn overwriting_keeps_a_prefix(dest: Seq<u8>, source: Seq<u8>, offset: int, n: int)
    requires
        dest.is_prefix_of(source),
        0 <= offset <= dest.len(),
        0 <= n,
        offset + n <= source.len(),
    ensures
        overwritten(dest, source, offset, n).is_prefix_of(source),
        overwritten(dest, source, offset, n).len() >= dest.len(),
        overwritten(dest, source, offset, n).len() >= offset + n,
{
    let after = overwritten(dest, source, offset, n);
    assert(after =~= source.take(after.len() as int));
}

/// Range by range on the server as well as through here, a copy writes the
/// source from its start, without gaps: at every moment the destination holds
/// the start of the source, and at the end at least as many bytes as the copy
/// reports.
pub proof fn moving_the_bytes_copies_a_prefix(
    s: CopyStateView,
    names: CopyNames,
    e: CopyEventView,
    source: Seq<u8>,
    dest: Seq<u8>,
    after: Seq<u8>,
)
    requires
        s.wf(),
        s is RequestKey || s is Chunk || s is Read || s is Write,
        s.accepts(e),
        backend::addressable(source),
        prefix_written(s, source, dest),
        moves(s, e, source, dest, after),
    ensures
        prefix_written(s.next(names, e), source, after),
        dest.len() <= after.len(),
{
    match (s.action(), e) {
        (CopyAction::Chunk(range), CopyEventView::Copied(reply)) => {
            overwriting_keeps_a_prefix(
                dest,
                source,
                range.target_offset as int,
                reply.total_bytes_written as int,
            );
        },
        (CopyAction::Chunk(range), CopyEventView::Refused(..)) => {
            let n = choose|n: int|
                {
                    &&& 0 <= n <= range.length
                    &&& range.target_offset + n <= source.len()
                    &&& after == #[trigger] overwritten(
                        dest,
                        source,
                        range.target_offset as int,
                        n,
                    )
                };
            overwriting_keeps_a_prefix(dest, source, range.target_offset as int, n);
        },
        (CopyAction::Write { offset, .. }, CopyEventView::Count(n)) => {
            overwriting_keeps_a_prefix(dest, source, offset as int, n as int);
        },
        _ => {},
    }
}

/// One answer of a copy, with what is at the destination after it.
pub struct CopyStep {
    pub event: CopyEventView,
    pub dest: Option<Seq<u8>>,
}

/// Where a copy stands after these steps.
pub open spec fn state_after(names: CopyNames, steps: Seq<CopyStep>) -> CopyStateView
    decreases steps.len(),
{
    if steps.len() == 0 {
        CopyStateView::OpenSource
    } else {
        state_after(names, steps.drop_last()).next(names, steps.last().event)
    }
}

/// What is at the destination after these steps.
pub open spec fn dest_after(before: Option<Seq<u8>>, steps: Seq<CopyStep>) -> Option<Seq<u8>> {
    if steps.len() == 0 {
        before
    } else {
        steps.last().dest
    }
}

/// Whether a server that does what it says may give this answer. It reports the
/// size that the source has; it creates the destination only where there is
/// none, and removes it when asked to; it moves bytes of the source; and nobody
/// else touches either file.
pub open spec fn serves(
    s: CopyStateView,
    e: CopyEventView,
    source: Seq<u8>,
    dest: Option<Seq<u8>>,
    after: Option<Seq<u8>>,
) -> bool {
    match (s.action(), e) {
        (CopyAction::StatSource, CopyEventView::Size(n)) => n == source.len() && after == dest,
        (CopyAction::CreateDest, CopyEventView::Done) => {
            &&& after is Some
            &&& after == backend::opened(dest, destination_mode_view())
        },
        (CopyAction::Unlink, _) => after is None,
        // A write that fails may have written anything.
        (CopyAction::Write { .. }, CopyEventView::Failed(_)) => after is Some,
        _ => match (dest, after) {
            (Some(d), Some(a)) => moves(s, e, source, d, a),
            (None, None) => true,
            _ => false,
        },
    }
}

/// Whether these steps are a copy of `source` on such a server, with `before` at
/// the destination when it starts.
pub open spec fn is_run(
    names: CopyNames,
    source: Seq<u8>,
    before: Option<Seq<u8>>,
    steps: Seq<CopyStep>,
) -> bool
    decreases steps.len(),
{
    steps.len() > 0 ==> {
        let earlier = steps.drop_last();
        &&& is_run(names, source, before, earlier)
        &&& state_after(names, earlier).accepts(steps.last().event)
        &&& serves(
            state_after(names, earlier),
            steps.last().event,
            source,
            dest_after(before, earlier),
            steps.last().dest,
        )
    }
}

/// What holds of such a copy at every moment.
pub open spec fn on_course(
    s: CopyStateView,
    source: Seq<u8>,
    before: Option<Seq<u8>>,
    dest: Option<Seq<u8>>,
) -> bool {
    &&& s.wf()
    &&& match s {
        CopyStateView::OpenSource | CopyStateView::StatSource => dest == before,
        CopyStateView::CreateDest { size } => dest == before && size == source.len(),
        CopyStateView::RequestKey { size }
        | CopyStateView::Chunk { size, .. }
        | CopyStateView::Read { size, .. }
        | CopyStateView::Write { size, .. } => {
            &&& before is None
            &&& dest is Some
            &&& size == source.len()
            &&& prefix_written(s, source, dest->0)
        },
        CopyStateView::CloseDest { outcome } => {
            &&& before is None
            &&& dest is Some
            &&& outcome is Ok ==> outcome == Ok::<u64, ErrorView>(source.len() as u64) && dest
                == Some(source)
        },
        CopyStateView::Unlink { .. } => before is None && dest is Some,
        CopyStateView::CloseSource { outcome } | CopyStateView::Done { outcome } => match outcome {
            Ok(n) => before is None && dest == Some(source) && n == source.len(),
            Err(_) => dest == before,
        },
    }
}

/// One more answer keeps a copy on course.
proof fn a_copy_stays_on_course(
    s: CopyStateView,
    names: CopyNames,
    e: CopyEventView,
    source: Seq<u8>,
    before: Option<Seq<u8>>,
    dest: Option<Seq<u8>>,
    after: Option<Seq<u8>>,
)
    requires
        on_course(s, source, before, dest),
        s.accepts(e),
        backend::addressable(source),
        serves(s, e, source, dest, after),
    ensures
        on_course(s.next(names, e), source, before, after),
{
    match s {
        CopyStateView::CreateDest { .. } => {
            if e is Done {
                assert(after->0.is_prefix_of(source));
                assert(source.len() == 0 ==> after->0 =~= source);
            }
        },
        CopyStateView::RequestKey { .. }
        | CopyStateView::Chunk { .. }
        | CopyStateView::Read { .. }
        | CopyStateView::Write { .. } => {
            if !(s is Write && e is Failed) {
                moving_the_bytes_copies_a_prefix(s, names, e, source, dest->0, after->0);
                let next = s.next(names, e);
                if next is CloseDest && next->CloseDest_outcome is Ok {
                    assert(after->0 =~= source);
                }
            }
        },
        _ => {},
    }
}

/// A copy that succeeds found nothing at the destination and leaves all of the
/// source there, and reports as many bytes; a copy that fails leaves the
/// destination as it was, whether there was one or not. In particular a missing
/// source never creates a destination, and an existing one is never touched.
pub proof fn a_copy_is_all_or_nothing(
    names: CopyNames,
    source: Seq<u8>,
    before: Option<Seq<u8>>,
    steps: Seq<CopyStep>,
)
    requires
        backend::addressable(source),
        is_run(names, source, before, steps),
    ensures
        on_course(state_after(names, steps), source, before, dest_after(before, steps)),
        state_after(names, steps) matches CopyStateView::Done { outcome } ==> match outcome {
            Ok(n) => before is None && dest_after(before, steps) == Some(source) && n
                == source.len(),
            Err(_) => dest_after(before, steps) == before,
        },
    decreases steps.len(),
{
    if steps.len() > 0 {
        let earlier = steps.drop_last();
        a_copy_is_all_or_nothing(names, source, before, earlier);
        a_copy_stays_on_course(
            state_after(names, earlier),
            names,
            steps.last().event,
            source,
            before,
            dest_after(before, earlier),
            steps.last().dest,
        );
    }
}

/// A server that cannot copy by itself is never a reason to give up: the bytes
/// move through here, from the start.
pub proof fn an_unsupported_copy_falls_back(
    s: CopyStateView,
    names: CopyNames,
    f: FailureView,
    reply: ffi::smb2_srv_copychunk_reply,
)
    requires
        means_unsupported(f.nterror),
        reply.chunk_bytes_written == 0,
    ensures
        s matches CopyStateView::RequestKey { size } ==> s.next(names, CopyEventView::Failed(f))
            == (CopyStateView::Read { size, offset: 0 }),
        s matches CopyStateView::Chunk { size, .. } ==> s.next(
            names,
            CopyEventView::Refused(reply, f),
        ) == (CopyStateView::Read { size, offset: 0 }),
{
}

/// A copy asks for the next bytes, and for the same place on both sides: a range
/// the server copies is read where it is written, a read goes where the copy has
/// got, and a write goes where the bytes were read. No request is empty, and none
/// goes past the end.
pub proof fn a_copy_asks_for_the_next_bytes(s: CopyStateView)
    requires
        s.wf(),
    ensures
        s.action() matches CopyAction::Chunk(range) ==> {
            &&& s matches CopyStateView::Chunk { size, offset, chunk_bytes } && {
                &&& range.source_offset == offset
                &&& range.target_offset == offset
                &&& 0 < range.length <= chunk_bytes
                &&& range.length == chunk_bytes || offset + range.length == size
                &&& offset + range.length <= size
                &&& range.reserved == 0
            }
        },
        s.action() matches CopyAction::Read { offset: at, len } ==> {
            &&& s matches CopyStateView::Read { size, offset } && {
                &&& at == offset
                &&& 0 < len <= 1024 * 1024
                &&& len == 1024 * 1024 || offset + len == size
                &&& offset + len <= size
            }
        },
        s.action() matches CopyAction::Write { from, len, offset: at } ==> {
            &&& s matches CopyStateView::Write { offset, read, written, .. } && {
                &&& at == offset + from
                &&& from == written
                &&& from + len == read
                &&& len > 0
            }
        },
{
}

/// A copy that fails says what failed: the source where it cannot be opened or
/// looked at, the destination where it cannot be created, and the step it was at
/// otherwise.
pub proof fn a_failed_copy_says_what_failed(
    names: CopyNames,
    f: FailureView,
    size: u64,
    offset: u64,
    chunk_bytes: u32,
    read: u32,
    written: u32,
    reply: ffi::smb2_srv_copychunk_reply,
)
    ensures
        CopyStateView::OpenSource.next(names, CopyEventView::Failed(f)) == (CopyStateView::Done {
            outcome: Err(f.error(names.table, names.from)),
        }),
        CopyStateView::StatSource.next(names, CopyEventView::Failed(f)) == (
        CopyStateView::CloseSource { outcome: Err(f.error(names.table, names.from)) }),
        (CopyStateView::CreateDest { size }).next(names, CopyEventView::Failed(f)) == (
        CopyStateView::CloseSource { outcome: Err(f.error(names.table, names.to)) }),
        (CopyStateView::Read { size, offset }).next(names, CopyEventView::Failed(f)) == (
        CopyStateView::CloseDest { outcome: Err(f.error(names.table, "copy (read)"@)) }),
        (CopyStateView::Write { size, offset, read, written }).next(
            names,
            CopyEventView::Failed(f),
        ) == (CopyStateView::CloseDest { outcome: Err(f.error(names.table, "copy (write)"@)) }),
        !means_unsupported(f.nterror) ==> (CopyStateView::RequestKey { size }).next(
            names,
            CopyEventView::Failed(f),
        ) == (CopyStateView::CloseDest { outcome: Err(f.error(names.table, "copy"@)) }),
        !means_unsupported(f.nterror) && (reply.chunk_bytes_written == 0
            || reply.chunk_bytes_written >= chunk_bytes) ==> (CopyStateView::Chunk {
            size,
            offset,
            chunk_bytes,
        }).next(names, CopyEventView::Refused(reply, f)) == (CopyStateView::CloseDest {
            outcome: Err(f.error(names.table, "copy"@)),
        }),
{
}

/// A server that names a smaller limit is asked again from the same place, with
/// that limit; one that names none, or a larger one, is not.
pub proof fn a_smaller_limit_is_adopted(
    names: CopyNames,
    f: FailureView,
    size: u64,
    offset: u64,
    chunk_bytes: u32,
    reply: ffi::smb2_srv_copychunk_reply,
)
    ensures
        ({
            let after = (CopyStateView::Chunk { size, offset, chunk_bytes }).next(
                names,
                CopyEventView::Refused(reply, f),
            );
            after is Chunk <==> 0 < reply.chunk_bytes_written < chunk_bytes
        }),
        0 < reply.chunk_bytes_written < chunk_bytes ==> (CopyStateView::Chunk {
            size,
            offset,
            chunk_bytes,
        }).next(names, CopyEventView::Refused(reply, f)) == (CopyStateView::Chunk {
            size,
            offset,
            chunk_bytes: reply.chunk_bytes_written,
        }),
{
}

/// The three statuses of a server that has no copies of its own, by their
/// numbers, and no other.
pub proof fn three_statuses_mean_no_server_side_copy(status: u32, r: bool)
    requires
        call_ensures(is_copy_unsupported, (status,), r),
    ensures
        r <==> status == 0xC000_00BB || status == 0xC000_0010 || status == 0xC000_0057,
{
}

/// A copy is made from the first path to the second, and its errors name them so.
pub proof fn a_copy_goes_from_the_first_path_to_the_second(
    from: VfsPath,
    to: VfsPath,
    table: Errnos,
    r: Result<CopyFile, Error>,
    source: &str,
    destination: &str,
)
    requires
        call_ensures(CopyFile::new, (&from, &to, table), r),
        r matches Ok(copy) ==> call_ensures(CopyFile::source, (&copy,), source) && call_ensures(
            CopyFile::destination,
            (&copy,),
            destination,
        ),
    ensures
        r is Ok <==> !path::rendered(from@).contains('\0') && !path::rendered(to@).contains('\0'),
        r matches Ok(copy) ==> {
            &&& seq!['/'] + source@ == path::rendered(from@)
            &&& seq!['/'] + destination@ == path::rendered(to@)
            &&& copy.names().from == path::rendered(from@)
            &&& copy.names().to == path::rendered(to@)
            &&& copy.names().table == table
        },
{
    smb_path::only_the_leading_slash_goes(from@);
    smb_path::only_the_leading_slash_goes(to@);
}

/// A copy opens its source for reading and nothing else, creates its destination
/// or fails, and asks for the control that makes do with a destination that can
/// only be written.
pub proof fn a_copy_never_overwrites(source: OpenMode, destination: OpenMode, code: u32)
    requires
        call_ensures(source_mode, (), source),
        call_ensures(destination_mode, (), destination),
        call_ensures(control_code, (), code),
    ensures
        source@.read && !source@.write && !source@.create && !source@.truncate,
        destination@.write && destination@.create && destination@.create_new,
        forall|before: Seq<u8>| backend::opened(Some(before), destination@) is None,
        backend::opened(None, destination@) == Some(Seq::<u8>::empty()),
        code == 0x0014_80F2,
{
}

} // verus!
