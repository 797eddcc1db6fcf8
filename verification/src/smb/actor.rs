//! The session: what each request asks of the server, and what its answer means.
//!
//! A session belongs to one thread. Callers send it requests; the thread hands
//! each to [`Actor::receive`], which either answers at once or names the one
//! call to make on the client library, and hands the call's answer to
//! [`Actor::finish`].
//!
//! A handle of the client library never leaves the thread: callers get an opaque
//! id, and [`OpenFiles`] is the table that maps one to the other.

use vstd::prelude::*;
use crate::backend::{OpenMode, OpenModeView};
use crate::entry::{Entry, EntryKind, EntryView, Metadata, Timestamp, NANOS_PER_SEC};
use crate::error::{Error, ErrorView};
use crate::listing;
use crate::path::{self, VfsPath};
use crate::smb::copy::{CopyFile, CopyNames, CopyStateView};
use crate::smb::error::{self, Errnos, Failure};
use crate::smb::ffi;
use crate::smb::files::{self, OpenFiles};
use crate::smb::path as smb_path;
use crate::text;

verus! {

/// What an SMB session settled on, for showing to a user.
#[derive(Debug, Clone, Copy, PartialEq, Eq, Structural)]
pub struct SmbInfo {
    /// The negotiated dialect, in SMB's numbering: `0x0311` is SMB 3.1.1,
    /// `0x0202` is SMB 2.0.2.
    pub dialect: u16,
    /// Largest single read the connection allows.
    pub max_read_size: u32,
    pub max_write_size: u32,
}

// ---------------------------------------------------------------------------
// Metadata
// ---------------------------------------------------------------------------

/// What a timestamp of the client library stands for. Zero is "not reported",
/// and nanoseconds that make up a second or more are nonsense, so they are left
/// out.
pub open spec fn reported_time(secs: u64, nsecs: u64) -> Option<Timestamp> {
    if secs == 0 || secs > i64::MAX {
        None
    } else {
        Some(
            Timestamp {
                secs: secs as i64,
                nanos: if nsecs < NANOS_PER_SEC {
                    nsecs as u32
                } else {
                    0
                },
            },
        )
    }
}

/// Convert a timestamp of the client library, treating zero as "not reported".
///
/// SMB reports unset timestamps as zero, which would otherwise render as 1970
/// and look like a real, if implausible, answer. A server sending nonsensical
/// nanoseconds must not take down the session thread over a cosmetic field.
pub fn timestamp(secs: u64, nsecs: u64) -> (r: Option<Timestamp>)
    ensures
        r == reported_time(secs, nsecs),
        r matches Some(t) ==> t.wf(),
{
    if secs == 0 || secs > i64::MAX as u64 {
        return None;
    }
    let nanos: u32 = if nsecs < NANOS_PER_SEC as u64 {
        nsecs as u32
    } else {
        0
    };
    Some(Timestamp { secs: secs as i64, nanos })
}

/// The portable kind of an entry.
pub open spec fn kind_of_type(smb2_type: u32) -> EntryKind {
    if smb2_type == ffi::SMB2_TYPE_DIRECTORY {
        EntryKind::Directory
    } else if smb2_type == ffi::SMB2_TYPE_FILE {
        EntryKind::File
    } else if smb2_type == ffi::SMB2_TYPE_LINK {
        EntryKind::Symlink
    } else {
        EntryKind::Other
    }
}

/// The portable metadata of an entry.
pub open spec fn portable(st: ffi::smb2_stat_64) -> Metadata {
    Metadata {
        kind: kind_of_type(st.smb2_type),
        len: st.smb2_size,
        modified: reported_time(st.smb2_mtime, st.smb2_mtime_nsec),
        created: reported_time(st.smb2_btime, st.smb2_btime_nsec),
        accessed: reported_time(st.smb2_atime, st.smb2_atime_nsec),
        read_only: st.smb2_attributes & ffi::SMB2_FILE_ATTRIBUTE_READONLY != 0,
    }
}

/// Translate the client library's metadata into the portable model.
///
/// This is the boundary that keeps protocol attributes from leaking upward.
pub fn metadata_from_stat(st: &ffi::smb2_stat_64) -> (r: Metadata)
    ensures
        r == portable(*st),
{
    Metadata {
        kind: if st.smb2_type == ffi::SMB2_TYPE_DIRECTORY {
            EntryKind::Directory
        } else if st.smb2_type == ffi::SMB2_TYPE_FILE {
            EntryKind::File
        } else if st.smb2_type == ffi::SMB2_TYPE_LINK {
            EntryKind::Symlink
        } else {
            // FIFOs, devices and sockets have no portable equivalent.
            EntryKind::Other
        },
        len: st.smb2_size,
        modified: timestamp(st.smb2_mtime, st.smb2_mtime_nsec),
        created: timestamp(st.smb2_btime, st.smb2_btime_nsec),
        accessed: timestamp(st.smb2_atime, st.smb2_atime_nsec),
        read_only: st.smb2_attributes & ffi::SMB2_FILE_ATTRIBUTE_READONLY != 0,
    }
}

// ---------------------------------------------------------------------------
// Open flags
// ---------------------------------------------------------------------------

/// The platform's open flags. The client library interprets whatever number it
/// receives by the constants it was compiled against, so they have to be the
/// *target's* values.
#[derive(Clone, Copy, PartialEq, Eq, Debug, Structural)]
pub struct OpenBits {
    pub rdonly: i32,
    pub wronly: i32,
    pub rdwr: i32,
    pub creat: i32,
    pub excl: i32,
    pub trunc: i32,
}

impl OpenBits {
    /// Whether flags made of these bits can be told apart again: the access
    /// modes differ, and creating, insisting on it and truncating each have bits
    /// of their own.
    pub open spec fn apart(self) -> bool {
        &&& self.rdonly != self.wronly
        &&& self.rdonly != self.rdwr
        &&& self.wronly != self.rdwr
        &&& self.creat != 0
        &&& self.excl != 0
        &&& self.trunc != 0
        &&& self.creat & (self.rdonly | self.wronly | self.rdwr | self.excl | self.trunc) == 0
        &&& self.excl & (self.rdonly | self.wronly | self.rdwr | self.creat | self.trunc) == 0
        &&& self.trunc & (self.rdonly | self.wronly | self.rdwr | self.creat | self.excl) == 0
    }
}

/// Reads the constants `O_RDONLY`, `O_WRONLY`, `O_RDWR`, `O_CREAT`, `O_EXCL` and
/// `O_TRUNC` of the `libc` crate.
///
/// Their values are the platform's. What is claimed of them holds on every
/// platform: the access modes differ from each other, and the three flags share
/// no bit with them nor among themselves. Which values they are is left unsaid.
#[verifier::external_body]
pub(crate) fn platform_open_bits() -> (r: OpenBits)
    ensures
        r.apart(),
{
    OpenBits {
        rdonly: libc::O_RDONLY,
        wronly: libc::O_WRONLY,
        rdwr: libc::O_RDWR,
        creat: libc::O_CREAT,
        excl: libc::O_EXCL,
        trunc: libc::O_TRUNC,
    }
}

/// The flags for an open mode.
pub open spec fn flags_for(bits: OpenBits, mode: OpenModeView) -> i32 {
    let access = if mode.read && mode.write {
        bits.rdwr
    } else if mode.write {
        bits.wronly
    } else {
        bits.rdonly
    };
    let creating = if mode.create {
        access | bits.creat
    } else {
        access
    };
    let exclusive = if mode.create_new {
        creating | bits.excl
    } else {
        creating
    };
    if mode.truncate {
        exclusive | bits.trunc
    } else {
        exclusive
    }
}

/// Translate an [`OpenMode`] into flags, given the values of the bits.
pub fn open_flags_with(bits: &OpenBits, mode: OpenMode) -> (r: i32)
    ensures
        r == flags_for(*bits, mode@),
{
    let mut flags: i32 = if mode.is_write() {
        if mode.is_read() {
            bits.rdwr
        } else {
            bits.wronly
        }
    } else {
        // Neither was requested, which the mode constructors do not produce;
        // opening read-only is the harmless reading of an impossible input.
        bits.rdonly
    };
    if mode.creates() {
        flags = flags | bits.creat;
    }
    if mode.must_not_exist() {
        flags = flags | bits.excl;
    }
    if mode.truncates() {
        flags = flags | bits.trunc;
    }
    flags
}

/// Translate an [`OpenMode`] into the flags the client library expects.
pub fn open_flags(mode: OpenMode) -> (r: i32)
    ensures
        exists|bits: OpenBits| bits.apart() && r == #[trigger] flags_for(bits, mode@),
{
    open_flags_with(&platform_open_bits(), mode)
}

/// Creation, exclusive creation and truncation are asked for by the modes that
/// say so, and by no other.
pub proof fn no_flag_is_set_unasked(bits: OpenBits, mode: OpenModeView)
    requires
        bits.apart(),
    ensures
        mode.create <==> flags_for(bits, mode) & bits.creat != 0,
        mode.create_new <==> flags_for(bits, mode) & bits.excl != 0,
        mode.truncate <==> flags_for(bits, mode) & bits.trunc != 0,
{
    let (r, w, rw) = (bits.rdonly, bits.wronly, bits.rdwr);
    let (c, x, t) = (bits.creat, bits.excl, bits.trunc);
    let a = if mode.read && mode.write {
        rw
    } else if mode.write {
        w
    } else {
        r
    };
    let c1 = if mode.create {
        c
    } else {
        0
    };
    let x1 = if mode.create_new {
        x
    } else {
        0
    };
    let t1 = if mode.truncate {
        t
    } else {
        0
    };
    assert(a | 0 == a && (a | c1) | 0 == a | c1 && ((a | c1) | x1) | 0 == (a | c1) | x1)
        by (bit_vector);
    let flags = ((a | c1) | x1) | t1;
    assert(flags == flags_for(bits, mode));
    assert((flags & c == c1) && (flags & x == x1) && (flags & t == t1)) by (bit_vector)
        requires
            flags == ((a | c1) | x1) | t1,
            a == r || a == w || a == rw,
            c1 == c || c1 == 0,
            x1 == x || x1 == 0,
            t1 == t || t1 == 0,
            c & (r | w | rw | x | t) == 0,
            x & (r | w | rw | c | t) == 0,
            t & (r | w | rw | c | x) == 0,
    ;
}

// ---------------------------------------------------------------------------
// Listings
// ---------------------------------------------------------------------------

/// A directory entry as the server enumerated it.
pub struct RawEntry {
    pub name: String,
    pub st: ffi::smb2_stat_64,
}

/// The portable view of an enumerated entry.
pub open spec fn entry_of(raw: RawEntry) -> EntryView {
    EntryView { name: raw.name@, metadata: portable(raw.st) }
}

/// Whether a name is the entry for the directory itself or for its parent.
pub open spec fn is_self_or_parent(name: Seq<char>) -> bool {
    name == "."@ || name == ".."@
}

/// The enumerated entries that belong in a listing, in the order they came.
pub open spec fn listed(raw: Seq<RawEntry>) -> Seq<EntryView>
    decreases raw.len(),
{
    if raw.len() == 0 {
        Seq::empty()
    } else if is_self_or_parent(raw.last().name@) {
        listed(raw.drop_last())
    } else {
        listed(raw.drop_last()).push(entry_of(raw.last()))
    }
}

/// Turns what the server enumerated into a listing.
///
/// SMB listings include the self and parent entries. No portable notion of a
/// directory listing does, so they are dropped. The rest is sorted by name.
pub fn list_entries(raw: Vec<RawEntry>) -> (r: Vec<Entry>)
    ensures
        listing::views(r@) == listing::by_name(listed(raw@)),
{
    let ghost all = raw@;
    let mut entries: Vec<Entry> = Vec::new();
    assert(listing::views(entries@) =~= listed(all.take(0)));
    for e in it: raw
        invariant
            it.seq() == all,
            listing::views(entries@) == listed(all.take(it.index())),
    {
        proof {
            assert(all.take(it.index() + 1).drop_last() =~= all.take(it.index()));
            assert(all.take(it.index() + 1).last() == e);
        }
        if !(text::same_text(&e.name, ".") || text::same_text(&e.name, "..")) {
            let ghost before = listing::views(entries@);
            entries.push(Entry { metadata: metadata_from_stat(&e.st), name: e.name });
            assert(listing::views(entries@) =~= before.push(entry_of(e)));
        }
    }
    assert(all.take(all.len() as int) =~= all);
    listing::sort_entries(entries)
}

/// A listing holds neither the directory itself nor its parent.
pub proof fn listings_hold_neither_self_nor_parent(raw: Seq<RawEntry>, i: int)
    requires
        0 <= i < listed(raw).len(),
    ensures
        !is_self_or_parent(listed(raw)[i].name),
    decreases raw.len(),
{
    if raw.len() > 0 {
        let before = listed(raw.drop_last());
        if i < before.len() {
            listings_hold_neither_self_nor_parent(raw.drop_last(), i);
        }
    }
}

// ---------------------------------------------------------------------------
// Requests, calls and replies
// ---------------------------------------------------------------------------

/// Work sent to the session.
pub enum Request {
    List { path: VfsPath },
    Stat { path: VfsPath },
    Mkdir { path: VfsPath },
    RemoveFile { path: VfsPath },
    RemoveDir { path: VfsPath },
    Rename { from: VfsPath, to: VfsPath },
    Copy { from: VfsPath, to: VfsPath },
    Open { path: VfsPath, mode: OpenMode },
    Close { id: u64 },
    ReadAt { id: u64, offset: u64, len: u32 },
    WriteAt { id: u64, offset: u64, data: Vec<u8> },
    SetLen { id: u64, len: u64 },
    Flush { id: u64 },
    Shutdown,
}

/// A call to make on the client library. `path` is share-relative and ready to
/// be handed over; `label` is what an error is to be reported against.
pub enum Call<H> {
    List { path: String, label: String },
    Stat { path: String, label: String },
    Mkdir { path: String, label: String },
    Unlink { path: String, label: String },
    Rmdir { path: String, label: String },
    Rename { from: String, to: String, label: String },
    Copy { copy: CopyFile },
    Open { path: String, flags: i32, label: String },
    Close { handle: H, id: u64 },
    Read { handle: H, offset: u64, len: u32 },
    Write { handle: H, offset: u64, data: Vec<u8> },
    Truncate { handle: H, len: u64 },
    Sync { handle: H },
}

/// A [`Call`] with texts.
#[verifier::ext_equal]
pub enum CallView<H> {
    List { path: Seq<char>, label: Seq<char> },
    Stat { path: Seq<char>, label: Seq<char> },
    Mkdir { path: Seq<char>, label: Seq<char> },
    Unlink { path: Seq<char>, label: Seq<char> },
    Rmdir { path: Seq<char>, label: Seq<char> },
    Rename { from: Seq<char>, to: Seq<char>, label: Seq<char> },
    Copy { paths: (Seq<char>, Seq<char>), names: CopyNames, state: CopyStateView },
    Open { path: Seq<char>, flags: i32, label: Seq<char> },
    Close { handle: H, id: u64 },
    Read { handle: H, offset: u64, len: u32 },
    Write { handle: H, offset: u64, data: Seq<u8> },
    Truncate { handle: H, len: u64 },
    Sync { handle: H },
}

impl<H> View for Call<H> {
    type V = CallView<H>;

    open spec fn view(&self) -> CallView<H> {
        match *self {
            Call::List { path, label } => CallView::List { path: path@, label: label@ },
            Call::Stat { path, label } => CallView::Stat { path: path@, label: label@ },
            Call::Mkdir { path, label } => CallView::Mkdir { path: path@, label: label@ },
            Call::Unlink { path, label } => CallView::Unlink { path: path@, label: label@ },
            Call::Rmdir { path, label } => CallView::Rmdir { path: path@, label: label@ },
            Call::Rename { from, to, label } => CallView::Rename {
                from: from@,
                to: to@,
                label: label@,
            },
            Call::Copy { copy } => CallView::Copy {
                paths: copy.paths(),
                names: copy.names(),
                state: copy.state(),
            },
            Call::Open { path, flags, label } => CallView::Open {
                path: path@,
                flags,
                label: label@,
            },
            Call::Close { handle, id } => CallView::Close { handle, id },
            Call::Read { handle, offset, len } => CallView::Read { handle, offset, len },
            Call::Write { handle, offset, data } => CallView::Write { handle, offset, data: data@ },
            Call::Truncate { handle, len } => CallView::Truncate { handle, len },
            Call::Sync { handle } => CallView::Sync { handle },
        }
    }
}

/// How a call went.
pub enum Answer<H> {
    /// It succeeded and there is nothing more to say.
    Done,
    Entries(Vec<RawEntry>),
    Stat(ffi::smb2_stat_64),
    /// A file was opened; its size is there where it could be had.
    Opened { handle: H, size: Option<u64> },
    Bytes(Vec<u8>),
    Count(usize),
    /// The outcome of a whole copy.
    Copied(Result<u64, Error>),
    Failed(Failure),
}

impl<H> Answer<H> {
    pub open spec fn wf(&self) -> bool {
        *self matches Answer::Failed(f) ==> f.wf()
    }
}

/// What a caller gets back.
pub enum Reply {
    Entries(Result<Vec<Entry>, Error>),
    Metadata(Result<Metadata, Error>),
    Done(Result<(), Error>),
    /// Bytes copied.
    Copied(Result<u64, Error>),
    /// Handle id, and size in bytes.
    Opened(Result<(u64, u64), Error>),
    Bytes(Result<Vec<u8>, Error>),
    Written(Result<usize, Error>),
    Stopped,
}

/// A [`Reply`] with views.
#[verifier::ext_equal]
pub enum ReplyView {
    Entries(Result<Seq<EntryView>, ErrorView>),
    Metadata(Result<Metadata, ErrorView>),
    Done(Result<(), ErrorView>),
    Copied(Result<u64, ErrorView>),
    Opened(Result<(u64, u64), ErrorView>),
    Bytes(Result<Seq<u8>, ErrorView>),
    Written(Result<usize, ErrorView>),
    Stopped,
}

/// A result with the view of its error.
pub open spec fn with_error_view<T>(r: Result<T, Error>) -> Result<T, ErrorView> {
    match r {
        Ok(v) => Ok(v),
        Err(e) => Err(e@),
    }
}

impl View for Reply {
    type V = ReplyView;

    open spec fn view(&self) -> ReplyView {
        match *self {
            Reply::Entries(r) => ReplyView::Entries(
                match r {
                    Ok(v) => Ok(listing::views(v@)),
                    Err(e) => Err(e@),
                },
            ),
            Reply::Metadata(r) => ReplyView::Metadata(with_error_view(r)),
            Reply::Done(r) => ReplyView::Done(with_error_view(r)),
            Reply::Copied(r) => ReplyView::Copied(with_error_view(r)),
            Reply::Opened(r) => ReplyView::Opened(with_error_view(r)),
            Reply::Bytes(r) => ReplyView::Bytes(
                match r {
                    Ok(v) => Ok(v@),
                    Err(e) => Err(e@),
                },
            ),
            Reply::Written(r) => ReplyView::Written(with_error_view(r)),
            Reply::Stopped => ReplyView::Stopped,
        }
    }
}

/// What a request leads to.
pub enum Step<H> {
    /// The answer is known without the server.
    Reply(Reply),
    Call(Call<H>),
}

/// A [`Step`] with views.
#[verifier::ext_equal]
pub enum StepView<H> {
    Reply(ReplyView),
    Call(CallView<H>),
}

impl<H> View for Step<H> {
    type V = StepView<H>;

    open spec fn view(&self) -> StepView<H> {
        match *self {
            Step::Reply(r) => StepView::Reply(r@),
            Step::Call(c) => StepView::Call(c@),
        }
    }
}

// ---------------------------------------------------------------------------
// Model
// ---------------------------------------------------------------------------

/// The platform values a session works with.
#[derive(Clone, Copy, PartialEq, Eq, Debug, Structural)]
pub struct Platform {
    pub errnos: Errnos,
    pub bits: OpenBits,
}

/// Which reply a request gets for an error.
pub open spec fn refusal(request: &Request, e: ErrorView) -> ReplyView {
    match *request {
        Request::List { .. } => ReplyView::Entries(Err(e)),
        Request::Stat { .. } => ReplyView::Metadata(Err(e)),
        Request::Copy { .. } => ReplyView::Copied(Err(e)),
        Request::Open { .. } => ReplyView::Opened(Err(e)),
        Request::ReadAt { .. } => ReplyView::Bytes(Err(e)),
        Request::WriteAt { .. } => ReplyView::Written(Err(e)),
        _ => ReplyView::Done(Err(e)),
    }
}

/// What a request for a path leads to, given the call for a path that can be
/// handed over.
pub open spec fn on_path<H>(
    request: &Request,
    segs: Seq<Seq<char>>,
    call: spec_fn(Seq<char>) -> CallView<H>,
) -> StepView<H> {
    match smb_path::handed_over(segs) {
        Ok(p) => StepView::Call(call(p)),
        Err(e) => StepView::Reply(refusal(request, e)),
    }
}

/// What a request for two paths leads to, given the call for paths that can both
/// be handed over.
pub open spec fn on_paths<H>(
    request: &Request,
    from: Seq<Seq<char>>,
    to: Seq<Seq<char>>,
    call: spec_fn(Seq<char>, Seq<char>) -> CallView<H>,
) -> StepView<H> {
    match (smb_path::handed_over(from), smb_path::handed_over(to)) {
        (Ok(p), Ok(q)) => StepView::Call(call(p, q)),
        (Err(e), _) => StepView::Reply(refusal(request, e)),
        (Ok(_), Err(e)) => StepView::Reply(refusal(request, e)),
    }
}

/// What a request for an open file leads to, given the call for its handle.
pub open spec fn on_handle<H>(
    request: &Request,
    files: Map<u64, H>,
    id: u64,
    operation: Seq<char>,
    call: spec_fn(H) -> CallView<H>,
) -> StepView<H> {
    if files.contains_key(id) {
        StepView::Call(call(files[id]))
    } else {
        StepView::Reply(refusal(request, files::not_open(operation)))
    }
}

/// What a request leads to.
pub open spec fn received<H>(
    platform: Platform,
    files: Map<u64, H>,
    request: &Request,
) -> StepView<H> {
    match *request {
        Request::List { path } => on_path(
            request,
            path@,
            |p: Seq<char>| CallView::List { path: p, label: path::rendered(path@) },
        ),
        Request::Stat { path } => on_path(
            request,
            path@,
            |p: Seq<char>| CallView::Stat { path: p, label: path::rendered(path@) },
        ),
        Request::Mkdir { path } => on_path(
            request,
            path@,
            |p: Seq<char>| CallView::Mkdir { path: p, label: path::rendered(path@) },
        ),
        Request::RemoveFile { path } => on_path(
            request,
            path@,
            |p: Seq<char>| CallView::Unlink { path: p, label: path::rendered(path@) },
        ),
        Request::RemoveDir { path } => on_path(
            request,
            path@,
            |p: Seq<char>| CallView::Rmdir { path: p, label: path::rendered(path@) },
        ),
        Request::Rename { from, to } => on_paths(
            request,
            from@,
            to@,
            |p: Seq<char>, q: Seq<char>|
                CallView::Rename { from: p, to: q, label: path::rendered(from@) },
        ),
        Request::Copy { from, to } => on_paths(
            request,
            from@,
            to@,
            |p: Seq<char>, q: Seq<char>|
                CallView::Copy {
                    paths: (p, q),
                    names: (CopyNames {
                        from: path::rendered(from@),
                        to: path::rendered(to@),
                        table: platform.errnos,
                    }),
                    state: CopyStateView::OpenSource,
                },
        ),
        Request::Open { path, mode } => on_path(
            request,
            path@,
            |p: Seq<char>|
                CallView::Open {
                    path: p,
                    flags: flags_for(platform.bits, mode@),
                    label: path::rendered(path@),
                },
        ),
        Request::Close { id } => if files.contains_key(id) {
            StepView::Call(CallView::Close { handle: files[id], id })
        } else {
            StepView::Reply(ReplyView::Done(Ok(())))
        },
        Request::ReadAt { id, offset, len } => on_handle(
            request,
            files,
            id,
            "read"@,
            |handle: H| CallView::Read { handle, offset, len },
        ),
        Request::WriteAt { id, offset, data } => on_handle(
            request,
            files,
            id,
            "write"@,
            |handle: H| CallView::Write { handle, offset, data: data@ },
        ),
        Request::SetLen { id, len } => on_handle(
            request,
            files,
            id,
            "truncate"@,
            |handle: H| CallView::Truncate { handle, len },
        ),
        Request::Flush { id } => on_handle(
            request,
            files,
            id,
            "flush"@,
            |handle: H| CallView::Sync { handle },
        ),
        Request::Shutdown => StepView::Reply(ReplyView::Stopped),
    }
}

/// The error for a request that comes after the end of the session.
pub open spec fn session_over() -> ErrorView {
    ErrorView::ConnectionLost { message: "the SMB session thread has exited"@ }
}

/// What a request leads to, whether the session is still running or not.
pub open spec fn taken_in<H>(
    running: bool,
    platform: Platform,
    files: Map<u64, H>,
    request: &Request,
) -> StepView<H> {
    if running {
        received(platform, files, request)
    } else {
        StepView::Reply(refusal(request, session_over()))
    }
}

/// The open files once a request was received: closing takes the file out
/// before the server is asked, so that no handle can be closed twice.
pub open spec fn files_then<H>(files: Map<u64, H>, request: &Request) -> Map<u64, H> {
    match *request {
        Request::Close { id } => files.remove(id),
        _ => files,
    }
}

/// Which answers a call can get.
pub open spec fn fits<H>(call: CallView<H>, answer: &Answer<H>) -> bool {
    match call {
        CallView::List { .. } => answer is Entries || answer is Failed,
        CallView::Stat { .. } => answer is Stat || answer is Failed,
        CallView::Copy { .. } => answer is Copied,
        CallView::Open { .. } => answer is Opened || answer is Failed,
        CallView::Read { .. } => answer is Bytes || answer is Failed,
        CallView::Write { .. } => answer is Count || answer is Failed,
        _ => answer is Done || answer is Failed,
    }
}

/// What a failed call is reported against.
pub open spec fn label_of<H>(call: CallView<H>) -> Seq<char> {
    match call {
        CallView::List { label, .. }
        | CallView::Stat { label, .. }
        | CallView::Mkdir { label, .. }
        | CallView::Unlink { label, .. }
        | CallView::Rmdir { label, .. }
        | CallView::Rename { label, .. }
        | CallView::Open { label, .. } => label,
        CallView::Copy { .. } => Seq::empty(),
        CallView::Close { id, .. } => "file handle "@ + text::decimal(id as nat),
        CallView::Read { .. } => "read"@,
        CallView::Write { .. } => "write"@,
        CallView::Truncate { .. } => "truncate"@,
        CallView::Sync { .. } => "flush"@,
    }
}

/// What a caller gets for the answer to a call, where `next_id` is the id for a
/// file that was opened.
pub open spec fn finished<H>(
    platform: Platform,
    next_id: u64,
    call: CallView<H>,
    answer: &Answer<H>,
) -> ReplyView {
    let failed = match *answer {
        Answer::Failed(f) => Some(f@.error(platform.errnos, label_of(call))),
        _ => None,
    };
    match call {
        CallView::List { .. } => ReplyView::Entries(
            match *answer {
                Answer::Entries(raw) => Ok(listing::by_name(listed(raw@))),
                _ => Err(failed->0),
            },
        ),
        CallView::Stat { .. } => ReplyView::Metadata(
            match *answer {
                Answer::Stat(st) => Ok(portable(st)),
                _ => Err(failed->0),
            },
        ),
        CallView::Copy { .. } => ReplyView::Copied(
            match *answer {
                Answer::Copied(r) => with_error_view(r),
                _ => Err(failed->0),
            },
        ),
        CallView::Open { .. } => ReplyView::Opened(
            match *answer {
                Answer::Opened { size, .. } => Ok(
                    (
                        next_id,
                        match size {
                            Some(n) => n,
                            None => 0,
                        },
                    ),
                ),
                _ => Err(failed->0),
            },
        ),
        CallView::Read { .. } => ReplyView::Bytes(
            match *answer {
                Answer::Bytes(data) => Ok(data@),
                _ => Err(failed->0),
            },
        ),
        CallView::Write { .. } => ReplyView::Written(
            match *answer {
                Answer::Count(n) => Ok(n),
                _ => Err(failed->0),
            },
        ),
        _ => ReplyView::Done(
            match *answer {
                Answer::Failed(_) => Err(failed->0),
                _ => Ok(()),
            },
        ),
    }
}

/// The open files once a call was answered.
pub open spec fn files_after<H>(
    files: Map<u64, H>,
    next_id: u64,
    answer: &Answer<H>,
) -> Map<u64, H> {
    match *answer {
        Answer::Opened { handle, .. } => files.insert(next_id, handle),
        _ => files,
    }
}

// ---------------------------------------------------------------------------
// The actor
// ---------------------------------------------------------------------------

/// The reply that refuses a request.
fn refused(request: &Request, e: Error) -> (r: Reply)
    ensures
        r@ == refusal(request, e@),
{
    match request {
        Request::List { .. } => Reply::Entries(Err(e)),
        Request::Stat { .. } => Reply::Metadata(Err(e)),
        Request::Copy { .. } => Reply::Copied(Err(e)),
        Request::Open { .. } => Reply::Opened(Err(e)),
        Request::ReadAt { .. } => Reply::Bytes(Err(e)),
        Request::WriteAt { .. } => Reply::Written(Err(e)),
        _ => Reply::Done(Err(e)),
    }
}

/// A session's state between requests.
pub struct Actor<H> {
    files: OpenFiles<H>,
    platform: Platform,
    running: bool,
}

/// An [`Actor`] as plain values.
#[verifier::ext_equal]
pub struct ActorView<H> {
    /// The handle behind each id.
    pub files: Map<u64, H>,
    /// The last id that was handed out.
    pub last_id: u64,
    pub platform: Platform,
    /// Whether requests are still served.
    pub running: bool,
}

impl<H> ActorView<H> {
    /// A session with nothing open, on a given platform.
    pub open spec fn start(platform: Platform) -> ActorView<H> {
        ActorView { files: Map::empty(), last_id: 0, platform, running: true }
    }

    /// What a request leads to.
    pub open spec fn receives(self, request: &Request) -> StepView<H> {
        taken_in(self.running, self.platform, self.files, request)
    }

    /// The session after a request was received.
    pub open spec fn then_received(self, request: &Request) -> ActorView<H> {
        ActorView {
            files: if self.running {
                files_then(self.files, request)
            } else {
                self.files
            },
            running: self.running && !(request is Shutdown),
            ..self
        }
    }

    /// The session after a call was answered.
    pub open spec fn then_answered(self, answer: &Answer<H>) -> ActorView<H> {
        let last_id = if answer is Opened {
            (self.last_id + 1) as u64
        } else {
            self.last_id
        };
        ActorView { files: files_after(self.files, last_id, answer), last_id, ..self }
    }
}

/// Whether `list` holds every open file, once and with its id, and nothing else.
pub open spec fn lists<H>(files: Map<u64, H>, list: Seq<(u64, H)>) -> bool {
    &&& list.len() == files.len()
    &&& forall|i: int, j: int|
        0 <= i < j < list.len() ==> (#[trigger] list[i]).0 != (#[trigger] list[j]).0
    &&& forall|i: int|
        0 <= i < list.len() ==> files.contains_key((#[trigger] list[i]).0) && list[i].1
            == files[list[i].0]
    &&& forall|id: u64|
        files.contains_key(id) ==> exists|i: int|
            0 <= i < list.len() && (#[trigger] list[i]).0 == id
}

impl<H: Copy> View for Actor<H> {
    type V = ActorView<H>;

    open spec fn view(&self) -> ActorView<H> {
        ActorView {
            files: self.open_files(),
            last_id: self.last_id(),
            platform: self.platform(),
            running: self.running(),
        }
    }
}

impl<H: Copy> Actor<H> {
    /// The handle behind each id.
    pub closed spec fn open_files(&self) -> Map<u64, H> {
        self.files@
    }

    /// The last id that was handed out.
    pub closed spec fn last_id(&self) -> u64 {
        self.files.last_id()
    }

    /// The platform values this session works with.
    pub closed spec fn platform(&self) -> Platform {
        self.platform
    }

    /// Whether requests are still served: until the session is shut down.
    pub closed spec fn running(&self) -> bool {
        self.running
    }

    /// A session with nothing open, on a given platform.
    pub fn on(platform: Platform) -> (r: Self)
        ensures
            r.open_files() == Map::<u64, H>::empty(),
            r.last_id() == 0,
            r.platform() == platform,
            r.running(),
    {
        Actor { files: OpenFiles::new(), platform, running: true }
    }

    /// A session with nothing open.
    pub fn new() -> (r: Self)
        ensures
            r.open_files() == Map::<u64, H>::empty(),
            r.last_id() == 0,
            r.platform().bits.apart(),
            r.platform().errnos.apart(),
            r.running(),
    {
        Actor::on(Platform { errnos: error::platform_errnos(), bits: platform_open_bits() })
    }

    /// Whether requests are still served: until the session is shut down.
    pub fn is_running(&self) -> (r: bool)
        ensures
            r == self.running(),
    {
        self.running
    }

    /// The `errno` values this session classifies failures by.
    pub fn errnos(&self) -> (r: Errnos)
        ensures
            r == self.platform().errnos,
    {
        self.platform.errnos
    }

    /// Whether another file can be opened.
    pub fn has_room(&self) -> (r: bool)
        ensures
            r == (self.last_id() < u64::MAX),
    {
        self.files.has_room()
    }

    /// Takes in a request: answers it, or names the one call to make.
    ///
    /// A shutdown is the last request that is served. Whatever comes after it is
    /// refused, and reaches no server.
    pub fn receive(&mut self, request: Request) -> (r: Step<H>)
        ensures
            r@ == taken_in(
                old(self).running(),
                old(self).platform(),
                old(self).open_files(),
                &request,
            ),
            final(self).open_files() == if old(self).running() {
                files_then(old(self).open_files(), &request)
            } else {
                old(self).open_files()
            },
            final(self).running() == (old(self).running() && !(request is Shutdown)),
            final(self).last_id() == old(self).last_id(),
            final(self).platform() == old(self).platform(),
    {
        if !self.running {
            let e = Error::connection_lost("the SMB session thread has exited");
            return Step::Reply(refused(&request, e));
        }
        match request {
            Request::List { path } => match smb_path::smb_path(&path) {
                Ok(p) => Step::Call(Call::List { path: p, label: path.to_string() }),
                Err(e) => Step::Reply(Reply::Entries(Err(e))),
            },
            Request::Stat { path } => match smb_path::smb_path(&path) {
                Ok(p) => Step::Call(Call::Stat { path: p, label: path.to_string() }),
                Err(e) => Step::Reply(Reply::Metadata(Err(e))),
            },
            Request::Mkdir { path } => match smb_path::smb_path(&path) {
                Ok(p) => Step::Call(Call::Mkdir { path: p, label: path.to_string() }),
                Err(e) => Step::Reply(Reply::Done(Err(e))),
            },
            Request::RemoveFile { path } => match smb_path::smb_path(&path) {
                Ok(p) => Step::Call(Call::Unlink { path: p, label: path.to_string() }),
                Err(e) => Step::Reply(Reply::Done(Err(e))),
            },
            Request::RemoveDir { path } => match smb_path::smb_path(&path) {
                Ok(p) => Step::Call(Call::Rmdir { path: p, label: path.to_string() }),
                Err(e) => Step::Reply(Reply::Done(Err(e))),
            },
            Request::Rename { from, to } => match (
                smb_path::smb_path(&from),
                smb_path::smb_path(&to),
            ) {
                // Report the source: it is the path the caller can act on.
                (Ok(p), Ok(q)) => Step::Call(
                    Call::Rename { from: p, to: q, label: from.to_string() },
                ),
                (Err(e), _) => Step::Reply(Reply::Done(Err(e))),
                (Ok(_), Err(e)) => Step::Reply(Reply::Done(Err(e))),
            },
            Request::Copy { from, to } => match CopyFile::new(
                &from,
                &to,
                self.platform.errnos,
            ) {
                Ok(copy) => Step::Call(Call::Copy { copy }),
                Err(e) => Step::Reply(Reply::Copied(Err(e))),
            },
            Request::Open { path, mode } => match smb_path::smb_path(&path) {
                Ok(p) => Step::Call(
                    Call::Open {
                        path: p,
                        flags: open_flags_with(&self.platform.bits, mode),
                        label: path.to_string(),
                    },
                ),
                Err(e) => Step::Reply(Reply::Opened(Err(e))),
            },
            Request::Close { id } => match self.files.take(id) {
                Some(handle) => Step::Call(Call::Close { handle, id }),
                // Already closed, or the id was never valid. Closing twice is
                // harmless, and a dropped file may already have sent this.
                None => Step::Reply(Reply::Done(Ok(()))),
            },
            Request::ReadAt { id, offset, len } => match files::handle_of(
                &self.files,
                id,
                "read",
            ) {
                Ok(handle) => Step::Call(Call::Read { handle, offset, len }),
                Err(e) => Step::Reply(Reply::Bytes(Err(e))),
            },
            Request::WriteAt { id, offset, data } => match files::handle_of(
                &self.files,
                id,
                "write",
            ) {
                Ok(handle) => Step::Call(Call::Write { handle, offset, data }),
                Err(e) => Step::Reply(Reply::Written(Err(e))),
            },
            Request::SetLen { id, len } => match files::handle_of(&self.files, id, "truncate") {
                Ok(handle) => Step::Call(Call::Truncate { handle, len }),
                Err(e) => Step::Reply(Reply::Done(Err(e))),
            },
            Request::Flush { id } => match files::handle_of(&self.files, id, "flush") {
                Ok(handle) => Step::Call(Call::Sync { handle }),
                Err(e) => Step::Reply(Reply::Done(Err(e))),
            },
            Request::Shutdown => {
                self.running = false;
                Step::Reply(Reply::Stopped)
            },
        }
    }

    /// What a failed call is reported against.
    fn label(call: &Call<H>) -> (r: String)
        ensures
            r@ == label_of(call@),
    {
        match call {
            Call::List { label, .. } => label.clone(),
            Call::Stat { label, .. } => label.clone(),
            Call::Mkdir { label, .. } => label.clone(),
            Call::Unlink { label, .. } => label.clone(),
            Call::Rmdir { label, .. } => label.clone(),
            Call::Rename { label, .. } => label.clone(),
            Call::Open { label, .. } => label.clone(),
            Call::Copy { .. } => String::new(),
            Call::Close { id, .. } => text::joined("file handle ", &text::decimal_of(*id)),
            Call::Read { .. } => "read".to_owned(),
            Call::Write { .. } => "write".to_owned(),
            Call::Truncate { .. } => "truncate".to_owned(),
            Call::Sync { .. } => "flush".to_owned(),
        }
    }

    /// Takes in how a call went, and gives the reply to the request behind it.
    pub fn finish(&mut self, call: &Call<H>, answer: Answer<H>) -> (r: Reply)
        requires
            answer.wf(),
            fits(call@, &answer),
            answer is Opened ==> old(self).last_id() < u64::MAX,
        ensures
            r@ == finished(
                old(self).platform(),
                final(self).last_id(),
                call@,
                &answer,
            ),
            final(self).last_id() == old(self).last_id() + if answer is Opened {
                1int
            } else {
                0
            },
            final(self).open_files() == files_after(
                old(self).open_files(),
                final(self).last_id(),
                &answer,
            ),
            final(self).platform() == old(self).platform(),
            final(self).running() == old(self).running(),
    {
        match answer {
            Answer::Failed(f) => {
                let e = f.error(&self.platform.errnos, &Self::label(call));
                match call {
                    Call::List { .. } => Reply::Entries(Err(e)),
                    Call::Stat { .. } => Reply::Metadata(Err(e)),
                    Call::Open { .. } => Reply::Opened(Err(e)),
                    Call::Read { .. } => Reply::Bytes(Err(e)),
                    Call::Write { .. } => Reply::Written(Err(e)),
                    _ => Reply::Done(Err(e)),
                }
            },
            Answer::Done => Reply::Done(Ok(())),
            Answer::Entries(raw) => Reply::Entries(Ok(list_entries(raw))),
            Answer::Stat(st) => Reply::Metadata(Ok(metadata_from_stat(&st))),
            Answer::Opened { handle, size } => {
                let id = self.files.insert(handle);
                // The size is only advisory, and a file opened for writing may
                // not say it: that is no reason to fail the open.
                let len: u64 = match size {
                    Some(n) => n,
                    None => 0,
                };
                Reply::Opened(Ok((id, len)))
            },
            Answer::Bytes(data) => Reply::Bytes(Ok(data)),
            Answer::Count(n) => Reply::Written(Ok(n)),
            Answer::Copied(r) => Reply::Copied(r),
        }
    }

    /// The end of the session: everything that is still open, each handle once,
    /// to be closed before the session goes.
    pub fn stop(&mut self) -> (r: Vec<(u64, H)>)
        ensures
            final(self).open_files() == Map::<u64, H>::empty(),
            final(self).last_id() == old(self).last_id(),
            final(self).platform() == old(self).platform(),
            !final(self).running(),
            lists(old(self).open_files(), r@),
    {
        self.running = false;
        self.files.close_all()
    }
}

// ---------------------------------------------------------------------------
// Laws
// ---------------------------------------------------------------------------

/// Which kind of reply a request is owed.
pub open spec fn owed(request: &Request, reply: ReplyView) -> bool {
    match *request {
        Request::List { .. } => reply is Entries,
        Request::Stat { .. } => reply is Metadata,
        Request::Copy { .. } => reply is Copied,
        Request::Open { .. } => reply is Opened,
        Request::ReadAt { .. } => reply is Bytes,
        Request::WriteAt { .. } => reply is Written,
        Request::Shutdown => reply is Stopped,
        _ => reply is Done,
    }
}

/// Every request gets the kind of reply it is owed, whichever way it goes.
pub proof fn every_request_gets_its_reply<H>(
    platform: Platform,
    files: Map<u64, H>,
    request: &Request,
    next_id: u64,
    answer: &Answer<H>,
)
    ensures
        match received(platform, files, request) {
            StepView::Reply(reply) => owed(request, reply),
            StepView::Call(call) => fits(call, answer) ==> owed(
                request,
                finished(platform, next_id, call, answer),
            ),
        },
{
}

/// Nothing runs after a shutdown: every request is refused, as one to a lost
/// session, and changes nothing.
pub proof fn nothing_runs_after_a_shutdown<H>(
    platform: Platform,
    files: Map<u64, H>,
    request: &Request,
)
    ensures
        taken_in(false, platform, files, request) == StepView::<H>::Reply(
            refusal(request, session_over()),
        ),
        session_over().fatal_to_session(),
{
}

/// Closing a file takes it out at once, so a second close of the same id is
/// answered without the server, successfully.
pub proof fn closing_twice_is_harmless<H>(platform: Platform, files: Map<u64, H>, id: u64)
    ensures
        !files_then(files, &Request::Close { id }).contains_key(id),
        received(platform, files_then(files, &Request::Close { id }), &Request::Close { id })
            == StepView::<H>::Reply(ReplyView::Done(Ok(()))),
{
}

/// A file that is not open is never handed to the server: every operation on it
/// but closing it is an error.
pub proof fn a_stale_id_reaches_no_server<H>(
    platform: Platform,
    files: Map<u64, H>,
    request: &Request,
    id: u64,
)
    requires
        !files.contains_key(id),
        match *request {
            Request::ReadAt { id: i, .. } => i == id,
            Request::WriteAt { id: i, .. } => i == id,
            Request::SetLen { id: i, .. } => i == id,
            Request::Flush { id: i } => i == id,
            _ => false,
        },
    ensures
        received(platform, files, request) matches StepView::Reply(reply) && match reply {
            ReplyView::Bytes(r) => r is Err,
            ReplyView::Written(r) => r is Err,
            ReplyView::Done(r) => r is Err,
            _ => false,
        },
{
}

/// What the server reports of an entry arrives field by field: each time is the
/// server's own time of that name and no other, the size is the size, a kind is
/// the one with the protocol's number for it, and the entry is protected from
/// writing where the lowest attribute bit says so.
pub proof fn metadata_is_what_the_server_reports(st: ffi::smb2_stat_64, r: Metadata)
    requires
        call_ensures(metadata_from_stat, (&st,), r),
    ensures
        r.len == st.smb2_size,
        r.kind is File <==> st.smb2_type == 0,
        r.kind is Directory <==> st.smb2_type == 1,
        r.kind is Symlink <==> st.smb2_type == 2,
        r.kind is Other <==> st.smb2_type > 2,
        r.read_only <==> st.smb2_attributes % 2 == 1,
        r.modified is Some <==> 0 < st.smb2_mtime <= i64::MAX,
        r.modified is Some ==> r.modified->0.secs == st.smb2_mtime,
        r.modified is Some && st.smb2_mtime_nsec < 1_000_000_000 ==> r.modified->0.nanos
            == st.smb2_mtime_nsec,
        r.modified is Some && st.smb2_mtime_nsec >= 1_000_000_000 ==> r.modified->0.nanos == 0,
        r.created is Some <==> 0 < st.smb2_btime <= i64::MAX,
        r.created is Some ==> r.created->0.secs == st.smb2_btime,
        r.created is Some && st.smb2_btime_nsec < 1_000_000_000 ==> r.created->0.nanos
            == st.smb2_btime_nsec,
        r.created is Some && st.smb2_btime_nsec >= 1_000_000_000 ==> r.created->0.nanos == 0,
        r.accessed is Some <==> 0 < st.smb2_atime <= i64::MAX,
        r.accessed is Some ==> r.accessed->0.secs == st.smb2_atime,
        r.accessed is Some && st.smb2_atime_nsec < 1_000_000_000 ==> r.accessed->0.nanos
            == st.smb2_atime_nsec,
        r.accessed is Some && st.smb2_atime_nsec >= 1_000_000_000 ==> r.accessed->0.nanos == 0,
{
    let a = st.smb2_attributes;
    assert((a & 1u32 != 0) == (a % 2 == 1)) by (bit_vector);
}

/// No field of the metadata depends on what the server reports under another
/// name: two reports that agree on a field give the same.
pub proof fn metadata_fields_do_not_mix(
    a: ffi::smb2_stat_64,
    b: ffi::smb2_stat_64,
    r: Metadata,
    s: Metadata,
)
    requires
        call_ensures(metadata_from_stat, (&a,), r),
        call_ensures(metadata_from_stat, (&b,), s),
    ensures
        a.smb2_type == b.smb2_type ==> r.kind == s.kind,
        a.smb2_size == b.smb2_size <==> r.len == s.len,
        a.smb2_mtime == b.smb2_mtime && a.smb2_mtime_nsec == b.smb2_mtime_nsec ==> r.modified
            == s.modified,
        a.smb2_btime == b.smb2_btime && a.smb2_btime_nsec == b.smb2_btime_nsec ==> r.created
            == s.created,
        a.smb2_atime == b.smb2_atime && a.smb2_atime_nsec == b.smb2_atime_nsec ==> r.accessed
            == s.accessed,
        a.smb2_attributes == b.smb2_attributes ==> r.read_only == s.read_only,
{
}

/// A time that is zero, or later than can be counted, is none at all; any other
/// is that many seconds, with the nanoseconds where they make sense.
pub proof fn times_arrive_as_they_were_sent(secs: u64, nsecs: u64, r: Option<Timestamp>)
    requires
        call_ensures(timestamp, (secs, nsecs), r),
    ensures
        r is Some <==> 0 < secs <= i64::MAX,
        r is Some ==> r->0.secs == secs,
        r is Some && nsecs < 1_000_000_000 ==> r->0.nanos == nsecs,
        r is Some && nsecs >= 1_000_000_000 ==> r->0.nanos == 0,
{
}

/// Flags say what a mode asks for, bit by bit: the three extra flags each where
/// it is asked for, and what is left without them is the access mode.
pub proof fn flags_say_what_the_mode_asks_for(bits: OpenBits, mode: OpenMode, r: i32)
    requires
        bits.apart(),
        call_ensures(open_flags_with, (&bits, mode), r),
    ensures
        r & bits.creat != 0 <==> mode@.create,
        r & bits.excl != 0 <==> mode@.create_new,
        r & bits.trunc != 0 <==> mode@.truncate,
        mode@.read && mode@.write ==> r & !(bits.creat | bits.excl | bits.trunc) == bits.rdwr,
        !mode@.read && mode@.write ==> r & !(bits.creat | bits.excl | bits.trunc) == bits.wronly,
        !mode@.write ==> r & !(bits.creat | bits.excl | bits.trunc) == bits.rdonly,
{
    no_flag_is_set_unasked(bits, mode@);
    let (ro, w, rw) = (bits.rdonly, bits.wronly, bits.rdwr);
    let (c, x, t) = (bits.creat, bits.excl, bits.trunc);
    let a = if mode@.read && mode@.write {
        rw
    } else if mode@.write {
        w
    } else {
        ro
    };
    let c1 = if mode@.create {
        c
    } else {
        0
    };
    let x1 = if mode@.create_new {
        x
    } else {
        0
    };
    let t1 = if mode@.truncate {
        t
    } else {
        0
    };
    assert(a | 0 == a && (a | c1) | 0 == a | c1 && ((a | c1) | x1) | 0 == (a | c1) | x1)
        by (bit_vector);
    assert(r == ((a | c1) | x1) | t1);
    assert(r & !(c | x | t) == a) by (bit_vector)
        requires
            r == ((a | c1) | x1) | t1,
            a == ro || a == w || a == rw,
            c1 == c || c1 == 0,
            x1 == x || x1 == 0,
            t1 == t || t1 == 0,
            c & (ro | w | rw | x | t) == 0,
            x & (ro | w | rw | c | t) == 0,
            t & (ro | w | rw | c | x) == 0,
    ;
}

/// What belongs in a listing, in the order it came.
proof fn what_belongs_is_listed(raw: Seq<RawEntry>)
    ensures
        listed(raw) == raw.filter(
            |e: RawEntry| e.name@ != "."@ && e.name@ != ".."@,
        ).map_values(|e: RawEntry| EntryView { name: e.name@, metadata: portable(e.st) }),
    decreases raw.len(),
{
    let keep = |e: RawEntry| e.name@ != "."@ && e.name@ != ".."@;
    let show = |e: RawEntry| EntryView { name: e.name@, metadata: portable(e.st) };
    reveal(Seq::filter);
    if raw.len() == 0 {
        assert(listed(raw) =~= raw.filter(keep).map_values(show));
    } else {
        what_belongs_is_listed(raw.drop_last());
        assert(listed(raw) =~= raw.filter(keep).map_values(show));
    }
}

/// A listing is complete and holds nothing else: it is what was enumerated,
/// without the entries named `.` and `..` and whatever their kind, each under its
/// name and with its own metadata, in the order of the names.
pub proof fn a_listing_shows_everything_but_self_and_parent(raw: Vec<RawEntry>, r: Vec<Entry>)
    requires
        call_ensures(list_entries, (raw,), r),
    ensures
        listing::views(r@).to_multiset() == raw@.filter(
            |e: RawEntry| e.name@ != "."@ && e.name@ != ".."@,
        ).map_values(
            |e: RawEntry| EntryView { name: e.name@, metadata: portable(e.st) },
        ).to_multiset(),
        r@.len() == raw@.filter(|e: RawEntry| e.name@ != "."@ && e.name@ != ".."@).len(),
        forall|i: int|
            0 <= i < raw@.len() && raw@[i].name@ != "."@ && raw@[i].name@ != ".."@
                ==> listing::views(r@).contains(
                EntryView { name: (#[trigger] raw@[i]).name@, metadata: portable(raw@[i].st) },
            ),
        forall|i: int, j: int|
            0 <= i < j < r@.len() ==> !text::text_before(
                (#[trigger] r@[j]).name@,
                (#[trigger] r@[i]).name@,
            ),
        forall|i: int|
            0 <= i < r@.len() ==> (#[trigger] r@[i]).name@ != "."@ && r@[i].name@ != ".."@,
{
    broadcast use vstd::seq_lib::group_to_multiset_ensures;

    let keep = |e: RawEntry| e.name@ != "."@ && e.name@ != ".."@;
    let show = |e: RawEntry| EntryView { name: e.name@, metadata: portable(e.st) };
    let kept = raw@.filter(keep);
    let shown = kept.map_values(show);
    what_belongs_is_listed(raw@);
    listing::listings_are_sorted_and_complete(listed(raw@));
    let out = listing::views(r@);
    assert(out.to_multiset() == shown.to_multiset());
    assert forall|i: int|
        0 <= i < raw@.len() && raw@[i].name@ != "."@ && raw@[i].name@
            != ".."@ implies out.contains(
        EntryView { name: (#[trigger] raw@[i]).name@, metadata: portable(raw@[i].st) },
    ) by {
        raw@.lemma_filter_contains_rev(keep, raw@[i]);
        let k = kept.index_of(raw@[i]);
        assert(shown[k] == show(raw@[i]));
        assert(shown.contains(show(raw@[i])));
        assert(shown.to_multiset().count(show(raw@[i])) > 0);
    }
    assert forall|i: int, j: int| 0 <= i < j < r@.len() implies !text::text_before(
        (#[trigger] r@[j]).name@,
        (#[trigger] r@[i]).name@,
    ) by {
        assert(out[i].name == r@[i].name@ && out[j].name == r@[j].name@);
    }
    assert forall|i: int| 0 <= i < r@.len() implies (#[trigger] r@[i]).name@ != "."@
        && r@[i].name@ != ".."@ by {
        assert(out[i] == r@[i]@);
        assert(out.contains(out[i]));
        assert(out.to_multiset().count(out[i]) > 0);
        assert(shown.contains(out[i]));
        let k = shown.index_of(out[i]);
        raw@.lemma_filter_pred(keep, k);
        assert(keep(kept[k]));
    }
}

/// What each request leads to while the session runs, spelled out. A path is
/// handed over as its text without the leading slash, an open file by the handle
/// behind its id, and everything else as the caller gave it: the bytes of a write
/// go where they were meant to go, and a rename goes from the first path to the
/// second.
pub proof fn a_request_asks_for_what_it_says<H: Copy>(
    actor: &mut Actor<H>,
    request: Request,
    r: Step<H>,
)
    requires
        old(actor).running(),
        call_ensures(Actor::<H>::receive, (actor, request), r),
    ensures
        match request {
            Request::List { path } => !path::rendered(path@).contains('\0') ==> (r matches
                Step::Call(Call::List { path: p, label }) && seq!['/'] + p@ == path::rendered(
                path@,
            ) && label@ == path::rendered(path@)),
            Request::Stat { path } => !path::rendered(path@).contains('\0') ==> (r matches
                Step::Call(Call::Stat { path: p, label }) && seq!['/'] + p@ == path::rendered(
                path@,
            ) && label@ == path::rendered(path@)),
            Request::Mkdir { path } => !path::rendered(path@).contains('\0') ==> (r matches
                Step::Call(Call::Mkdir { path: p, label }) && seq!['/'] + p@ == path::rendered(
                path@,
            ) && label@ == path::rendered(path@)),
            Request::RemoveFile { path } => !path::rendered(path@).contains('\0') ==> (r matches
                Step::Call(Call::Unlink { path: p, label }) && seq!['/'] + p@ == path::rendered(
                path@,
            ) && label@ == path::rendered(path@)),
            Request::RemoveDir { path } => !path::rendered(path@).contains('\0') ==> (r matches
                Step::Call(Call::Rmdir { path: p, label }) && seq!['/'] + p@ == path::rendered(
                path@,
            ) && label@ == path::rendered(path@)),
            Request::Rename { from, to } => !path::rendered(from@).contains('\0')
                && !path::rendered(to@).contains('\0') ==> (r matches Step::Call(
                Call::Rename { from: p, to: q, label },
            ) && seq!['/'] + p@ == path::rendered(from@) && seq!['/'] + q@ == path::rendered(to@)
                && label@ == path::rendered(from@)),
            Request::Copy { from, to } => !path::rendered(from@).contains('\0')
                && !path::rendered(to@).contains('\0') ==> (r matches Step::Call(
                Call::Copy { copy },
            ) && seq!['/'] + copy.paths().0 == path::rendered(from@) && seq!['/'] + copy.paths().1
                == path::rendered(to@) && copy.names().from == path::rendered(from@)
                && copy.names().to == path::rendered(to@) && copy.names().table
                == old(actor).platform().errnos && copy.state() is OpenSource),
            Request::Open { path, mode } => !path::rendered(path@).contains('\0') ==> (r matches
                Step::Call(Call::Open { path: p, flags, label }) && seq!['/'] + p@
                == path::rendered(path@) && label@ == path::rendered(path@) && flags == flags_for(
                old(actor).platform().bits,
                mode@,
            )),
            Request::Close { id } => if old(actor).open_files().contains_key(id) {
                r == Step::Call(Call::Close { handle: old(actor).open_files()[id], id })
            } else {
                r == Step::<H>::Reply(Reply::Done(Ok(())))
            },
            Request::ReadAt { id, offset, len } => if old(actor).open_files().contains_key(id) {
                r == Step::Call(Call::Read { handle: old(actor).open_files()[id], offset, len })
            } else {
                r matches Step::Reply(Reply::Bytes(Err(e))) && e is Backend
            },
            Request::WriteAt { id, offset, data } => if old(actor).open_files().contains_key(id) {
                r matches Step::Call(Call::Write { handle, offset: at, data: bytes }) && handle
                    == old(actor).open_files()[id] && at == offset && bytes@ == data@
            } else {
                r matches Step::Reply(Reply::Written(Err(e))) && e is Backend
            },
            Request::SetLen { id, len } => if old(actor).open_files().contains_key(id) {
                r == Step::Call(Call::Truncate { handle: old(actor).open_files()[id], len })
            } else {
                r matches Step::Reply(Reply::Done(Err(e))) && e is Backend
            },
            Request::Flush { id } => if old(actor).open_files().contains_key(id) {
                r == Step::Call(Call::Sync { handle: old(actor).open_files()[id] })
            } else {
                r matches Step::Reply(Reply::Done(Err(e))) && e is Backend
            },
            Request::Shutdown => r == Step::<H>::Reply(Reply::Stopped),
        },
        // Only closing touches the table, and only its own entry.
        forall|other: u64|
            !(request is Close && request->Close_id == other) ==> final(
                actor).open_files().contains_key(other) == old(actor).open_files().contains_key(
                other,
            ),
        forall|other: u64| #[trigger]
            final(actor).open_files().contains_key(other) ==> final(actor).open_files()[other]
                == old(actor).open_files()[other],
        request is Close ==> !final(actor).open_files().contains_key(request->Close_id),
        final(actor).running() <==> !(request is Shutdown),
{
    match request {
        Request::List { path }
        | Request::Stat { path }
        | Request::Mkdir { path }
        | Request::RemoveFile { path }
        | Request::RemoveDir { path }
        | Request::Open { path, .. } => {
            smb_path::only_the_leading_slash_goes(path@);
        },
        Request::Rename { from, to } | Request::Copy { from, to } => {
            smb_path::only_the_leading_slash_goes(from@);
            smb_path::only_the_leading_slash_goes(to@);
        },
        _ => {},
    }
}

/// A path with a NUL reaches no server: cut off there, it would name another
/// file.
pub proof fn a_path_with_a_nul_reaches_no_server<H: Copy>(
    actor: &mut Actor<H>,
    request: Request,
    r: Step<H>,
)
    requires
        old(actor).running(),
        call_ensures(Actor::<H>::receive, (actor, request), r),
        match request {
            Request::List { path }
            | Request::Stat { path }
            | Request::Mkdir { path }
            | Request::RemoveFile { path }
            | Request::RemoveDir { path }
            | Request::Open { path, .. } => path::rendered(path@).contains('\0'),
            Request::Rename { from, to } | Request::Copy { from, to } => {
                path::rendered(from@).contains('\0') || path::rendered(to@).contains('\0')
            },
            _ => false,
        },
    ensures
        r matches Step::Reply(reply) && match reply {
            Reply::Entries(Err(e)) => request is List && e is InvalidPath,
            Reply::Metadata(Err(e)) => request is Stat && e is InvalidPath,
            Reply::Copied(Err(e)) => request is Copy && e is InvalidPath,
            Reply::Opened(Err(e)) => request is Open && e is InvalidPath,
            Reply::Done(Err(e)) => e is InvalidPath,
            _ => false,
        },
{
    match request {
        Request::List { path }
        | Request::Stat { path }
        | Request::Mkdir { path }
        | Request::RemoveFile { path }
        | Request::RemoveDir { path }
        | Request::Open { path, .. } => {
            smb_path::only_the_leading_slash_goes(path@);
        },
        Request::Rename { from, to } | Request::Copy { from, to } => {
            smb_path::only_the_leading_slash_goes(from@);
            smb_path::only_the_leading_slash_goes(to@);
        },
        _ => {},
    }
}

/// What a caller gets for an answer, spelled out: bytes and counts as they came,
/// a file that was opened under an id of its own, and a failure as the error that
/// its channels amount to, against what the call was about.
pub proof fn an_answer_becomes_the_reply<H: Copy>(
    actor: &mut Actor<H>,
    call: Call<H>,
    answer: Answer<H>,
    r: Reply,
)
    requires
        fits(call@, &answer),
        call_ensures(Actor::<H>::finish, (actor, &call, answer), r),
    ensures
        match answer {
            Answer::Done => r == Reply::Done(Ok(())),
            Answer::Bytes(data) => r matches Reply::Bytes(Ok(bytes)) && bytes@ == data@,
            Answer::Count(n) => r == Reply::Written(Ok(n)),
            Answer::Copied(Ok(n)) => r == Reply::Copied(Ok(n)),
            Answer::Copied(Err(e)) => r matches Reply::Copied(Err(other)) && other@ == e@,
            Answer::Stat(st) => r == Reply::Metadata(Ok(portable(st))),
            Answer::Entries(raw) => r matches Reply::Entries(Ok(entries)) && listing::views(
                entries@,
            ).to_multiset() == listed(raw@).to_multiset() && listing::is_sorted(
                listing::views(entries@),
            ),
            Answer::Opened { size, .. } => {
                &&& r matches Reply::Opened(Ok((id, len)))
                &&& id == old(actor).last_id() + 1
                &&& size is Some ==> len == size->0
                &&& size is None ==> len == 0
            },
            Answer::Failed(f) => match call {
                Call::List { label, .. } => r matches Reply::Entries(Err(e)) && e@ == f@.error(
                    old(actor).platform().errnos,
                    label@,
                ),
                Call::Stat { label, .. } => r matches Reply::Metadata(Err(e)) && e@ == f@.error(
                    old(actor).platform().errnos,
                    label@,
                ),
                Call::Open { label, .. } => r matches Reply::Opened(Err(e)) && e@ == f@.error(
                    old(actor).platform().errnos,
                    label@,
                ),
                Call::Mkdir { label, .. }
                | Call::Unlink { label, .. }
                | Call::Rmdir { label, .. }
                | Call::Rename { label, .. } => r matches Reply::Done(Err(e)) && e@ == f@.error(
                    old(actor).platform().errnos,
                    label@,
                ),
                Call::Read { .. } => r matches Reply::Bytes(Err(e)) && e@ == f@.error(
                    old(actor).platform().errnos,
                    "read"@,
                ),
                Call::Write { .. } => r matches Reply::Written(Err(e)) && e@ == f@.error(
                    old(actor).platform().errnos,
                    "write"@,
                ),
                Call::Truncate { .. } => r matches Reply::Done(Err(e)) && e@ == f@.error(
                    old(actor).platform().errnos,
                    "truncate"@,
                ),
                Call::Sync { .. } => r matches Reply::Done(Err(e)) && e@ == f@.error(
                    old(actor).platform().errnos,
                    "flush"@,
                ),
                Call::Close { id, .. } => r matches Reply::Done(Err(e)) && e@ == f@.error(
                    old(actor).platform().errnos,
                    "file handle "@ + text::decimal(id as nat),
                ),
                Call::Copy { .. } => true,
            },
        },
        answer matches Answer::Opened { handle, .. } ==> final(actor).open_files()
            == old(actor).open_files().insert((old(actor).last_id() + 1) as u64, handle),
        !(answer is Opened) ==> final(actor).open_files() == old(actor).open_files(),
{
    if let Answer::Entries(raw) = answer {
        listing::listings_are_sorted_and_complete(listed(raw@));
    }
}

/// An entry of a listing is the enumerated entry of that name, with its metadata.
pub proof fn listed_entries_are_enumerated_ones(raw: Seq<RawEntry>)
    ensures
        listed(raw).to_multiset() == raw.filter(
            |e: RawEntry| e.name@ != "."@ && e.name@ != ".."@,
        ).map_values(
            |e: RawEntry| EntryView { name: e.name@, metadata: portable(e.st) },
        ).to_multiset(),
{
    what_belongs_is_listed(raw);
}

/// Once a session is shut down, every request is refused as one to a lost session
/// and with the kind of reply it is owed; none reaches a server, and nothing that
/// is open changes.
pub proof fn a_stopped_session_refuses_everything<H: Copy>(
    actor: &mut Actor<H>,
    request: Request,
    r: Step<H>,
)
    requires
        !old(actor).running(),
        call_ensures(Actor::<H>::receive, (actor, request), r),
    ensures
        r matches Step::Reply(reply) && match reply {
            Reply::Entries(Err(e)) => request is List && e is ConnectionLost,
            Reply::Metadata(Err(e)) => request is Stat && e is ConnectionLost,
            Reply::Copied(Err(e)) => request is Copy && e is ConnectionLost,
            Reply::Opened(Err(e)) => request is Open && e is ConnectionLost,
            Reply::Bytes(Err(e)) => request is ReadAt && e is ConnectionLost,
            Reply::Written(Err(e)) => request is WriteAt && e is ConnectionLost,
            Reply::Done(Err(e)) => e is ConnectionLost,
            _ => false,
        },
        final(actor).open_files() == old(actor).open_files(),
        !final(actor).running(),
{
}

/// A session starts with nothing open, and ends with nothing open: what it hands
/// back at the end is every open handle, under its id.
pub proof fn a_session_hands_back_what_is_open<H: Copy>(
    platform: Platform,
    fresh: Actor<H>,
    actor: &mut Actor<H>,
    r: Vec<(u64, H)>,
    id: u64,
)
    requires
        call_ensures(Actor::<H>::on, (platform,), fresh),
        call_ensures(Actor::<H>::stop, (actor,), r),
    ensures
        fresh.running() && fresh.open_files() == Map::<u64, H>::empty() && fresh.last_id() == 0,
        fresh.platform() == platform,
        !final(actor).running() && final(actor).open_files() == Map::<u64, H>::empty(),
        old(actor).open_files().contains_key(id) ==> r@.contains(
            (id, old(actor).open_files()[id]),
        ),
        r@.len() == old(actor).open_files().len(),
{
    if old(actor).open_files().contains_key(id) {
        let i = choose|i: int| 0 <= i < r@.len() && (#[trigger] r@[i]).0 == id;
        assert(r@[i] == (id, old(actor).open_files()[id]));
    }
}

} // verus!
