//! The plain data that crosses the facade.

use vstd::prelude::*;
use crate::backend::{OpenMode, OpenModeView};
use crate::capabilities;
use crate::entry::{Entry, EntryKind, Metadata, Timestamp};
use crate::facade::error::{KernelError, KernelErrorView};
use crate::registry::{ConnectionOptions, Credentials, CredentialsView};
use crate::smb::backend::OPT_SEAL;
use crate::text;

verus! {

/// What kind of thing an entry is.
#[derive(Debug, Clone, Copy, PartialEq, Eq, Structural)]
pub enum Kind {
    File,
    Directory,
    /// A symlink or protocol equivalent.
    Symlink,
    /// Neither file nor directory and no portable equivalent.
    Other,
}

/// A kind as the facade spells it.
pub open spec fn kind_of(k: EntryKind) -> Kind {
    match k {
        EntryKind::File => Kind::File,
        EntryKind::Directory => Kind::Directory,
        EntryKind::Symlink => Kind::Symlink,
        EntryKind::Other => Kind::Other,
    }
}

impl vstd::std_specs::convert::FromSpecImpl<EntryKind> for Kind {
    open spec fn obeys_from_spec() -> bool {
        true
    }

    open spec fn from_spec(k: EntryKind) -> Kind {
        kind_of(k)
    }
}

impl From<EntryKind> for Kind {
    fn from(k: EntryKind) -> Self {
        match k {
            EntryKind::File => Kind::File,
            EntryKind::Directory => Kind::Directory,
            EntryKind::Symlink => Kind::Symlink,
            EntryKind::Other => Kind::Other,
        }
    }
}

/// Portable metadata for one entry.
#[derive(Debug, Clone, Copy, PartialEq, Eq, Structural)]
pub struct EntryMetadata {
    pub kind: Kind,
    pub len: u64,
    /// Milliseconds since the Unix epoch, or `None` when the backend does not
    /// report it.
    pub modified_ms: Option<u64>,
    pub created_ms: Option<u64>,
    pub accessed_ms: Option<u64>,
    pub read_only: bool,
}

/// Milliseconds since the epoch, where that is a number a caller can sort by: a
/// time before 1970, or one too far in the future to count, has none.
pub open spec fn millis_of(t: Option<Timestamp>) -> Option<u64> {
    match t {
        Some(t) => if t.secs < 0 || t.secs * 1000 + t.nanos / 1_000_000 > u64::MAX {
            None
        } else {
            Some((t.secs * 1000 + t.nanos / 1_000_000) as u64)
        },
        None => None,
    }
}

/// Convert a timestamp to milliseconds since the epoch.
pub fn to_millis(t: Option<Timestamp>) -> (r: Option<u64>)
    ensures
        r == millis_of(t),
{
    match t {
        Some(t) => if t.secs < 0 {
            None
        } else {
            let total: u128 = t.secs as u128 * 1000 + (t.nanos / 1_000_000) as u128;
            if total > u64::MAX as u128 {
                None
            } else {
                Some(total as u64)
            }
        },
        None => None,
    }
}

/// Metadata as the facade spells it.
pub open spec fn metadata_of(m: Metadata) -> EntryMetadata {
    EntryMetadata {
        kind: kind_of(m.kind),
        len: m.len,
        modified_ms: millis_of(m.modified),
        created_ms: millis_of(m.created),
        accessed_ms: millis_of(m.accessed),
        read_only: m.read_only,
    }
}

impl EntryMetadata {
    pub fn from_core(m: &Metadata) -> (r: Self)
        ensures
            r == metadata_of(*m),
    {
        EntryMetadata {
            kind: Kind::from(m.kind),
            len: m.len,
            modified_ms: to_millis(m.modified),
            created_ms: to_millis(m.created),
            accessed_ms: to_millis(m.accessed),
            read_only: m.read_only,
        }
    }
}

/// A directory listing entry. The metadata travels with the name on purpose.
#[derive(Debug, Clone, PartialEq, Eq)]
pub struct DirEntry {
    /// The name **exactly as the backend reported it**.
    pub name: String,
    pub metadata: EntryMetadata,
}

impl vstd::std_specs::convert::FromSpecImpl<Entry> for DirEntry {
    open spec fn obeys_from_spec() -> bool {
        true
    }

    open spec fn from_spec(e: Entry) -> DirEntry {
        DirEntry { name: e.name, metadata: metadata_of(e.metadata) }
    }
}

impl From<Entry> for DirEntry {
    fn from(e: Entry) -> Self {
        DirEntry { metadata: EntryMetadata::from_core(&e.metadata), name: e.name }
    }
}

/// How to open a file.
#[derive(Debug, Clone, Copy, PartialEq, Eq, Structural)]
pub struct OpenFlags {
    pub read: bool,
    pub write: bool,
    /// Create the file if it does not exist.
    pub create: bool,
    /// Fail if it already exists.
    pub create_new: bool,
    /// Discard existing contents on open.
    pub truncate: bool,
}

impl OpenFlags {
    /// Open an existing file for reading.
    pub fn read_only() -> (r: Self)
        ensures
            r == (OpenFlags {
                read: true,
                write: false,
                create: false,
                create_new: false,
                truncate: false,
            }),
    {
        OpenFlags { read: true, write: false, create: false, create_new: false, truncate: false }
    }

    /// Open for writing, creating if absent, without truncating: a positioned
    /// writer has to be able to fill a file out of order.
    pub fn write_only() -> (r: Self)
        ensures
            r == (OpenFlags {
                read: false,
                write: true,
                create: true,
                create_new: false,
                truncate: false,
            }),
    {
        OpenFlags { read: false, write: true, create: true, create_new: false, truncate: false }
    }

    /// Read and write, creating if absent.
    pub fn read_write() -> (r: Self)
        ensures
            r == (OpenFlags {
                read: true,
                write: true,
                create: true,
                create_new: false,
                truncate: false,
            }),
    {
        OpenFlags { read: true, write: true, create: true, create_new: false, truncate: false }
    }

    /// Create a new file, failing if it exists.
    pub fn create_exclusive() -> (r: Self)
        ensures
            r == (OpenFlags {
                read: false,
                write: true,
                create: true,
                create_new: true,
                truncate: false,
            }),
    {
        OpenFlags { read: false, write: true, create: true, create_new: true, truncate: false }
    }

    /// Same access mode, discarding existing contents on open.
    pub fn with_truncate(self) -> (r: Self)
        ensures
            r == (OpenFlags { truncate: true, ..self }),
    {
        OpenFlags { truncate: true, ..self }
    }
}

/// The open mode that flags stand for. Whatever combination arrives, the access
/// decides: whether to create follows from it, and flags that ask for nothing
/// are read as read-only.
pub open spec fn mode_of(f: OpenFlags) -> OpenModeView {
    if f.create_new {
        OpenModeView {
            read: false,
            write: true,
            create: true,
            create_new: true,
            truncate: f.truncate,
        }
    } else {
        OpenModeView {
            read: f.read || !f.write,
            write: f.write,
            create: f.write,
            create_new: false,
            truncate: f.truncate,
        }
    }
}

impl vstd::std_specs::convert::FromSpecImpl<OpenFlags> for OpenMode {
    open spec fn obeys_from_spec() -> bool {
        false
    }

    open spec fn from_spec(f: OpenFlags) -> OpenMode {
        arbitrary()
    }
}

impl From<OpenFlags> for OpenMode {
    fn from(f: OpenFlags) -> (r: Self)
        ensures
            r@ == mode_of(f),
    {
        let mut mode = if f.write {
            if f.read {
                OpenMode::read_write()
            } else {
                OpenMode::write()
            }
        } else {
            OpenMode::read()
        };
        if f.create_new {
            mode = OpenMode::create_new();
        }
        if f.truncate {
            mode = mode.with_truncate();
        }
        mode
    }
}

/// Every mode that flags lead to is a sensible one: it reads or writes, and it
/// creates only where it writes.
pub proof fn flags_lead_to_sensible_modes(f: OpenFlags)
    ensures
        mode_of(f).read || mode_of(f).write,
        mode_of(f).create ==> mode_of(f).write,
        mode_of(f).create_new ==> mode_of(f).create,
        mode_of(f).truncate == f.truncate,
{
}

/// What a backend can do.
#[derive(Debug, Clone, Copy, PartialEq, Eq, Structural)]
pub struct Capabilities {
    pub random_read: bool,
    pub random_write: bool,
    pub atomic_rename: bool,
    pub set_len: bool,
    pub durable_flush: bool,
    pub modification_times: bool,
}

impl vstd::std_specs::convert::FromSpecImpl<capabilities::Capabilities> for Capabilities {
    open spec fn obeys_from_spec() -> bool {
        true
    }

    open spec fn from_spec(c: capabilities::Capabilities) -> Capabilities {
        Capabilities {
            random_read: c.random_read,
            random_write: c.random_write,
            atomic_rename: c.atomic_rename,
            set_len: c.set_len,
            durable_flush: c.durable_flush,
            modification_times: c.modification_times,
        }
    }
}

impl From<capabilities::Capabilities> for Capabilities {
    fn from(c: capabilities::Capabilities) -> Self {
        Capabilities {
            random_read: c.random_read,
            random_write: c.random_write,
            atomic_rename: c.atomic_rename,
            set_len: c.set_len,
            durable_flush: c.durable_flush,
            modification_times: c.modification_times,
        }
    }
}

/// Everything needed to open a session.
#[derive(Debug, Clone)]
pub struct ConnectRequest {
    /// A URI such as `smb://host/share` or `file:///D:/media`.
    pub uri: String,
    pub username: Option<String>,
    /// Kept out of the URI on purpose.
    pub password: Option<String>,
    /// SMB domain or workgroup. Ignored by backends without the concept.
    pub domain: Option<String>,
    /// Request SMB3 transport encryption. Off by default.
    pub smb_seal: bool,
}

/// A [`ConnectRequest`] with texts.
#[verifier::ext_equal]
pub struct RequestView {
    pub uri: Seq<char>,
    pub credentials: CredentialsView,
    pub smb_seal: bool,
}

impl View for ConnectRequest {
    type V = RequestView;

    open spec fn view(&self) -> RequestView {
        RequestView {
            uri: self.uri@,
            credentials: CredentialsView {
                username: text::optional(self.username),
                password: text::optional(self.password),
                domain: text::optional(self.domain),
            },
            smb_seal: self.smb_seal,
        }
    }
}

/// The options that a request asks for.
pub open spec fn options_of(smb_seal: bool) -> Map<Seq<char>, Seq<char>> {
    if smb_seal {
        Map::empty().insert("smb.seal"@, "true"@)
    } else {
        Map::empty()
    }
}

impl ConnectRequest {
    /// A request with no credentials and encryption off.
    pub fn new(uri: &str) -> (r: Self)
        ensures
            r@ == (RequestView {
                uri: uri@,
                credentials: (CredentialsView { username: None, password: None, domain: None }),
                smb_seal: false,
            }),
    {
        ConnectRequest {
            uri: uri.to_owned(),
            username: None,
            password: None,
            domain: None,
            smb_seal: false,
        }
    }

    pub fn with_credentials(self, username: &str, password: &str) -> (r: Self)
        ensures
            r@ == (RequestView {
                credentials: (CredentialsView {
                    username: Some(username@),
                    password: Some(password@),
                    ..self@.credentials
                }),
                ..self@
            }),
    {
        ConnectRequest {
            username: Some(username.to_owned()),
            password: Some(password.to_owned()),
            ..self
        }
    }

    pub fn with_domain(self, domain: &str) -> (r: Self)
        ensures
            r@ == (RequestView {
                credentials: (CredentialsView { domain: Some(domain@), ..self@.credentials }),
                ..self@
            }),
    {
        ConnectRequest { domain: Some(domain.to_owned()), ..self }
    }

    pub fn with_smb_seal(self, seal: bool) -> (r: Self)
        ensures
            r@ == (RequestView { smb_seal: seal, ..self@ }),
    {
        ConnectRequest { smb_seal: seal, ..self }
    }

    /// The endpoint, the credentials and the options, each on its own.
    pub fn into_parts(self) -> (r: (String, Credentials, ConnectionOptions))
        ensures
            r.0@ == self@.uri,
            r.1@ == self@.credentials,
            r.2@ == options_of(self@.smb_seal),
    {
        let credentials = Credentials {
            username: self.username,
            password: self.password,
            domain: self.domain,
        };
        let mut options = ConnectionOptions::new();
        if self.smb_seal {
            let _ = options.set(OPT_SEAL, "true");
        }
        (self.uri, credentials, options)
    }
}

/// A byte range read from a file.
#[derive(Debug, Clone, PartialEq, Eq)]
pub struct ByteRange {
    pub offset: u64,
    /// Fewer bytes than requested means end-of-file was reached.
    pub data: Vec<u8>,
}

impl ByteRange {
    pub fn new(offset: u64, data: Vec<u8>) -> (r: Self)
        ensures
            r.offset == offset,
            r.data == data,
    {
        ByteRange { offset, data }
    }

    /// Whether this read reached the end of the file.
    pub fn is_empty(&self) -> (r: bool)
        ensures
            r == (self.data@.len() == 0),
    {
        self.data.len() == 0
    }

    pub fn len(&self) -> (r: u64)
        ensures
            r == self.data@.len(),
    {
        self.data.len() as u64
    }
}

/// The error for a call on something that was closed.
pub open spec fn closed_error(what: Seq<char>) -> KernelErrorView {
    KernelErrorView::ConnectionLost { detail: "this "@ + what + " has already been closed"@ }
}

/// Reject a call on a session or file that has already been closed.
///
/// Reported as `ConnectionLost` rather than a generic error because that is
/// what it is from the caller's side: the handle is gone and no retry on it will
/// work.
pub fn already_closed(what: &str) -> (r: KernelError)
    ensures
        r@ == closed_error(what@),
{
    let mut detail = text::joined("this ", what);
    detail.append(" has already been closed");
    KernelError::ConnectionLost { detail }
}

// ---------------------------------------------------------------------------
// Laws
// ---------------------------------------------------------------------------

/// A time crosses the border as whole milliseconds, rounded down: it is no later
/// than the time, and less than a millisecond earlier. One before 1970, or too
/// late to count in milliseconds, does not cross.
pub proof fn times_cross_in_milliseconds(t: Option<Timestamp>, r: Option<u64>)
    requires
        t matches Some(t) ==> t.wf(),
        call_ensures(to_millis, (t,), r),
    ensures
        t is None ==> r is None,
        t matches Some(t) ==> {
            let nanos = t.secs * 1_000_000_000 + t.nanos;
            &&& nanos < 0 ==> r is None
            &&& r matches Some(ms) ==> ms * 1_000_000 <= nanos && nanos < (ms + 1) * 1_000_000
            &&& 0 <= nanos < u64::MAX * 1_000_000 ==> r is Some
        },
{
}

/// Metadata crosses the border field by field, each time under its own name.
pub proof fn metadata_crosses_field_by_field(
    m: Metadata,
    r: EntryMetadata,
    modified: Option<u64>,
    created: Option<u64>,
    accessed: Option<u64>,
)
    requires
        call_ensures(EntryMetadata::from_core, (&m,), r),
        call_ensures(to_millis, (m.modified,), modified),
        call_ensures(to_millis, (m.created,), created),
        call_ensures(to_millis, (m.accessed,), accessed),
    ensures
        r.len == m.len,
        r.read_only == m.read_only,
        r.modified_ms == modified,
        r.created_ms == created,
        r.accessed_ms == accessed,
        r.kind is File <==> m.kind is File,
        r.kind is Directory <==> m.kind is Directory,
        r.kind is Symlink <==> m.kind is Symlink,
        r.kind is Other <==> m.kind is Other,
{
}

/// An entry crosses the border under the name it has, with its metadata.
pub proof fn an_entry_keeps_its_name(e: Entry, r: DirEntry, m: EntryMetadata)
    requires
        call_ensures(<DirEntry as From<Entry>>::from, (e,), r),
        call_ensures(EntryMetadata::from_core, (&e.metadata,), m),
    ensures
        r.name@ == e.name@,
        r.metadata == m,
{
}

/// Capabilities cross the border as they are, each under its own name.
pub proof fn capabilities_cross_as_they_are(c: capabilities::Capabilities, r: Capabilities)
    requires
        call_ensures(<Capabilities as From<capabilities::Capabilities>>::from, (c,), r),
    ensures
        r.random_read == c.random_read,
        r.random_write == c.random_write,
        r.atomic_rename == c.atomic_rename,
        r.set_len == c.set_len,
        r.durable_flush == c.durable_flush,
        r.modification_times == c.modification_times,
{
}

/// What flags ask for is what a file is opened with: it is written exactly where
/// that is asked for, read where that is asked for unless it has to be new,
/// emptied where that is asked for, and insisted on being new where that is. A
/// file that is written is created where it is missing; one that is only read is
/// not.
pub proof fn flags_are_honoured(f: OpenFlags, r: OpenMode)
    requires
        call_ensures(<OpenMode as From<OpenFlags>>::from, (f,), r),
    ensures
        r@.write <==> f.write || f.create_new,
        !f.create_new ==> (r@.read <==> f.read || !f.write),
        f.create_new ==> !r@.read,
        r@.create <==> f.write || f.create_new,
        r@.create_new <==> f.create_new,
        r@.truncate <==> f.truncate,
{
}

/// Each way to open a file says what it is named for.
pub proof fn ways_to_open_are_what_they_are_named_for(
    ro: OpenFlags,
    wo: OpenFlags,
    rw: OpenFlags,
    new: OpenFlags,
    any: OpenFlags,
    emptied: OpenFlags,
)
    requires
        call_ensures(OpenFlags::read_only, (), ro),
        call_ensures(OpenFlags::write_only, (), wo),
        call_ensures(OpenFlags::read_write, (), rw),
        call_ensures(OpenFlags::create_exclusive, (), new),
        call_ensures(OpenFlags::with_truncate, (any,), emptied),
    ensures
        ro.read && !ro.write && !ro.create && !ro.create_new && !ro.truncate,
        !wo.read && wo.write && wo.create && !wo.create_new && !wo.truncate,
        rw.read && rw.write && rw.create && !rw.create_new && !rw.truncate,
        !new.read && new.write && new.create && new.create_new && !new.truncate,
        emptied.truncate && emptied.read == any.read && emptied.write == any.write && emptied.create
            == any.create && emptied.create_new == any.create_new,
{
}

/// What a caller puts into a request is what connecting gets: the same endpoint,
/// the same credentials, each as itself, and encryption exactly where it was
/// asked for.
pub proof fn a_request_arrives_in_full(
    request: ConnectRequest,
    parts: (String, Credentials, ConnectionOptions),
    seal: Option<bool>,
)
    requires
        call_ensures(ConnectRequest::into_parts, (request,), parts),
        call_ensures(ConnectionOptions::get_bool, (&parts.2, "smb.seal"), seal),
    ensures
        parts.0@ == request.uri@,
        text::optional(parts.1.username) == text::optional(request.username),
        text::optional(parts.1.password) == text::optional(request.password),
        text::optional(parts.1.domain) == text::optional(request.domain),
        request.smb_seal ==> seal == Some(true),
        !request.smb_seal ==> seal is None,
{
    reveal_strlit("true");
    reveal_strlit("1");
    assert(!text::is_space('t') && !text::is_space('e'));
    assert(text::trimmed_end("true"@) == "true"@);
    assert(text::trimmed_start("true"@) == "true"@);
    assert(text::lowered("true"@) =~= "true"@);
}

/// What is added to a request is what it holds, and the rest of it stays.
pub proof fn a_request_is_built_part_by_part(
    uri: &str,
    bare: ConnectRequest,
    any: ConnectRequest,
    user: &str,
    password: &str,
    with_user: ConnectRequest,
    domain: &str,
    with_domain: ConnectRequest,
    seal: bool,
    with_seal: ConnectRequest,
)
    requires
        call_ensures(ConnectRequest::new, (uri,), bare),
        call_ensures(ConnectRequest::with_credentials, (any, user, password), with_user),
        call_ensures(ConnectRequest::with_domain, (any, domain), with_domain),
        call_ensures(ConnectRequest::with_smb_seal, (any, seal), with_seal),
    ensures
        bare.uri@ == uri@ && !bare.smb_seal && bare.username is None && bare.password is None
            && bare.domain is None,
        with_user.username is Some && with_user.username->0@ == user@,
        with_user.password is Some && with_user.password->0@ == password@,
        text::optional(with_user.domain) == text::optional(any.domain),
        with_user.uri@ == any.uri@ && with_user.smb_seal == any.smb_seal,
        with_domain.domain is Some && with_domain.domain->0@ == domain@,
        text::optional(with_domain.username) == text::optional(any.username),
        text::optional(with_domain.password) == text::optional(any.password),
        with_domain.uri@ == any.uri@ && with_domain.smb_seal == any.smb_seal,
        with_seal.smb_seal == seal && with_seal.uri@ == any.uri@,
        text::optional(with_seal.username) == text::optional(any.username),
        text::optional(with_seal.password) == text::optional(any.password),
        text::optional(with_seal.domain) == text::optional(any.domain),
{
}

/// A range is the bytes it was made of, at the offset it was made with.
pub proof fn a_range_is_what_it_was_made_of(
    offset: u64,
    data: Vec<u8>,
    r: ByteRange,
    empty: bool,
    len: u64,
)
    requires
        call_ensures(ByteRange::new, (offset, data), r),
        call_ensures(ByteRange::is_empty, (&r,), empty),
        call_ensures(ByteRange::len, (&r,), len),
    ensures
        r.offset == offset,
        r.data@ == data@,
        empty <==> data@.len() == 0,
        len == data@.len(),
{
}

/// What was closed is lost to its caller: the error says so, and names it.
pub proof fn what_was_closed_is_lost(what: &str, r: KernelError)
    requires
        call_ensures(already_closed, (what,), r),
    ensures
        r@ is ConnectionLost,
        r@->ConnectionLost_detail == "this "@ + what@ + " has already been closed"@,
{
}

} // verus!
