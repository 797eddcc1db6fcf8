//! What a listing says of an entry.

use vstd::prelude::*;

verus! {

/// Nanoseconds in a second.
pub const NANOS_PER_SEC: u32 = 1_000_000_000;

/// A point in time: whole seconds since the Unix epoch, rounded down, and the
/// nanoseconds after them.
#[derive(Clone, Copy, PartialEq, Eq, PartialOrd, Ord, Debug, Hash, Structural)]
pub struct Timestamp {
    pub secs: i64,
    pub nanos: u32,
}

impl Timestamp {
    /// Whether the nanoseconds stay below a second.
    pub open spec fn wf(self) -> bool {
        self.nanos < NANOS_PER_SEC
    }
}

/// What kind of thing an entry is.
///
/// Kept deliberately small. Protocols disagree wildly about the finer
/// distinctions, so anything beyond this set would be a lie for at least one
/// backend.
#[derive(Clone, Copy, PartialEq, Eq, Debug, Hash, Structural)]
pub enum EntryKind {
    File,
    Directory,
    /// A symbolic link or protocol equivalent.
    Symlink,
    /// Something that is neither file nor directory and has no portable
    /// equivalent: an SMB named pipe, a device node, a socket.
    Other,
}

impl EntryKind {
    pub fn is_dir(self) -> (r: bool)
        ensures
            r == (self is Directory),
    {
        matches!(self, EntryKind::Directory)
    }

    pub fn is_file(self) -> (r: bool)
        ensures
            r == (self is File),
    {
        matches!(self, EntryKind::File)
    }
}

/// Portable metadata for a single entry.
///
/// Only fields that every backend can meaningfully populate appear here.
/// Protocol-specific attributes stay inside the backend.
#[derive(Clone, Copy, PartialEq, Eq, Debug, Structural)]
pub struct Metadata {
    pub kind: EntryKind,
    pub len: u64,
    /// Last modification time, if the backend reports one.
    pub modified: Option<Timestamp>,
    /// Creation time. Absent on backends that do not track it.
    pub created: Option<Timestamp>,
    pub accessed: Option<Timestamp>,
    /// Whether the entry is protected from writing.
    pub read_only: bool,
}

impl Metadata {
    pub fn file(len: u64) -> (r: Self)
        ensures
            r == (Metadata {
                kind: EntryKind::File,
                len,
                modified: None,
                created: None,
                accessed: None,
                read_only: false,
            }),
    {
        Metadata {
            kind: EntryKind::File,
            len,
            modified: None,
            created: None,
            accessed: None,
            read_only: false,
        }
    }

    pub fn directory() -> (r: Self)
        ensures
            r == (Metadata {
                kind: EntryKind::Directory,
                len: 0,
                modified: None,
                created: None,
                accessed: None,
                read_only: false,
            }),
    {
        Metadata {
            kind: EntryKind::Directory,
            len: 0,
            modified: None,
            created: None,
            accessed: None,
            read_only: false,
        }
    }

    pub fn is_dir(&self) -> (r: bool)
        ensures
            r == (self.kind is Directory),
    {
        self.kind.is_dir()
    }

    pub fn is_file(&self) -> (r: bool)
        ensures
            r == (self.kind is File),
    {
        self.kind.is_file()
    }
}

/// A directory listing entry: a name plus the metadata that came with it.
///
/// The metadata is carried inline on purpose. Splitting it out would invite
/// callers to list and then ask after each result, which over a network is one
/// round-trip per entry.
#[derive(Clone, PartialEq, Eq, Debug)]
pub struct Entry {
    /// The entry's name, exactly as the backend reported it.
    ///
    /// Callers must use this value verbatim when addressing the entry later.
    pub name: String,
    pub metadata: Metadata,
}

/// An [`Entry`] with its name as a sequence of characters.
#[verifier::ext_equal]
pub struct EntryView {
    pub name: Seq<char>,
    pub metadata: Metadata,
}

impl View for Entry {
    type V = EntryView;

    open spec fn view(&self) -> EntryView {
        EntryView { name: self.name@, metadata: self.metadata }
    }
}

impl Entry {
    pub fn new(name: &str, metadata: Metadata) -> (r: Self)
        ensures
            r@ == (EntryView { name: name@, metadata }),
    {
        Entry { name: name.to_owned(), metadata }
    }

    pub fn is_dir(&self) -> (r: bool)
        ensures
            r == (self@.metadata.kind is Directory),
    {
        self.metadata.is_dir()
    }
}

/// Metadata made by hand is of the kind that was asked for, and claims nothing
/// that was not said; an entry is made of its name and its metadata.
pub proof fn entries_are_made_of_what_they_are_given(
    len: u64,
    file: Metadata,
    dir: Metadata,
    name: &str,
    m: Metadata,
    e: Entry,
    e_is_dir: bool,
    m_is_dir: bool,
    m_is_file: bool,
)
    requires
        call_ensures(Metadata::file, (len,), file),
        call_ensures(Metadata::directory, (), dir),
        call_ensures(Entry::new, (name, m), e),
        call_ensures(Entry::is_dir, (&e,), e_is_dir),
        call_ensures(Metadata::is_dir, (&m,), m_is_dir),
        call_ensures(Metadata::is_file, (&m,), m_is_file),
    ensures
        file.kind is File && file.len == len && file.modified is None && !file.read_only,
        dir.kind is Directory && dir.len == 0 && dir.modified is None && !dir.read_only,
        e.name@ == name@ && e.metadata == m,
        e_is_dir <==> m.kind is Directory,
        m_is_dir <==> m.kind is Directory,
        m_is_file <==> m.kind is File,
{
}

} // verus!
