//! A backend rooted at one local directory.

use vstd::prelude::*;
use crate::backend::StorageBackend;
use crate::capabilities::Capabilities;
use crate::entry::{Entry, EntryKind, EntryView, Metadata, Timestamp};
use crate::error::{Error, ErrorView, IoError, IoErrorKind, IoErrorView};
use crate::listing;
use crate::local::driver;
use crate::path::{self, VfsPath};
use crate::text;

verus! {

// ---------------------------------------------------------------------------
// Errors
// ---------------------------------------------------------------------------

/// What a failed operation on a path means.
pub open spec fn io_meaning(e: IoErrorView, path: Seq<char>) -> ErrorView {
    match e.kind {
        IoErrorKind::NotFound => ErrorView::NotFound { path },
        IoErrorKind::PermissionDenied => ErrorView::PermissionDenied { path },
        IoErrorKind::AlreadyExists => ErrorView::AlreadyExists { path },
        IoErrorKind::NotADirectory => ErrorView::NotADirectory { path },
        IoErrorKind::IsADirectory => ErrorView::IsADirectory { path },
        IoErrorKind::DirectoryNotEmpty => ErrorView::DirectoryNotEmpty { path },
        _ => ErrorView::Io(e),
    }
}

/// Translate a per-operation failure into the portable error model.
///
/// Everything that has no variant of its own keeps its description, so no
/// diagnostic detail is thrown away. The path is attached because the
/// underlying error frequently does not mention which path failed.
pub fn map_io(err: IoError, path: &VfsPath) -> (r: Error)
    ensures
        r@ == io_meaning(err@, path::rendered(path@)),
{
    match err.kind {
        IoErrorKind::NotFound => Error::NotFound { path: path.to_string() },
        IoErrorKind::PermissionDenied => Error::PermissionDenied { path: path.to_string() },
        IoErrorKind::AlreadyExists => Error::AlreadyExists { path: path.to_string() },
        IoErrorKind::NotADirectory => Error::NotADirectory { path: path.to_string() },
        IoErrorKind::IsADirectory => Error::IsADirectory { path: path.to_string() },
        IoErrorKind::DirectoryNotEmpty => Error::DirectoryNotEmpty { path: path.to_string() },
        _ => Error::Io(err),
    }
}

// ---------------------------------------------------------------------------
// Metadata
// ---------------------------------------------------------------------------

/// What the filesystem says of an entry.
#[derive(Clone, Copy, PartialEq, Eq, Debug, Structural)]
pub struct LocalStat {
    pub is_symlink: bool,
    pub is_dir: bool,
    pub is_file: bool,
    pub len: u64,
    pub modified: Option<Timestamp>,
    pub created: Option<Timestamp>,
    pub accessed: Option<Timestamp>,
    pub read_only: bool,
}

/// The portable metadata of an entry. A symlink is a symlink, whatever else the
/// filesystem says of it.
pub open spec fn portable(st: LocalStat) -> Metadata {
    Metadata {
        kind: if st.is_symlink {
            EntryKind::Symlink
        } else if st.is_dir {
            EntryKind::Directory
        } else if st.is_file {
            EntryKind::File
        } else {
            EntryKind::Other
        },
        len: st.len,
        modified: st.modified,
        created: st.created,
        accessed: st.accessed,
        read_only: st.read_only,
    }
}

pub fn to_metadata(st: &LocalStat) -> (r: Metadata)
    ensures
        r == portable(*st),
{
    let kind = if st.is_symlink {
        EntryKind::Symlink
    } else if st.is_dir {
        EntryKind::Directory
    } else if st.is_file {
        EntryKind::File
    } else {
        EntryKind::Other
    };
    Metadata {
        kind,
        len: st.len,
        modified: st.modified,
        created: st.created,
        accessed: st.accessed,
        read_only: st.read_only,
    }
}

/// An enumerated entry, and what the filesystem says of it: `None` where it
/// vanished meanwhile, or cannot be seen.
pub struct RawEntry {
    pub name: String,
    pub st: Option<LocalStat>,
}

/// The enumerated entries that can be described, in the order they came.
pub open spec fn described(raw: Seq<RawEntry>) -> Seq<EntryView>
    decreases raw.len(),
{
    if raw.len() == 0 {
        Seq::empty()
    } else {
        match raw.last().st {
            Some(st) => described(raw.drop_last()).push(
                EntryView { name: raw.last().name@, metadata: portable(st) },
            ),
            None => described(raw.drop_last()),
        }
    }
}

/// Turns what the filesystem enumerated into a listing.
///
/// An entry that cannot be described is skipped: that keeps the rest of the
/// listing usable, which is what a file browser wants.
pub fn list_entries(raw: Vec<RawEntry>) -> (r: Vec<Entry>)
    ensures
        listing::views(r@) == listing::by_name(described(raw@)),
{
    let ghost all = raw@;
    let mut entries: Vec<Entry> = Vec::new();
    assert(listing::views(entries@) =~= described(all.take(0)));
    for e in it: raw
        invariant
            it.seq() == all,
            listing::views(entries@) == described(all.take(it.index())),
    {
        proof {
            assert(all.take(it.index() + 1).drop_last() =~= all.take(it.index()));
            assert(all.take(it.index() + 1).last() == e);
        }
        let ghost before = listing::views(entries@);
        match e.st {
            Some(st) => {
                entries.push(Entry { metadata: to_metadata(&st), name: e.name });
                assert(listing::views(entries@) =~= before.push(
                    EntryView { name: e.name@, metadata: portable(st) },
                ));
            },
            None => {},
        }
    }
    assert(all.take(all.len() as int) =~= all);
    listing::sort_entries(entries)
}

// ---------------------------------------------------------------------------
// The backend
// ---------------------------------------------------------------------------

/// A backend rooted at one local directory.
pub struct LocalBackend {
    root: String,
    separator: char,
    endpoint: String,
}

/// `root` with a separator and a segment after it for each segment.
pub open spec fn resolved(root: Seq<char>, separator: char, segs: Seq<Seq<char>>) -> Seq<char>
    decreases segs.len(),
{
    if segs.len() == 0 {
        root
    } else {
        resolved(root, separator, segs.drop_last()).push(separator) + segs.last()
    }
}

impl LocalBackend {
    /// The root's text.
    pub closed spec fn root_text(&self) -> Seq<char> {
        self.root@
    }

    /// The character between the components of a path on this platform.
    pub closed spec fn separator(&self) -> char {
        self.separator
    }

    /// A backend for a canonical directory, on a platform with the given
    /// separator.
    pub fn new(root: &str, separator: char) -> (r: Self)
        ensures
            r.root_text() == root@,
            r.separator() == separator,
            r.endpoint_text() == "file://"@ + driver::uri_rest(root@),
    {
        LocalBackend { root: root.to_owned(), separator, endpoint: driver::uri_for(root) }
    }

    pub fn root(&self) -> (r: &str)
        ensures
            r@ == self.root_text(),
    {
        self.root.as_str()
    }

    /// Map a virtual path onto the filesystem.
    ///
    /// Cannot escape the root: the segments of a path contain no separators and
    /// no `..`, so concatenation is confined to the subtree. Symbolic links
    /// *inside* the root may still point outside it.
    pub fn resolve(&self, path: &VfsPath) -> (r: String)
        ensures
            r@ == resolved(self.root_text(), self.separator(), path@),
    {
        let segments = path.segments();
        let ghost segs = path@;
        let mut out = self.root.clone();
        let mut i: usize = 0;
        assert(segs.take(0) =~= Seq::<Seq<char>>::empty());
        while i < segments.len()
            invariant
                i <= segments@.len(),
                text::texts(segments@) == segs,
                out@ == resolved(self.root@, self.separator, segs.take(i as int)),
            decreases segments@.len() - i,
        {
            out.push(self.separator);
            out.append(&segments[i]);
            proof {
                assert(segs.take(i + 1).drop_last() =~= segs.take(i as int));
                assert(segs.take(i + 1).last() == segments@[i as int]@);
            }
            i = i + 1;
        }
        assert(segs.take(segs.len() as int) =~= segs);
        out
    }
}

impl StorageBackend for LocalBackend {
    closed spec fn endpoint_text(&self) -> Seq<char> {
        self.endpoint@
    }

    fn endpoint(&self) -> (r: &str) {
        self.endpoint.as_str()
    }

    fn capabilities(&self) -> (r: Capabilities)
        ensures
            r == Capabilities::full(),
    {
        Capabilities::full()
    }
}

// ---------------------------------------------------------------------------
// Laws
// ---------------------------------------------------------------------------

/// Resolving cannot escape the root: the result starts with the root, and what
/// follows it splits at the separator into the path's own segments, none of
/// which is `..`.
pub proof fn resolving_stays_under_the_root(
    root: Seq<char>,
    separator: char,
    segs: Seq<Seq<char>>,
)
    requires
        path::are_segments(segs),
        separator == '/' || separator == '\\',
    ensures
        root.is_prefix_of(resolved(root, separator, segs)),
        text::pieces(resolved(root, separator, segs).skip(root.len() as int), path::separators())
            == seq![Seq::<char>::empty()] + segs,
        !segs.contains(path::dotdot()),
    decreases segs.len(),
{
    let seps = path::separators();
    let whole = resolved(root, separator, segs);
    let empty = Seq::<char>::empty();
    if segs.len() == 0 {
        assert(whole.skip(root.len() as int) =~= empty);
        assert(seq![empty] + segs =~= seq![empty]);
    } else {
        let init = segs.drop_last();
        assert forall|i: int| 0 <= i < init.len() implies path::is_segment(#[trigger] init[i]) by {
            assert(init[i] == segs[i]);
        }
        resolving_stays_under_the_root(root, separator, init);
        let before = resolved(root, separator, init);
        let tail = before.skip(root.len() as int);
        assert(path::is_segment(segs[segs.len() - 1]));
        text::pieces_of_plain(segs.last(), seps);
        text::pieces_across_separator(tail, separator, segs.last(), seps);
        assert(whole.skip(root.len() as int) =~= tail.push(separator) + segs.last());
        assert(seq![empty] + init + seq![segs.last()] =~= seq![empty] + segs);
        if segs.contains(path::dotdot()) {
            let k = choose|k: int| 0 <= k < segs.len() && segs[k] == path::dotdot();
            assert(path::is_segment(segs[k]));
        }
    }
}

/// A failure that callers can act on becomes the error of that name, against the
/// path it is about; any other stays as it is, with its description.
pub proof fn failures_keep_their_meaning(err: IoError, path: VfsPath, r: Error)
    requires
        call_ensures(map_io, (err, &path), r),
    ensures
        err.kind is NotFound ==> r@ == (ErrorView::NotFound { path: path::rendered(path@) }),
        err.kind is PermissionDenied ==> r@ == (ErrorView::PermissionDenied {
            path: path::rendered(path@),
        }),
        err.kind is AlreadyExists ==> r@ == (ErrorView::AlreadyExists {
            path: path::rendered(path@),
        }),
        err.kind is NotADirectory ==> r@ == (ErrorView::NotADirectory {
            path: path::rendered(path@),
        }),
        err.kind is IsADirectory ==> r@ == (ErrorView::IsADirectory {
            path: path::rendered(path@),
        }),
        err.kind is DirectoryNotEmpty ==> r@ == (ErrorView::DirectoryNotEmpty {
            path: path::rendered(path@),
        }),
        err.kind is Interrupted || err.kind is TimedOut || err.kind is UnexpectedEof || err.kind
            is Other ==> r@ == ErrorView::Io(err@),
{
}

/// What the filesystem says of an entry arrives field by field. A symlink is a
/// symlink, whatever it points to; of everything else a directory is a directory
/// and a file a file.
pub proof fn metadata_is_what_the_filesystem_says(st: LocalStat, r: Metadata)
    requires
        call_ensures(to_metadata, (&st,), r),
    ensures
        r.len == st.len,
        r.modified == st.modified,
        r.created == st.created,
        r.accessed == st.accessed,
        r.read_only == st.read_only,
        r.kind is Symlink <==> st.is_symlink,
        r.kind is Directory <==> !st.is_symlink && st.is_dir,
        r.kind is File <==> !st.is_symlink && !st.is_dir && st.is_file,
        r.kind is Other <==> !st.is_symlink && !st.is_dir && !st.is_file,
{
}

proof fn what_can_be_described_is(raw: Seq<RawEntry>)
    ensures
        described(raw) == raw.filter(|e: RawEntry| e.st is Some).map_values(
            |e: RawEntry| EntryView { name: e.name@, metadata: portable(e.st->0) },
        ),
    decreases raw.len(),
{
    let keep = |e: RawEntry| e.st is Some;
    let show = |e: RawEntry| EntryView { name: e.name@, metadata: portable(e.st->0) };
    reveal(Seq::filter);
    if raw.len() > 0 {
        what_can_be_described_is(raw.drop_last());
    }
    assert(described(raw) =~= raw.filter(keep).map_values(show));
}

/// A listing is complete and holds nothing else: it is everything that was
/// enumerated and can be described, each under its name and with its own
/// metadata, in the order of the names.
pub proof fn a_listing_shows_everything_that_can_be_described(raw: Vec<RawEntry>, r: Vec<Entry>)
    requires
        call_ensures(list_entries, (raw,), r),
    ensures
        listing::views(r@).to_multiset() == raw@.filter(|e: RawEntry| e.st is Some).map_values(
            |e: RawEntry| EntryView { name: e.name@, metadata: portable(e.st->0) },
        ).to_multiset(),
        r@.len() == raw@.filter(|e: RawEntry| e.st is Some).len(),
        forall|i: int, j: int|
            0 <= i < j < r@.len() ==> !text::text_before(
                (#[trigger] r@[j]).name@,
                (#[trigger] r@[i]).name@,
            ),
{
    what_can_be_described_is(raw@);
    listing::listings_are_sorted_and_complete(described(raw@));
    let out = listing::views(r@);
    assert forall|i: int, j: int| 0 <= i < j < r@.len() implies !text::text_before(
        (#[trigger] r@[j]).name@,
        (#[trigger] r@[i]).name@,
    ) by {
        assert(out[i].name == r@[i].name@ && out[j].name == r@[j].name@);
    }
}

/// Resolving puts the platform's own separator before each segment: no other
/// separator stands behind the root.
pub proof fn only_the_platforms_separator_is_used(
    root: Seq<char>,
    separator: char,
    segs: Seq<Seq<char>>,
)
    requires
        path::are_segments(segs),
    ensures
        root.is_prefix_of(resolved(root, separator, segs)),
        forall|i: int|
            #![trigger resolved(root, separator, segs)[i]]
            root.len() <= i < resolved(root, separator, segs).len() && (resolved(
                root,
                separator,
                segs,
            )[i] == '/' || resolved(root, separator, segs)[i] == '\\') ==> resolved(
                root,
                separator,
                segs,
            )[i] == separator,
        segs.len() > 0 ==> resolved(root, separator, segs) == resolved(
            root,
            separator,
            segs.drop_last(),
        ) + seq![separator] + segs.last(),
        segs.len() == 0 ==> resolved(root, separator, segs) == root,
    decreases segs.len(),
{
    if segs.len() > 0 {
        let init = segs.drop_last();
        assert forall|i: int| 0 <= i < init.len() implies path::is_segment(#[trigger] init[i]) by {
            assert(init[i] == segs[i]);
        }
        only_the_platforms_separator_is_used(root, separator, init);
        let before = resolved(root, separator, init);
        let whole = resolved(root, separator, segs);
        let last = segs.last();
        assert(path::is_segment(segs[segs.len() - 1]));
        assert(whole =~= before + seq![separator] + last);
        assert forall|i: int|
            #![trigger whole[i]]
            root.len() <= i < whole.len() && (whole[i] == '/' || whole[i]
                == '\\') implies whole[i] == separator by {
            if i < before.len() {
                assert(whole[i] == before[i]);
            } else if i > before.len() {
                assert(whole[i] == last[i - before.len() - 1]);
                assert(path::separators().contains(last[i - before.len() - 1]));
            }
        }
    }
}

/// A backend serves the root it was made for, under that root's URI, and claims
/// everything a filesystem can do.
pub proof fn a_local_backend_is_its_root(
    root: &str,
    separator: char,
    b: LocalBackend,
    served: &str,
    uri: String,
    endpoint: &str,
    claimed: Capabilities,
    path: VfsPath,
    resolved_text: String,
)
    requires
        call_ensures(LocalBackend::new, (root, separator), b),
        call_ensures(LocalBackend::root, (&b,), served),
        call_ensures(driver::uri_for, (root,), uri),
        call_ensures(<LocalBackend as StorageBackend>::endpoint, (&b,), endpoint),
        call_ensures(<LocalBackend as StorageBackend>::capabilities, (&b,), claimed),
        call_ensures(LocalBackend::resolve, (&b, &path), resolved_text),
    ensures
        served@ == root@,
        endpoint@ == uri@,
        claimed.random_read && claimed.random_write && claimed.atomic_rename && claimed.set_len
            && claimed.durable_flush && claimed.modification_times,
        path@.len() == 0 ==> resolved_text@ == root@,
        path@.len() == 1 ==> resolved_text@ == root@ + seq![separator] + path@[0],
{
    if path@.len() == 1 {
        let segs = path@;
        assert(segs.drop_last() =~= Seq::<Seq<char>>::empty());
        assert(resolved(root@, separator, segs.drop_last()) == root@);
        assert(resolved(root@, separator, segs) =~= root@ + seq![separator] + segs[0]);
    }
}

} // verus!
