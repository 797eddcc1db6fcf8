//! What requests do to a share.
//!
//! A share is modelled as the files and directories on it, by the texts of their
//! paths, and as what the open handles stand for. A server does what the client
//! library's calls say; that is all that is assumed of it. What follows is what a
//! request does to the share, in the terms of the caller who sent it.

use vstd::prelude::*;
use crate::backend;
use crate::path;
use crate::smb::actor::{self, Actor, Answer, CallView, Request, Step, StepView};

verus! {

/// What is on a share, and what is open on it.
#[verifier::ext_equal]
#[verifier::reject_recursive_types(H)]
pub struct Share<H> {
    /// The contents of each file, by the text of its path.
    pub files: Map<Seq<char>, Seq<u8>>,
    /// The texts of the paths of the directories.
    pub dirs: Set<Seq<char>>,
    /// The file behind each open handle.
    pub open: Map<H, Seq<char>>,
}

/// The path that a share-relative text names.
pub open spec fn named(relative: Seq<char>) -> Seq<char> {
    seq!['/'] + relative
}

/// Whether a server that does what a call says may go from `before` to `after`,
/// and answer so. Nothing else of the share changes.
pub open spec fn serves<H>(
    call: CallView<H>,
    before: Share<H>,
    answer: &Answer<H>,
    after: Share<H>,
) -> bool {
    match (call, *answer) {
        (CallView::Mkdir { path, .. }, Answer::Done) => after == (Share {
            dirs: before.dirs.insert(named(path)),
            ..before
        }),
        (CallView::Rmdir { path, .. }, Answer::Done) => after == (Share {
            dirs: before.dirs.remove(named(path)),
            ..before
        }),
        (CallView::Unlink { path, .. }, Answer::Done) => after == (Share {
            files: before.files.remove(named(path)),
            ..before
        }),
        (CallView::Rename { from, to, .. }, Answer::Done) => {
            &&& before.files.contains_key(named(from))
            &&& after == (Share {
                files: before.files.remove(named(from)).insert(
                    named(to),
                    before.files[named(from)],
                ),
                ..before
            })
        },
        (CallView::Open { path, .. }, Answer::Opened { handle, .. }) => {
            &&& !before.open.contains_key(handle)
            &&& after.open == before.open.insert(handle, named(path))
        },
        (CallView::Close { handle, .. }, Answer::Done) => after == (Share {
            open: before.open.remove(handle),
            ..before
        }),
        (CallView::Read { handle, offset, len }, Answer::Bytes(data)) => {
            &&& before.open.contains_key(handle)
            &&& before.files.contains_key(before.open[handle])
            &&& data@.len() <= len
            &&& data@ == backend::visible(
                before.files[before.open[handle]],
                offset as int,
                len as int,
            ).take(data@.len() as int)
            &&& data@.len() <= backend::visible(
                before.files[before.open[handle]],
                offset as int,
                len as int,
            ).len()
            &&& after == before
        },
        (CallView::Write { handle, offset, data }, Answer::Count(n)) => {
            &&& before.open.contains_key(handle)
            &&& before.files.contains_key(before.open[handle])
            &&& n <= data.len()
            &&& after.files.dom() == before.files.dom()
            &&& backend::is_write_of(
                before.files[before.open[handle]],
                after.files[before.open[handle]],
                offset as int,
                data.take(n as int),
            )
            &&& forall|p: Seq<char>|
                p != before.open[handle] && before.files.contains_key(p) ==> #[trigger] after.files[p]
                    == before.files[p]
            &&& after.dirs == before.dirs
            &&& after.open == before.open
        },
        (CallView::Truncate { handle, len }, Answer::Done) => {
            &&& before.open.contains_key(handle)
            &&& before.files.contains_key(before.open[handle])
            &&& after.files.dom() == before.files.dom()
            &&& backend::is_resize_of(
                before.files[before.open[handle]],
                after.files[before.open[handle]],
                len as int,
            )
            &&& forall|p: Seq<char>|
                p != before.open[handle] && before.files.contains_key(p) ==> #[trigger] after.files[p]
                    == before.files[p]
            &&& after.dirs == before.dirs
            &&& after.open == before.open
        },
        _ => true,
    }
}

/// A write puts the bytes it was given into the file behind the id, at the offset
/// it was given, as many as are acknowledged. The rest of the file and every other
/// file stay as they were.
pub proof fn a_write_lands_where_it_was_meant_to<H: Copy>(
    actor: &mut Actor<H>,
    id: u64,
    offset: u64,
    data: Vec<u8>,
    step: Step<H>,
    before: Share<H>,
    n: usize,
    after: Share<H>,
)
    requires
        old(actor).running(),
        old(actor).open_files().contains_key(id),
        call_ensures(
            Actor::<H>::receive,
            (actor, Request::WriteAt { id, offset, data }),
            step,
        ),
        step@ matches StepView::Call(call) ==> serves(call, before, &Answer::Count(n), after),
    ensures
        ({
            let file = before.open[old(actor).open_files()[id]];
            &&& step@ is Call
            &&& n <= data@.len()
            &&& forall|i: int|
                0 <= i < n ==> #[trigger] after.files[file][offset + i] == data@[i]
            &&& forall|i: int|
                0 <= i < before.files[file].len() && (i < offset || i >= offset + n)
                    ==> #[trigger] after.files[file][i] == before.files[file][i]
            &&& n > 0 ==> after.files[file].len() >= offset + n
            &&& forall|p: Seq<char>|
                p != file && before.files.contains_key(p) ==> #[trigger] after.files[p]
                    == before.files[p]
        }),
{
    actor::a_request_asks_for_what_it_says(actor, Request::WriteAt { id, offset, data }, step);
    let file = before.open[old(actor).open_files()[id]];
    let (f, g) = (before.files[file], after.files[file]);
    let part = data@.take(n as int);
    assert forall|i: int| 0 <= i < n implies #[trigger] g[offset + i] == data@[i] by {
        assert(g.subrange(offset as int, offset + part.len())[i] == part[i]);
    }
}

/// A read gives the bytes of the file behind the id, from the offset on, in
/// order, and no more than were asked for. It changes nothing.
pub proof fn a_read_gives_the_bytes_that_are_there<H: Copy>(
    actor: &mut Actor<H>,
    id: u64,
    offset: u64,
    len: u32,
    step: Step<H>,
    before: Share<H>,
    data: Vec<u8>,
    after: Share<H>,
)
    requires
        old(actor).running(),
        old(actor).open_files().contains_key(id),
        call_ensures(Actor::<H>::receive, (actor, Request::ReadAt { id, offset, len }), step),
        step@ matches StepView::Call(call) ==> serves(call, before, &Answer::Bytes(data), after),
    ensures
        ({
            let file = before.open[old(actor).open_files()[id]];
            &&& step@ is Call
            &&& data@.len() <= len
            &&& data@.len() > 0 ==> offset + data@.len() <= before.files[file].len()
            &&& forall|i: int|
                0 <= i < data@.len() ==> #[trigger] data@[i] == before.files[file][offset + i]
            &&& after == before
        }),
{
    actor::a_request_asks_for_what_it_says(actor, Request::ReadAt { id, offset, len }, step);
}

/// A rename leaves at the second path what was at the first, and nothing at the
/// first; everything else stays.
pub proof fn a_rename_moves_what_was_there<H: Copy>(
    actor: &mut Actor<H>,
    from: path::VfsPath,
    to: path::VfsPath,
    step: Step<H>,
    before: Share<H>,
    after: Share<H>,
    other: Seq<char>,
)
    requires
        old(actor).running(),
        !path::rendered(from@).contains('\0') && !path::rendered(to@).contains('\0'),
        call_ensures(Actor::<H>::receive, (actor, Request::Rename { from, to }), step),
        step@ matches StepView::Call(call) ==> serves(call, before, &Answer::Done, after),
    ensures
        ({
            let (a, b) = (path::rendered(from@), path::rendered(to@));
            &&& step@ is Call
            &&& before.files.contains_key(a)
            &&& after.files.contains_key(b) && after.files[b] == before.files[a]
            &&& a != b ==> !after.files.contains_key(a)
            &&& other != a && other != b ==> after.files.contains_key(other)
                == before.files.contains_key(other)
            &&& other != a && other != b && before.files.contains_key(other)
                ==> after.files[other] == before.files[other]
            &&& after.dirs == before.dirs
        }),
{
    actor::a_request_asks_for_what_it_says(actor, Request::Rename { from, to }, step);
}

/// Removing a file removes that file, removing a directory that directory, and
/// making one makes that one; nothing else on the share changes.
pub proof fn only_what_was_named_comes_and_goes<H: Copy>(
    actor: &mut Actor<H>,
    request: Request,
    at: path::VfsPath,
    step: Step<H>,
    before: Share<H>,
    after: Share<H>,
)
    requires
        old(actor).running(),
        !path::rendered(at@).contains('\0'),
        request == (Request::RemoveFile { path: at }) || request == (Request::RemoveDir {
            path: at,
        }) || request == (Request::Mkdir { path: at }),
        call_ensures(Actor::<H>::receive, (actor, request), step),
        step@ matches StepView::Call(call) ==> serves(call, before, &Answer::Done, after),
    ensures
        step@ is Call,
        request is RemoveFile ==> after == (Share {
            files: before.files.remove(path::rendered(at@)),
            ..before
        }),
        request is RemoveDir ==> after == (Share {
            dirs: before.dirs.remove(path::rendered(at@)),
            ..before
        }),
        request is Mkdir ==> after == (Share {
            dirs: before.dirs.insert(path::rendered(at@)),
            ..before
        }),
{
    actor::a_request_asks_for_what_it_says(actor, request, step);
}

/// Setting a length cuts or extends the file behind the id to that length, and
/// keeps the bytes before it; every other file stays.
pub proof fn a_resize_keeps_the_front_of_the_file<H: Copy>(
    actor: &mut Actor<H>,
    id: u64,
    len: u64,
    step: Step<H>,
    before: Share<H>,
    after: Share<H>,
)
    requires
        old(actor).running(),
        old(actor).open_files().contains_key(id),
        call_ensures(Actor::<H>::receive, (actor, Request::SetLen { id, len }), step),
        step@ matches StepView::Call(call) ==> serves(call, before, &Answer::Done, after),
    ensures
        ({
            let file = before.open[old(actor).open_files()[id]];
            &&& step@ is Call
            &&& after.files[file].len() == len
            &&& forall|i: int|
                0 <= i < len && i < before.files[file].len() ==> #[trigger] after.files[file][i]
                    == before.files[file][i]
            &&& forall|p: Seq<char>|
                p != file && before.files.contains_key(p) ==> #[trigger] after.files[p]
                    == before.files[p]
        }),
{
    actor::a_request_asks_for_what_it_says(actor, Request::SetLen { id, len }, step);
}

} // verus!
