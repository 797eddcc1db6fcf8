//! A file open on a session, as the facade sees it.

use vstd::prelude::*;
use crate::backend::{self, Asked, FileHandle};
use crate::cache::{self, Fill, FillView};
use crate::facade::error::{exported, KernelError, KernelErrorView};
use crate::facade::types::{self, already_closed, ByteRange};

verus! {

/// A file open on a session: what is known without asking the backend.
pub struct RemoteFile {
    path: String,
    /// Size as last observed. Cached so that it can be had without waiting,
    /// which is what a caller wants for sizing a buffer.
    len: u64,
    closed: bool,
}

/// A [`RemoteFile`] as plain values.
#[verifier::ext_equal]
pub struct RemoteView {
    pub path: Seq<char>,
    pub len: u64,
    pub closed: bool,
}

impl View for RemoteFile {
    type V = RemoteView;

    closed spec fn view(&self) -> RemoteView {
        RemoteView { path: self.path@, len: self.len, closed: self.closed }
    }
}

/// What came back from a read, as plain values: where the bytes start, and the
/// bytes.
pub open spec fn received(r: Result<ByteRange, KernelError>) -> Result<
    (u64, Seq<u8>),
    KernelErrorView,
> {
    match r {
        Ok(range) => Ok((range.offset, range.data@)),
        Err(e) => Err(e@),
    }
}

/// What a read of up to `len` bytes of an open file comes to, given what the
/// handle was asked for and answered. Nothing is asked for an empty range. A
/// handle that fails makes it fail with that error, and nothing else does.
pub open spec fn is_ranged_read(
    contents: Seq<u8>,
    offset: u64,
    len: nat,
    asked: Seq<Asked>,
    outcome: Result<(u64, Seq<u8>), KernelErrorView>,
) -> bool {
    if len == 0 {
        asked.len() == 0 && outcome == Ok::<_, KernelErrorView>((offset, Seq::<u8>::empty()))
    } else {
        &&& backend::is_chain(offset, len, asked)
        &&& match backend::last_answer(asked) {
            Err(e) => outcome == Err::<(u64, Seq<u8>), _>(exported(e)),
            Ok(_) => {
                &&& backend::is_complete(asked)
                &&& outcome == Ok::<_, KernelErrorView>(
                    (offset, backend::visible(contents, offset as int, len as int)),
                )
            },
        }
    }
}

/// What a read of all of `len` bytes of an open file comes to, given what the
/// handle was asked for and answered. It fails where the handle does, and where
/// the file ends before the range does.
pub open spec fn is_exact_ranged_read(
    contents: Seq<u8>,
    offset: u64,
    len: nat,
    asked: Seq<Asked>,
    outcome: Result<(u64, Seq<u8>), KernelErrorView>,
) -> bool {
    if len == 0 {
        asked.len() == 0 && outcome == Ok::<_, KernelErrorView>((offset, Seq::<u8>::empty()))
    } else {
        &&& backend::is_chain(offset, len, asked)
        &&& match backend::last_answer(asked) {
            Err(e) => outcome == Err::<(u64, Seq<u8>), _>(exported(e)),
            Ok(_) => if offset + len <= contents.len() {
                outcome == Ok::<_, KernelErrorView>(
                    (offset, contents.subrange(offset as int, offset + len)),
                )
            } else {
                outcome == Err::<(u64, Seq<u8>), _>(
                    exported(
                        backend::early_end(
                            backend::visible(contents, offset as int, len as int).len(),
                            len,
                            offset as nat,
                        ),
                    ),
                )
            },
        }
    }
}

/// Whether a read of `len` bytes has nothing left to ask for.
spec fn fetched(offset: u64, len: nat, asked: Seq<Asked>) -> bool {
    if len == 0 {
        asked.len() == 0
    } else {
        backend::is_chain(offset, len, asked) && backend::is_complete(asked)
    }
}

impl RemoteFile {
    /// A file that was just opened; `len` is the size observed then.
    pub fn new(path: &str, len: u64) -> (r: Self)
        ensures
            r@ == (RemoteView { path: path@, len, closed: false }),
    {
        RemoteFile { path: path.to_owned(), len, closed: false }
    }

    /// The path this file was opened from.
    pub fn path(&self) -> (r: String)
        ensures
            r@ == self@.path,
    {
        self.path.clone()
    }

    /// The file's size, as observed when it was opened or last written.
    pub fn len(&self) -> (r: u64)
        ensures
            r == self@.len,
    {
        self.len
    }

    pub fn is_empty(&self) -> (r: bool)
        ensures
            r == (self@.len == 0),
    {
        self.len == 0
    }

    pub fn is_closed(&self) -> (r: bool)
        ensures
            r == self@.closed,
    {
        self.closed
    }

    /// Reject a call on a file that was closed.
    pub fn ensure_open(&self) -> (r: Result<(), KernelError>)
        ensures
            if self@.closed {
                r matches Err(e) && e@ == types::closed_error("file"@)
            } else {
                r is Ok
            },
    {
        if self.closed {
            return Err(already_closed("file"));
        }
        Ok(())
    }

    /// Read up to `len` bytes starting at `offset`.
    ///
    /// Returns fewer bytes than asked for only at end-of-file. A backend may
    /// answer any read short, so this goes on until everything is there or the
    /// file ends.
    pub fn read_at<H: FileHandle>(&self, handle: &mut H, offset: u64, len: u32) -> (r: Result<
        ByteRange,
        KernelError,
    >)
        requires
            backend::ready(old(handle)),
        ensures
            backend::ready(final(handle)),
            final(handle).contents() == old(handle).contents(),
            final(handle).opened_len() == old(handle).opened_len(),
            final(handle).flushed() == old(handle).flushed(),
            if self@.closed {
                &&& r matches Err(e) && e@ == types::closed_error("file"@)
                &&& final(handle).log() == old(handle).log()
            } else {
                &&& old(handle).log().is_prefix_of(final(handle).log())
                &&& is_ranged_read(
                    old(handle).contents(),
                    offset,
                    len as nat,
                    backend::since(final(handle).log(), old(handle).log()),
                    received(r),
                )
            },
    {
        match self.ensure_open() {
            Err(e) => {
                return Err(e);
            },
            Ok(_) => {},
        }
        let ghost contents = handle.contents();
        let ghost before = handle.log();
        let mut fill = Fill::new(offset, len as usize);
        assert(backend::since(before, before) =~= Seq::<Asked>::empty());
        loop
            invariant_except_break
                !fill@.eof,
                if fill@.data.len() < len {
                    backend::is_under_way(
                        offset,
                        len as nat,
                        backend::since(handle.log(), before),
                        fill@.data.len(),
                    )
                } else {
                    fetched(offset, len as nat, backend::since(handle.log(), before))
                },
            invariant
                !self@.closed,
                before == old(handle).log(),
                before.is_prefix_of(handle.log()),
                handle.opened_len() == old(handle).opened_len(),
                handle.flushed() == old(handle).flushed(),
                backend::ready(handle),
                handle.contents() == contents,
                contents == old(handle).contents(),
                contents.len() <= u64::MAX,
                fill@.wf(),
                fill@.start == offset,
                fill@.target == len,
                fill@.window().holds_of(contents),
            ensures
                fill@.complete(),
                fetched(offset, len as nat, backend::since(handle.log(), before)),
            decreases len - fill@.data.len(),
        {
            match fill.next() {
                None => {
                    break;
                },
                Some((at, missing)) => {
                    let mut chunk: Vec<u8> = vec![0; missing];
                    let ghost log = handle.log();
                    let outcome = handle.read_at(at, chunk.as_mut_slice());
                    proof {
                        let answer = backend::counted(outcome);
                        backend::logging(
                            before,
                            log,
                            backend::read_asked(at, missing as nat, answer),
                        );
                        backend::asking_on(
                            offset,
                            len as nat,
                            backend::since(log, before),
                            fill@.data.len(),
                            answer,
                        );
                    }
                    match outcome {
                        Err(e) => {
                            return Err(KernelError::from(e));
                        },
                        Ok(n) => {
                            proof {
                                cache::absorbing_keeps_the_window_true(
                                    fill@,
                                    FillView {
                                        data: fill@.data + chunk@.take(n as int),
                                        eof: n == 0,
                                        ..fill@
                                    },
                                    chunk@,
                                    n as int,
                                    contents,
                                );
                            }
                            fill.absorb(chunk, n);
                            if n == 0 {
                                break;
                            }
                        },
                    }
                },
            }
        }
        proof {
            cache::a_complete_fetch_is_the_whole_read(fill@, contents);
            if len == 0 {
                assert(fill@.data =~= Seq::<u8>::empty());
            }
        }
        Ok(ByteRange::new(offset, fill.into_data()))
    }

    /// Read exactly `len` bytes, or fail.
    ///
    /// What a caller wants for fixed-size reads, where a short result means
    /// that something is wrong rather than end-of-file.
    pub fn read_exact_at<H: FileHandle>(&self, handle: &mut H, offset: u64, len: u32) -> (r: Result<
        ByteRange,
        KernelError,
    >)
        requires
            backend::ready(old(handle)),
        ensures
            backend::ready(final(handle)),
            final(handle).contents() == old(handle).contents(),
            final(handle).opened_len() == old(handle).opened_len(),
            final(handle).flushed() == old(handle).flushed(),
            if self@.closed {
                &&& r matches Err(e) && e@ == types::closed_error("file"@)
                &&& final(handle).log() == old(handle).log()
            } else {
                &&& old(handle).log().is_prefix_of(final(handle).log())
                &&& is_exact_ranged_read(
                    old(handle).contents(),
                    offset,
                    len as nat,
                    backend::since(final(handle).log(), old(handle).log()),
                    received(r),
                )
            },
    {
        match self.ensure_open() {
            Err(e) => {
                return Err(e);
            },
            Ok(_) => {},
        }
        let mut data: Vec<u8> = vec![0; len as usize];
        let outcome = handle.read_exact_at(offset, data.as_mut_slice());
        assert(len == 0 ==> data@ =~= Seq::<u8>::empty());
        match outcome {
            Ok(_) => Ok(ByteRange::new(offset, data)),
            Err(e) => Err(KernelError::from(e)),
        }
    }

    /// A write past the old end extends the file, so the known length grows
    /// with it.
    pub fn wrote(&mut self, offset: u64, written: usize)
        requires
            offset + written <= u64::MAX,
        ensures
            final(self)@ == (RemoteView {
                len: if old(self)@.len < offset + written {
                    (offset + written) as u64
                } else {
                    old(self)@.len
                },
                ..old(self)@
            }),
    {
        let end: u64 = offset + written as u64;
        if self.len < end {
            self.len = end;
        }
    }

    /// The file was cut or extended.
    pub fn resized(&mut self, len: u64)
        ensures
            final(self)@ == (RemoteView { len, ..old(self)@ }),
    {
        self.len = len;
    }

    /// Marks the file closed. Returns whether the handle has to be released:
    /// only the first time.
    pub fn close(&mut self) -> (r: bool)
        ensures
            r == !old(self)@.closed,
            final(self)@ == (RemoteView { closed: true, ..old(self)@ }),
    {
        let first = !self.closed;
        self.closed = true;
        first
    }
}

// ---------------------------------------------------------------------------
// Laws
// ---------------------------------------------------------------------------

/// A write makes the known length reach its end, and never shrinks it; a resize
/// sets it.
pub proof fn the_known_length_follows_the_file(
    f: &mut RemoteFile,
    offset: u64,
    written: usize,
    g: &mut RemoteFile,
    len: u64,
)
    requires
        offset + written <= u64::MAX,
        call_ensures(RemoteFile::wrote, (f, offset, written), ()),
        call_ensures(RemoteFile::resized, (g, len), ()),
    ensures
        final(f)@.len >= offset + written,
        final(f)@.len >= old(f)@.len,
        final(f)@.len == offset + written || final(f)@.len == old(f)@.len,
        final(f)@.path == old(f)@.path && final(f)@.closed == old(f)@.closed,
        final(g)@.len == len,
        final(g)@.path == old(g)@.path && final(g)@.closed == old(g)@.closed,
{
}

/// A read of an open file whose handle does not fail gives the bytes of the file
/// from the offset on: all that were asked for where the file has them, and else
/// all that it has.
pub proof fn a_read_gives_the_bytes_of_the_file(
    contents: Seq<u8>,
    offset: u64,
    len: nat,
    asked: Seq<Asked>,
    outcome: Result<(u64, Seq<u8>), KernelErrorView>,
)
    requires
        len > 0,
        is_ranged_read(contents, offset, len, asked, outcome),
        backend::last_answer(asked) is Ok,
    ensures
        outcome matches Ok((at, data)) && {
            &&& at == offset
            &&& data.len() <= len
            &&& offset < contents.len() ==> data == contents.subrange(
                offset as int,
                offset + data.len(),
            )
            &&& data.len() < len ==> offset + data.len() >= contents.len()
            &&& offset >= contents.len() ==> data.len() == 0
        },
{
    let data = outcome->Ok_0.1;
    if offset < contents.len() {
        assert(data =~= contents.subrange(offset as int, offset + data.len()));
    }
}

/// A file is closed once.
pub proof fn a_file_is_closed_once(f: &mut RemoteFile, first: bool)
    requires
        call_ensures(RemoteFile::close, (f,), first),
    ensures
        first <==> !old(f)@.closed,
        final(f)@.closed,
        final(f)@.path == old(f)@.path && final(f)@.len == old(f)@.len,
{
}

/// A read of all of a range of an open file whose handle does not fail gives
/// exactly those bytes, or says that the file ended first.
pub proof fn an_exact_read_gives_all_or_fails(
    contents: Seq<u8>,
    offset: u64,
    len: nat,
    asked: Seq<Asked>,
    outcome: Result<(u64, Seq<u8>), KernelErrorView>,
)
    requires
        len > 0,
        is_exact_ranged_read(contents, offset, len, asked, outcome),
        backend::last_answer(asked) is Ok,
    ensures
        outcome is Ok <==> offset + len <= contents.len(),
        outcome matches Ok((at, data)) ==> at == offset && data.len() == len && forall|i: int|
            0 <= i < len ==> #[trigger] data[i] == contents[offset + i],
        outcome matches Err(e) ==> e is Backend,
{
}

/// A failed handle makes either read fail, with that failure.
pub proof fn a_failed_handle_fails_the_read(
    contents: Seq<u8>,
    offset: u64,
    len: nat,
    asked: Seq<Asked>,
    some: Result<(u64, Seq<u8>), KernelErrorView>,
    all: Result<(u64, Seq<u8>), KernelErrorView>,
)
    requires
        len > 0,
        is_ranged_read(contents, offset, len, asked, some),
        is_exact_ranged_read(contents, offset, len, asked, all),
        backend::last_answer(asked) is Err,
    ensures
        some is Err && all is Err,
        some->Err_0 == exported(backend::last_answer(asked)->Err_0),
        all->Err_0 == some->Err_0,
{
}

/// A file knows what it was opened with.
pub proof fn a_file_knows_what_it_was_opened_with(
    path: &str,
    len: u64,
    f: RemoteFile,
    known_path: String,
    known_len: u64,
    empty: bool,
    closed: bool,
    open: Result<(), KernelError>,
)
    requires
        call_ensures(RemoteFile::new, (path, len), f),
        call_ensures(RemoteFile::path, (&f,), known_path),
        call_ensures(RemoteFile::len, (&f,), known_len),
        call_ensures(RemoteFile::is_empty, (&f,), empty),
        call_ensures(RemoteFile::is_closed, (&f,), closed),
        call_ensures(RemoteFile::ensure_open, (&f,), open),
    ensures
        known_path@ == path@,
        known_len == len,
        empty <==> len == 0,
        !closed,
        open is Ok,
{
}

} // verus!
