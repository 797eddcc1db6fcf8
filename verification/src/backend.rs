//! The contract that every storage backend implements.

use vstd::prelude::*;
use crate::capabilities::Capabilities;
use crate::error::{Error, ErrorView, IoError, IoErrorKind};
use crate::text;

verus! {

/// How to open a file.
///
/// Modelled on the POSIX open flags because every protocol worth supporting
/// maps onto them, but exposed as a struct rather than a bitmask so that
/// invalid combinations are hard to express.
#[derive(Clone, Copy, PartialEq, Eq, Debug, Structural)]
pub struct OpenMode {
    read: bool,
    write: bool,
    create: bool,
    create_new: bool,
    truncate: bool,
}

/// What an [`OpenMode`] asks for.
pub struct OpenModeView {
    pub read: bool,
    pub write: bool,
    pub create: bool,
    pub create_new: bool,
    pub truncate: bool,
}

impl View for OpenMode {
    type V = OpenModeView;

    closed spec fn view(&self) -> OpenModeView {
        OpenModeView {
            read: self.read,
            write: self.write,
            create: self.create,
            create_new: self.create_new,
            truncate: self.truncate,
        }
    }
}

impl OpenMode {
    /// Open an existing file for reading.
    pub fn read() -> (r: Self)
        ensures
            r@ == (OpenModeView {
                read: true,
                write: false,
                create: false,
                create_new: false,
                truncate: false,
            }),
    {
        OpenMode { read: true, write: false, create: false, create_new: false, truncate: false }
    }

    /// Open for writing, creating the file if it does not exist. The file is
    /// **not** truncated: writes land at whatever offsets the caller asks for.
    pub fn write() -> (r: Self)
        ensures
            r@ == (OpenModeView {
                read: false,
                write: true,
                create: true,
                create_new: false,
                truncate: false,
            }),
    {
        OpenMode { read: false, write: true, create: true, create_new: false, truncate: false }
    }

    /// Open for reading and writing, creating the file if absent.
    pub fn read_write() -> (r: Self)
        ensures
            r@ == (OpenModeView {
                read: true,
                write: true,
                create: true,
                create_new: false,
                truncate: false,
            }),
    {
        OpenMode { read: true, write: true, create: true, create_new: false, truncate: false }
    }

    /// Create a new file, failing if it already exists.
    ///
    /// The right mode for an upload that must not clobber: it turns a
    /// check-and-write race into a single call the server arbitrates.
    pub fn create_new() -> (r: Self)
        ensures
            r@ == (OpenModeView {
                read: false,
                write: true,
                create: true,
                create_new: true,
                truncate: false,
            }),
    {
        OpenMode { read: false, write: true, create: true, create_new: true, truncate: false }
    }

    pub fn is_read(&self) -> (r: bool)
        ensures
            r == self@.read,
    {
        self.read
    }

    pub fn is_write(&self) -> (r: bool)
        ensures
            r == self@.write,
    {
        self.write
    }

    pub fn creates(&self) -> (r: bool)
        ensures
            r == self@.create,
    {
        self.create
    }

    pub fn must_not_exist(&self) -> (r: bool)
        ensures
            r == self@.create_new,
    {
        self.create_new
    }

    pub fn truncates(&self) -> (r: bool)
        ensures
            r == self@.truncate,
    {
        self.truncate
    }

    /// Same access mode, but discard any existing contents on open.
    pub fn with_truncate(self) -> (r: Self)
        ensures
            r@ == (OpenModeView { truncate: true, ..self@ }),
    {
        OpenMode { truncate: true, ..self }
    }
}

impl Default for OpenMode {
    fn default() -> (r: Self)
        ensures
            r@ == (OpenModeView {
                read: true,
                write: false,
                create: false,
                create_new: false,
                truncate: false,
            }),
    {
        OpenMode::read()
    }
}

/// What is at a path once it is open in this mode, given what was there before;
/// `None` where it cannot be opened so.
pub open spec fn opened(before: Option<Seq<u8>>, mode: OpenModeView) -> Option<Seq<u8>> {
    match before {
        Some(contents) => if mode.create_new {
            None
        } else if mode.truncate {
            Some(Seq::empty())
        } else {
            Some(contents)
        },
        None => if mode.create {
            Some(Seq::empty())
        } else {
            None
        },
    }
}

/// The part of `contents` that a read of `len` bytes at `offset` can see.
pub open spec fn visible(contents: Seq<u8>, offset: int, len: int) -> Seq<u8> {
    if offset >= contents.len() {
        Seq::empty()
    } else if offset + len >= contents.len() {
        contents.skip(offset)
    } else {
        contents.subrange(offset, offset + len)
    }
}

/// What a read of `len` bytes at `offset` may answer: `n` bytes of `contents`,
/// which are now at the front of `buf`. Fewer than asked for is allowed; none is
/// the end of the file and nothing else.
pub open spec fn is_read_of(contents: Seq<u8>, offset: int, buf: Seq<u8>, n: int) -> bool {
    &&& 0 <= n <= buf.len()
    &&& n <= visible(contents, offset, buf.len() as int).len()
    &&& buf.take(n) == visible(contents, offset, buf.len() as int).take(n)
    &&& n == 0 <==> (buf.len() == 0 || offset >= contents.len())
}

/// `after` is `before` with `data` written at `offset`. Bytes between the old
/// end and `offset` are not specified.
pub open spec fn is_write_of(
    before: Seq<u8>,
    after: Seq<u8>,
    offset: int,
    data: Seq<u8>,
) -> bool {
    if data.len() == 0 {
        after == before
    } else {
        &&& after.len() == if offset + data.len() > before.len() {
            offset + data.len()
        } else {
            before.len() as int
        }
        &&& after.subrange(offset, offset + data.len()) == data
        &&& forall|i: int|
            0 <= i < before.len() && !(offset <= i < offset + data.len()) ==> #[trigger] after[i]
                == before[i]
    }
}

/// `after` is `before` cut or extended to `len` bytes. Bytes past the old end
/// are not specified.
pub open spec fn is_resize_of(before: Seq<u8>, after: Seq<u8>, len: int) -> bool {
    &&& after.len() == len
    &&& forall|i: int| 0 <= i < before.len() && i < len ==> #[trigger] after[i] == before[i]
}

/// A partial read that goes on where `head` ends makes `head` longer.
pub proof fn reads_accumulate(contents: Seq<u8>, offset: int, head: Seq<u8>, rest: Seq<u8>, n: int)
    requires
        0 <= offset,
        head.len() > 0 ==> offset + head.len() <= contents.len() && head == contents.subrange(
            offset,
            offset + head.len(),
        ),
        is_read_of(contents, offset + head.len(), rest, n),
        n > 0,
    ensures
        offset + head.len() + n <= contents.len(),
        (head + rest).take(head.len() + n) == contents.subrange(offset, offset + head.len() + n),
{
    let seen = visible(contents, offset + head.len(), rest.len() as int);
    assert forall|i: int| 0 <= i < n implies #[trigger] rest[i] == contents[offset + head.len()
        + i] by {
        assert(rest.take(n)[i] == seen.take(n)[i]);
    }
    assert((head + rest).take(head.len() + n) =~= contents.subrange(
        offset,
        offset + head.len() + n,
    ));
}

/// The error for a file that ends before a read is complete.
pub open spec fn early_end(done: nat, len: nat, offset: nat) -> crate::error::ErrorView {
    crate::error::ErrorView::Io(
        (crate::error::IoErrorView {
            kind: IoErrorKind::UnexpectedEof,
            message: "file ended after "@ + text::decimal(done) + " of "@ + text::decimal(len)
                + " bytes at offset "@ + text::decimal(offset),
        }),
    )
}

/// Where a read that must be complete stands after one more partial read.
pub enum ExactRead {
    /// Every byte is there.
    Done,
    /// This many bytes are there, and the rest has to be asked for.
    More(usize),
    Failed(Error),
}

/// Decides how a complete read goes on, given what the handle answered to the
/// request for the bytes still missing.
///
/// Provided once so that short-read handling is consistent everywhere.
pub fn exact_read_step(
    offset: u64,
    len: usize,
    done: usize,
    outcome: Result<usize, Error>,
) -> (r: ExactRead)
    requires
        done < len,
        outcome matches Ok(n) ==> n <= len - done,
    ensures
        match outcome {
            Ok(n) => if n == 0 {
                r matches ExactRead::Failed(e) && e@ == early_end(
                    done as nat,
                    len as nat,
                    offset as nat,
                )
            } else if done + n == len {
                r is Done
            } else {
                r == ExactRead::More((done + n) as usize)
            },
            Err(e) => r == ExactRead::Failed(e),
        },
{
    match outcome {
        Ok(n) => if n == 0 {
            let mut message = text::joined("file ended after ", &text::decimal_of(done as u64));
            message.append(" of ");
            message.append(&text::decimal_of(len as u64));
            message.append(" bytes at offset ");
            message.append(&text::decimal_of(offset));
            ExactRead::Failed(Error::Io(IoError { kind: IoErrorKind::UnexpectedEof, message }))
        } else if done + n == len {
            ExactRead::Done
        } else {
            ExactRead::More(done + n)
        },
        Err(e) => ExactRead::Failed(e),
    }
}

/// Whether every byte has an offset.
pub open spec fn addressable(contents: Seq<u8>) -> bool {
    contents.len() <= u64::MAX
}

/// A read that a handle was asked for, and how many bytes it answered with.
pub struct ReadAsked {
    pub offset: u64,
    pub len: nat,
    pub answer: Result<nat, ErrorView>,
}

/// What a handle was asked for, and what it answered.
pub enum Asked {
    Read(ReadAsked),
    Write { offset: u64, data: Seq<u8>, answer: Result<nat, ErrorView> },
    Resize { len: u64, answer: Result<(), ErrorView> },
    Flush { answer: Result<(), ErrorView> },
    Close { answer: Result<(), ErrorView> },
}

/// An answer that counts bytes, as a log keeps it.
pub open spec fn counted(r: Result<usize, Error>) -> Result<nat, ErrorView> {
    match r {
        Ok(n) => Ok(n as nat),
        Err(e) => Err(e@),
    }
}

/// An answer without a value, as a log keeps it.
pub open spec fn settled(r: Result<(), Error>) -> Result<(), ErrorView> {
    match r {
        Ok(_) => Ok(()),
        Err(e) => Err(e@),
    }
}

/// The entry for a read.
pub open spec fn read_asked(offset: u64, len: nat, answer: Result<nat, ErrorView>) -> Asked {
    Asked::Read(ReadAsked { offset, len, answer })
}

/// What was asked since a log read `before`.
pub open spec fn since(log: Seq<Asked>, before: Seq<Asked>) -> Seq<Asked> {
    log.skip(before.len() as int)
}

/// Whether `b` asks for what a short answer to `a` left out.
pub open spec fn goes_on(a: ReadAsked, b: ReadAsked) -> bool {
    &&& a.answer matches Ok(n) && {
        &&& 0 < n < a.len
        &&& b.offset == a.offset + n
        &&& b.len == a.len - n
    }
}

/// Whether the requests are those of one read of `len` bytes at `offset` that is
/// continued after every short answer, and only then: the first asks for all of
/// it, and each further one for what is still missing.
pub open spec fn is_chain(offset: u64, len: nat, asked: Seq<Asked>) -> bool
    decreases asked.len(),
{
    &&& asked.len() > 0
    &&& asked.last() is Read
    &&& if asked.len() == 1 {
        asked.last()->Read_0.offset == offset && asked.last()->Read_0.len == len
    } else {
        &&& is_chain(offset, len, asked.drop_last())
        &&& goes_on(asked.drop_last().last()->Read_0, asked.last()->Read_0)
    }
}

/// The answer to the last of the requests.
pub open spec fn last_answer(asked: Seq<Asked>) -> Result<nat, ErrorView> {
    asked.last()->Read_0.answer
}

/// Whether the requests leave nothing to be asked for: the last one was answered
/// in full, or with the end of the file.
pub open spec fn is_complete(asked: Seq<Asked>) -> bool {
    last_answer(asked) matches Ok(n) && (n == 0 || n == asked.last()->Read_0.len)
}

/// Where a continued read stands: after these requests `done` bytes are there,
/// and more can be asked for.
pub open spec fn is_under_way(offset: u64, len: nat, asked: Seq<Asked>, done: nat) -> bool {
    if asked.len() == 0 {
        done == 0
    } else {
        &&& is_chain(offset, len, asked)
        &&& last_answer(asked) matches Ok(n) && {
            &&& 0 < n < asked.last()->Read_0.len
            &&& asked.last()->Read_0.offset + n == offset + done
            &&& asked.last()->Read_0.len - n == len - done
        }
    }
}

/// Asking for what is missing continues a read.
pub proof fn asking_on(
    offset: u64,
    len: nat,
    asked: Seq<Asked>,
    done: nat,
    answer: Result<nat, ErrorView>,
)
    requires
        is_under_way(offset, len, asked, done),
        done < len,
        offset + done <= u64::MAX,
    ensures
        ({
            let next = asked.push(
                read_asked((offset + done) as u64, (len - done) as nat, answer),
            );
            &&& is_chain(offset, len, next)
            &&& next.last() == read_asked((offset + done) as u64, (len - done) as nat, answer)
            &&& answer is Ok && 0 < answer->Ok_0 < len - done ==> is_under_way(
                offset,
                len,
                next,
                (done + answer->Ok_0) as nat,
            )
        }),
{
    let next = asked.push(read_asked((offset + done) as u64, (len - done) as nat, answer));
    assert(next.drop_last() =~= asked);
}

/// However a read is continued, every request ends where the first one does: no
/// more is asked for than what was asked for at first.
pub proof fn a_continued_read_never_asks_for_more(offset: u64, len: nat, asked: Seq<Asked>, i: int)
    requires
        is_chain(offset, len, asked),
        0 <= i < asked.len(),
    ensures
        asked[i] is Read,
        asked[i]->Read_0.offset + asked[i]->Read_0.len == offset + len,
        asked[i]->Read_0.len <= len,
    decreases asked.len(),
{
    if asked.len() > 1 {
        let earlier = asked.drop_last();
        a_continued_read_never_asks_for_more(offset, len, earlier, earlier.len() - 1);
        if i < earlier.len() {
            a_continued_read_never_asks_for_more(offset, len, earlier, i);
            assert(earlier[i] == asked[i]);
        }
    }
}

/// A log that grows by one entry.
pub proof fn logging(before: Seq<Asked>, log: Seq<Asked>, entry: Asked)
    requires
        before.is_prefix_of(log),
    ensures
        before.is_prefix_of(log.push(entry)),
        since(log.push(entry), before) == since(log, before).push(entry),
{
    assert(since(log.push(entry), before) =~= since(log, before).push(entry));
}

/// One more part of a read that has to be complete: `head` is there, and `rest`
/// was asked for.
pub proof fn one_more_part(
    contents: Seq<u8>,
    offset: u64,
    before: Seq<Asked>,
    log: Seq<Asked>,
    head: Seq<u8>,
    rest: Seq<u8>,
    answer: Result<nat, ErrorView>,
)
    requires
        before.is_prefix_of(log),
        is_under_way(offset, head.len() + rest.len(), since(log, before), head.len()),
        rest.len() > 0,
        offset + head.len() <= u64::MAX,
        head.len() > 0 ==> offset + head.len() <= contents.len() && head == contents.subrange(
            offset as int,
            offset + head.len(),
        ),
        answer matches Ok(n) ==> is_read_of(contents, offset + head.len(), rest, n as int),
    ensures
        ({
            let len = head.len() + rest.len();
            let entry = read_asked((offset + head.len()) as u64, rest.len(), answer);
            let after = since(log.push(entry), before);
            &&& before.is_prefix_of(log.push(entry))
            &&& is_chain(offset, len, after)
            &&& after.last() == entry
            &&& answer is Ok && answer->Ok_0 > 0 ==> {
                let done = head.len() + answer->Ok_0;
                &&& offset + done <= contents.len()
                &&& (head + rest).take(done as int) == contents.subrange(
                    offset as int,
                    offset + done,
                )
                &&& done < len ==> is_under_way(offset, len, after, done)
            }
        }),
{
    let len = head.len() + rest.len();
    logging(before, log, read_asked((offset + head.len()) as u64, rest.len(), answer));
    asking_on(offset, len, since(log, before), head.len(), answer);
    if answer is Ok && answer->Ok_0 > 0 {
        reads_accumulate(contents, offset as int, head, rest, answer->Ok_0 as int);
    }
}

/// What a read of all of `buf` comes to, given what was asked for and answered:
/// nothing is asked for an empty `buf`; a handle that fails makes it fail with
/// that error; else it succeeds where the file holds every byte, and reports an
/// early end where it does not.
pub open spec fn is_exact_read(
    contents: Seq<u8>,
    offset: u64,
    buf: Seq<u8>,
    asked: Seq<Asked>,
    outcome: Result<(), ErrorView>,
) -> bool {
    if buf.len() == 0 {
        asked.len() == 0 && outcome is Ok
    } else {
        &&& is_chain(offset, buf.len(), asked)
        &&& match last_answer(asked) {
            Err(e) => outcome == Err::<(), ErrorView>(e),
            Ok(n) => if offset + buf.len() <= contents.len() {
                &&& outcome is Ok
                &&& n == asked.last()->Read_0.len
                &&& buf == contents.subrange(offset as int, offset + buf.len())
            } else {
                &&& outcome == Err::<(), ErrorView>(
                    early_end(
                        visible(contents, offset as int, buf.len() as int).len(),
                        buf.len(),
                        offset as nat,
                    ),
                )
                &&& n == 0
            },
        }
    }
}

/// An open file on a backend.
///
/// All I/O is positioned: there is no shared cursor. That makes this a direct
/// match for what media players want: they seek constantly and never read
/// strictly forward.
///
/// A failure concerns the operation that failed and leaves the handle usable.
///
/// # Closing
///
/// There is no cleanup on drop. [`FileHandle::close`] must be called
/// explicitly, because releasing a handle can require a network round-trip.
pub trait FileHandle {
    /// The bytes of the file.
    ///
    /// What an implementation does not say of its files, here and below, it
    /// leaves open.
    closed spec fn contents(&self) -> Seq<u8> {
        arbitrary()
    }

    /// The size that was observed when the handle was opened.
    closed spec fn opened_len(&self) -> u64 {
        arbitrary()
    }

    /// Whether the handle can still be read and written.
    closed spec fn usable(&self) -> bool {
        arbitrary()
    }

    /// What this handle was asked for, and what it answered, in order.
    closed spec fn log(&self) -> Seq<Asked> {
        arbitrary()
    }

    /// Whether every write has been pushed to the backend: none is buffered.
    closed spec fn flushed(&self) -> bool {
        arbitrary()
    }

    /// Read into `buf` starting at `offset`.
    ///
    /// Returns the number of bytes read, which may be fewer than `buf.len()`.
    /// Returns `Ok(0)` at and past end-of-file: end-of-file is not an error.
    fn read_at(&mut self, offset: u64, buf: &mut [u8]) -> (r: Result<usize, Error>)
        requires
            old(self).usable(),
            addressable(old(self).contents()),
        ensures
            final(self).usable(),
            final(self).contents() == old(self).contents(),
            final(self).opened_len() == old(self).opened_len(),
            final(self).flushed() == old(self).flushed(),
            final(self).log() == old(self).log().push(
                read_asked(offset, old(buf)@.len(), counted(r)),
            ),
            final(buf)@.len() == old(buf)@.len(),
            r matches Ok(n) ==> is_read_of(
                old(self).contents(),
                offset as int,
                final(buf)@,
                n as int,
            ),
    ;

    /// Write `buf` at `offset`, returning the number of bytes written.
    ///
    /// Like [`FileHandle::read_at`], a short write is possible and the caller
    /// must loop if it needs all bytes written. What a write that failed left of
    /// the file is not specified.
    fn write_at(&mut self, offset: u64, buf: &[u8]) -> (r: Result<usize, Error>)
        requires
            old(self).usable(),
            addressable(old(self).contents()),
        ensures
            final(self).usable(),
            addressable(final(self).contents()),
            final(self).opened_len() == old(self).opened_len(),
            final(self).log() == old(self).log().push(
                Asked::Write { offset, data: buf@, answer: counted(r) },
            ),
            r matches Ok(n) ==> {
                &&& n <= buf@.len()
                &&& is_write_of(
                    old(self).contents(),
                    final(self).contents(),
                    offset as int,
                    buf@.take(n as int),
                )
            },
    ;

    /// Truncate or extend the file to `len` bytes.
    ///
    /// What a resize that failed left of the file is not specified.
    fn set_len(&mut self, len: u64) -> (r: Result<(), Error>)
        requires
            old(self).usable(),
            addressable(old(self).contents()),
        ensures
            final(self).usable(),
            addressable(final(self).contents()),
            final(self).opened_len() == old(self).opened_len(),
            final(self).log() == old(self).log().push(Asked::Resize { len, answer: settled(r) }),
            r is Ok ==> is_resize_of(old(self).contents(), final(self).contents(), len as int),
    ;

    /// Push buffered writes to the backend.
    ///
    /// Whether this reaches durable storage depends on
    /// [`Capabilities::durable_flush`].
    fn flush(&mut self) -> (r: Result<(), Error>)
        requires
            old(self).usable(),
            addressable(old(self).contents()),
        ensures
            final(self).usable(),
            final(self).contents() == old(self).contents(),
            final(self).opened_len() == old(self).opened_len(),
            final(self).log() == old(self).log().push(Asked::Flush { answer: settled(r) }),
            r is Ok ==> final(self).flushed(),
    ;

    /// Release the handle. Calling it twice must be harmless.
    fn close(&mut self) -> (r: Result<(), Error>)
        ensures
            final(self).contents() == old(self).contents(),
            final(self).opened_len() == old(self).opened_len(),
            final(self).log() == old(self).log().push(Asked::Close { answer: settled(r) }),
    ;

    /// The file's size as observed when the handle was opened.
    ///
    /// Not refreshed as the file changes. Cheap because callers need it to size
    /// buffers, and a network round-trip there would be a nasty surprise.
    fn len(&self) -> (r: u64)
        ensures
            r == self.opened_len(),
    ;

    fn is_empty(&self) -> (r: bool)
        ensures
            r == (self.opened_len() == 0),
    {
        self.len() == 0
    }

    /// Fill `buf` completely, looping over short reads.
    ///
    /// Fails with `UnexpectedEof` if the file ends before `buf` is full, and
    /// with the handle's own error where the handle fails. An empty `buf` asks
    /// for nothing.
    fn read_exact_at(&mut self, offset: u64, buf: &mut [u8]) -> (r: Result<(), Error>)
        requires
            old(self).usable(),
            addressable(old(self).contents()),
        ensures
            final(self).usable(),
            final(self).contents() == old(self).contents(),
            final(self).opened_len() == old(self).opened_len(),
            final(self).flushed() == old(self).flushed(),
            final(buf)@.len() == old(buf)@.len(),
            old(self).log().is_prefix_of(final(self).log()),
            is_exact_read(
                old(self).contents(),
                offset,
                final(buf)@,
                since(final(self).log(), old(self).log()),
                settled(r),
            ),
    {
        let len: usize = buf.len();
        let ghost contents = self.contents();
        let ghost before = self.log();
        let mut done: usize = 0;
        assert(since(before, before) =~= Seq::<Asked>::empty());
        while done < len
            invariant
                done <= len,
                done < len || len == 0,
                len == buf@.len(),
                len == old(buf)@.len(),
                self.usable(),
                contents == old(self).contents(),
                self.contents() == contents,
                self.opened_len() == old(self).opened_len(),
                self.flushed() == old(self).flushed(),
                before == old(self).log(),
                before.is_prefix_of(self.log()),
                is_under_way(offset, len as nat, since(self.log(), before), done as nat),
                addressable(contents),
                done > 0 ==> offset + done <= contents.len(),
                done > 0 ==> buf@.take(done as int) == contents.subrange(
                    offset as int,
                    offset + done,
                ),
            decreases len - done,
        {
            let ghost head = buf@.take(done as int);
            let ghost log = self.log();
            let (_, rest) = buf.split_at_mut(done);
            let outcome = self.read_at(offset + done as u64, rest);
            let ghost answer = rest@;
            proof {
                assert(buf@ =~= head + answer);
                one_more_part(contents, offset, before, log, head, answer, counted(outcome));
            }
            match exact_read_step(offset, len, done, outcome) {
                ExactRead::Done => {
                    assert(buf@.take(len as int) =~= buf@);
                    return Ok(());
                },
                ExactRead::More(n) => {
                    done = n;
                },
                ExactRead::Failed(e) => {
                    return Err(e);
                },
            }
        }
        Ok(())
    }
}

/// Whether a handle can be read and written, on a file of which every byte has
/// an offset.
pub open spec fn ready<H: FileHandle + ?Sized>(h: &H) -> bool {
    &&& h.usable()
    &&& addressable(h.contents())
}

/// A connected storage backend, as far as it is known without asking the
/// server.
///
/// Implementations must not leak their protocol's vocabulary through these
/// signatures. If a concept has no portable equivalent, it stays inside the
/// backend.
pub trait StorageBackend {
    /// The endpoint's text. An implementation that does not say leaves it open.
    closed spec fn endpoint_text(&self) -> Seq<char> {
        arbitrary()
    }

    /// The endpoint this backend is connected to, suitable for attaching a path
    /// to. No trailing slash.
    fn endpoint(&self) -> (r: &str)
        ensures
            r@ == self.endpoint_text(),
    ;

    /// What this backend can do. Defaults to the conservative baseline, so a
    /// backend that forgets to override it under-promises rather than
    /// over-promises.
    fn capabilities(&self) -> (r: Capabilities)
        default_ensures
            r == Capabilities::minimal(),
    {
        Capabilities::minimal()
    }
}

// ---------------------------------------------------------------------------
// Laws
// ---------------------------------------------------------------------------

/// Each way to open a file is what it is named for: only writing modes create,
/// only one of them insists on a new file, and none empties a file unless that is
/// asked for on top.
pub proof fn ways_to_open_are_what_they_are_named_for(
    ro: OpenMode,
    wo: OpenMode,
    rw: OpenMode,
    new: OpenMode,
    plain: OpenMode,
    any: OpenMode,
    emptied: OpenMode,
)
    requires
        call_ensures(OpenMode::read, (), ro),
        call_ensures(OpenMode::write, (), wo),
        call_ensures(OpenMode::read_write, (), rw),
        call_ensures(OpenMode::create_new, (), new),
        call_ensures(<OpenMode as Default>::default, (), plain),
        call_ensures(OpenMode::with_truncate, (any,), emptied),
    ensures
        ro@.read && !ro@.write && !ro@.create && !ro@.create_new && !ro@.truncate,
        !wo@.read && wo@.write && wo@.create && !wo@.create_new && !wo@.truncate,
        rw@.read && rw@.write && rw@.create && !rw@.create_new && !rw@.truncate,
        !new@.read && new@.write && new@.create && new@.create_new && !new@.truncate,
        plain@ == ro@,
        emptied@.truncate && emptied@.read == any@.read && emptied@.write == any@.write
            && emptied@.create == any@.create && emptied@.create_new == any@.create_new,
        // What that does to a file that is there, and to one that is not.
        forall|f: Seq<u8>| #[trigger] opened(Some(f), ro@) == Some(f),
        forall|f: Seq<u8>| #[trigger] opened(Some(f), wo@) == Some(f),
        forall|f: Seq<u8>| #[trigger] opened(Some(f), new@) is None,
        opened(None, ro@) is None,
        opened(None, wo@) == Some(Seq::<u8>::empty()),
        opened(None, new@) == Some(Seq::<u8>::empty()),
{
}

/// A mode answers for what it was made with.
pub proof fn a_mode_answers_for_itself(
    m: OpenMode,
    read: bool,
    write: bool,
    create: bool,
    new: bool,
    truncate: bool,
)
    requires
        call_ensures(OpenMode::is_read, (&m,), read),
        call_ensures(OpenMode::is_write, (&m,), write),
        call_ensures(OpenMode::creates, (&m,), create),
        call_ensures(OpenMode::must_not_exist, (&m,), new),
        call_ensures(OpenMode::truncates, (&m,), truncate),
    ensures
        read == m@.read,
        write == m@.write,
        create == m@.create,
        new == m@.create_new,
        truncate == m@.truncate,
{
}

/// What a read can see are the bytes of the file from its offset on, in order: as
/// many as were asked for where the file has them, and else all that it has.
pub proof fn a_read_sees_the_bytes_from_its_offset(contents: Seq<u8>, offset: int, len: int)
    requires
        0 <= offset,
        0 <= len,
    ensures
        offset >= contents.len() ==> visible(contents, offset, len).len() == 0,
        offset < contents.len() && offset + len <= contents.len() ==> visible(
            contents,
            offset,
            len,
        ).len() == len,
        offset < contents.len() && offset + len > contents.len() ==> visible(
            contents,
            offset,
            len,
        ).len() == contents.len() - offset,
        forall|i: int|
            0 <= i < visible(contents, offset, len).len() ==> #[trigger] visible(
                contents,
                offset,
                len,
            )[i] == contents[offset + i],
{
}

/// What is written is what is read back from the same place; every byte that was
/// there before and not written over stays.
pub proof fn what_is_written_is_read_back(
    before: Seq<u8>,
    after: Seq<u8>,
    offset: int,
    data: Seq<u8>,
    i: int,
)
    requires
        0 <= offset,
        is_write_of(before, after, offset, data),
    ensures
        visible(after, offset, data.len() as int) == data || data.len() == 0,
        after.len() >= before.len(),
        data.len() > 0 ==> after.len() >= offset + data.len(),
        0 <= i < before.len() && (i < offset || i >= offset + data.len()) ==> after[i] == before[i],
{
    if data.len() > 0 {
        assert(visible(after, offset, data.len() as int) =~= after.subrange(
            offset,
            offset + data.len(),
        ));
    }
}

/// A complete read that makes progress asks for what is missing, ends where
/// nothing is, and fails where the file ends first or the handle fails.
pub proof fn a_complete_read_goes_on_until_nothing_is_missing(
    offset: u64,
    len: usize,
    done: usize,
    outcome: Result<usize, Error>,
    r: ExactRead,
)
    requires
        done < len,
        outcome matches Ok(n) ==> n <= len - done,
        call_ensures(exact_read_step, (offset, len, done, outcome), r),
    ensures
        outcome matches Err(e) ==> r == ExactRead::Failed(e),
        outcome == Ok::<usize, Error>(0) ==> r is Failed && r->Failed_0@ is Io
            && r->Failed_0@->Io_0.kind is UnexpectedEof && r->Failed_0@->Io_0.message
            == "file ended after "@ + text::decimal(done as nat) + " of "@ + text::decimal(
            len as nat,
        ) + " bytes at offset "@ + text::decimal(offset as nat),
        outcome matches Ok(n) ==> (n > 0 && done + n == len <==> r is Done),
        outcome matches Ok(n) ==> n > 0 && done + n < len ==> r == ExactRead::More(
            (done + n) as usize,
        ),
{
}

/// A read of all of a buffer gives the bytes of the file at that place, or fails
/// where the file ends first or the handle fails, and asks for nothing where the
/// buffer is empty.
pub proof fn an_exact_read_gives_all_or_fails(
    contents: Seq<u8>,
    offset: u64,
    buf: Seq<u8>,
    asked: Seq<Asked>,
    outcome: Result<(), ErrorView>,
)
    requires
        is_exact_read(contents, offset, buf, asked, outcome),
    ensures
        buf.len() == 0 ==> outcome is Ok && asked.len() == 0,
        buf.len() > 0 && outcome is Ok ==> offset + buf.len() <= contents.len() && forall|i: int|
            0 <= i < buf.len() ==> #[trigger] buf[i] == contents[offset + i],
        buf.len() > 0 && last_answer(asked) is Err ==> outcome == Err::<(), ErrorView>(
            last_answer(asked)->Err_0,
        ),
        buf.len() > 0 && last_answer(asked) is Ok && offset + buf.len() > contents.len() ==> (
        outcome matches Err(e) && e is Io && e->Io_0.kind is UnexpectedEof),
        buf.len() > 0 && last_answer(asked) is Ok && offset + buf.len() <= contents.len()
            ==> outcome is Ok,
{
}

/// A file is empty where the length that was observed at opening is zero.
pub proof fn an_empty_file_has_no_length<H: FileHandle>(h: H, len: u64, empty: bool)
    requires
        call_ensures(H::len, (&h,), len),
        call_ensures(H::is_empty, (&h,), empty),
    ensures
        empty <==> len == 0,
{
}

} // verus!
