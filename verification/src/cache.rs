//! Read-ahead buffering.
//!
//! It is not a throughput optimisation: no amount of buffering makes a network
//! faster than the network. What buffering changes is *latency*: without it,
//! every read the player issues pays a full round-trip before a single byte
//! arrives. With it, a sequential read is usually already in memory.
//!
//! [`ReadAhead`] wraps any [`FileHandle`] and serves reads from a window it
//! keeps ahead of the caller's position. It is a decorator: whatever it answers
//! is what the wrapped handle could have answered, byte for byte.
//!
//! The decisions live in [`ReadAheadState`] and [`Fill`], which never touch a
//! handle. A caller that fetches asynchronously keeps the state behind a lock
//! of its own, asks it what to do, and fetches without holding the lock.

use vstd::prelude::*;
use crate::backend::{self, Asked, ExactRead, FileHandle};
use crate::error::{Error, ErrorView};

verus! {

/// How much to keep buffered ahead of the caller.
///
/// One mebibyte. Larger windows amortise the round-trip further but cost memory
/// per open file, and a player may hold several open at once.
pub const DEFAULT_WINDOW: usize = 1024 * 1024;

// ---------------------------------------------------------------------------
// The window
// ---------------------------------------------------------------------------

/// The buffered region, and what is known about it.
pub struct Window {
    /// Bytes of the file starting at `start`.
    data: Vec<u8>,
    /// Offset the buffer begins at.
    start: u64,
    /// Set once a fetch has hit end-of-file, so a read past the end does not
    /// keep re-issuing requests that will come back empty.
    eof: bool,
}

/// A [`Window`] as plain values.
#[verifier::ext_equal]
pub struct WindowView {
    pub data: Seq<u8>,
    pub start: u64,
    pub eof: bool,
}

impl View for Window {
    type V = WindowView;

    closed spec fn view(&self) -> WindowView {
        WindowView { data: self.data@, start: self.start, eof: self.eof }
    }
}

impl WindowView {
    /// Where the buffered bytes end.
    pub open spec fn end(self) -> int {
        self.start + self.data.len()
    }

    /// Whether what the window says is true of a file.
    pub open spec fn holds_of(self, contents: Seq<u8>) -> bool {
        &&& self.end() <= u64::MAX
        &&& self.data.len() > 0 ==> self.end() <= contents.len()
        &&& self.data.len() > 0 ==> self.data == contents.subrange(self.start as int, self.end())
        &&& self.eof ==> contents.len() <= self.end()
    }

    /// Whether a read of `len` bytes at `offset` can be answered from here.
    ///
    /// Once a fetch has hit end-of-file, bytes up to the end are in the buffer
    /// and there is nothing beyond, so a request past it needs no fetch either.
    pub open spec fn covers(self, offset: u64, len: nat) -> bool {
        ||| len == 0
        ||| self.start <= offset && (self.eof || offset.saturating_add(len as u64) <= self.end())
    }

    /// The bytes a read of `len` bytes at `offset` gets from here.
    pub open spec fn served(self, offset: u64, len: nat) -> Seq<u8> {
        let from = if offset - self.start < self.data.len() {
            offset - self.start
        } else {
            self.data.len() as int
        };
        let available = self.data.skip(from);
        if available.len() < len {
            available
        } else {
            available.take(len as int)
        }
    }
}

impl Window {
    /// A window that holds nothing and knows nothing.
    pub fn new() -> (r: Self)
        ensures
            r@ == (WindowView { data: Seq::empty(), start: 0, eof: false }),
    {
        Window { data: Vec::new(), start: 0, eof: false }
    }

    /// Where the buffered bytes end.
    pub fn end(&self) -> (r: u64)
        requires
            self@.end() <= u64::MAX,
        ensures
            r == self@.end(),
    {
        self.start + self.data.len() as u64
    }

    /// Whether the window already holds everything needed for a read of `len`
    /// bytes at `offset`.
    pub fn covers(&self, offset: u64, len: usize) -> (r: bool)
        requires
            self@.end() <= u64::MAX,
        ensures
            r == self@.covers(offset, len as nat),
    {
        if len == 0 {
            return true;
        }
        if offset < self.start {
            return false;
        }
        let want_end = offset.saturating_add(len as u64);
        want_end <= self.end() || self.eof
    }

    /// Copy out of the window.
    ///
    /// Returns zero bytes for any part of the request at or past the window's
    /// end, which is what makes a read past end-of-file come back empty.
    pub fn copy_out(&self, offset: u64, buf: &mut [u8]) -> (n: usize)
        requires
            self@.start <= offset,
        ensures
            n == self@.served(offset, old(buf)@.len()).len(),
            final(buf)@ == self@.served(offset, old(buf)@.len()) + old(buf)@.skip(n as int),
    {
        let skip: u64 = offset - self.start;
        let from: usize = if skip < self.data.len() as u64 {
            skip as usize
        } else {
            self.data.len()
        };
        let available: usize = self.data.len() - from;
        let n: usize = if available < buf.len() {
            available
        } else {
            buf.len()
        };
        let ghost out = self@.served(offset, buf@.len());
        let mut i: usize = 0;
        assert(buf@ =~= out.take(0) + buf@.skip(0));
        while i < n
            invariant
                i <= n <= buf@.len(),
                n == out.len(),
                from + n <= self.data@.len() <= usize::MAX,
                buf@.len() == old(buf)@.len(),
                forall|k: int| 0 <= k < n ==> #[trigger] out[k] == self.data@[from + k],
                buf@ == out.take(i as int) + old(buf)@.skip(i as int),
            decreases n - i,
        {
            buf[i] = self.data[from + i];
            proof {
                assert(out[i as int] == self.data@[from + i]);
                assert(buf@ =~= out.take(i + 1) + old(buf)@.skip(i + 1));
            }
            i = i + 1;
        }
        assert(out.take(n as int) =~= out);
        n
    }
}

/// A window that covers a request and is true of a file answers what a read of
/// the file answers.
pub proof fn a_covered_read_is_a_read_of_the_file(
    w: WindowView,
    contents: Seq<u8>,
    offset: u64,
    buf: Seq<u8>,
)
    requires
        w.holds_of(contents),
        contents.len() <= u64::MAX,
        buf.len() <= u64::MAX,
        w.start <= offset,
        w.covers(offset, buf.len()),
        buf.take(w.served(offset, buf.len()).len() as int) == w.served(offset, buf.len()),
    ensures
        backend::is_read_of(
            contents,
            offset as int,
            buf,
            w.served(offset, buf.len()).len() as int,
        ),
{
    let out = w.served(offset, buf.len());
    let seen = backend::visible(contents, offset as int, buf.len() as int);
    if out.len() > 0 {
        assert(out =~= seen.take(out.len() as int));
    } else {
        assert(out =~= seen.take(0));
    }
}

/// What a window serves of a request that it covers is everything that the file
/// holds of it.
pub proof fn a_window_serves_all_there_is(w: WindowView, contents: Seq<u8>, offset: u64, len: nat)
    requires
        w.holds_of(contents),
        backend::addressable(contents),
        len <= u64::MAX,
        w.start <= offset,
        w.covers(offset, len),
    ensures
        w.served(offset, len) == backend::visible(contents, offset as int, len as int),
{
    assert(w.served(offset, len) =~= backend::visible(contents, offset as int, len as int));
}

// ---------------------------------------------------------------------------
// Decisions
// ---------------------------------------------------------------------------

/// What to do about a read.
#[derive(Clone, Copy, PartialEq, Eq, Debug, Structural)]
pub enum ReadPlan {
    /// Nothing was asked for.
    Nothing,
    /// The window has the answer.
    FromWindow,
    /// Hand the request to the handle as it is.
    Through,
    /// Fetch the window that contains the request, then look again.
    Fetch { start: u64, len: usize },
}

/// How much of the file to fetch from `start` on.
///
/// The opened length is advisory: it is used only to size a fetch, so that the
/// last window is not a full window of which most is past the end. Where it
/// says that nothing is left, a full window is the safe reading.
pub open spec fn fetch_len(window_size: usize, start: u64, opened_len: u64) -> usize {
    if opened_len <= start || opened_len - start >= window_size {
        window_size
    } else {
        (opened_len - start) as usize
    }
}

/// The window boundary at or before `offset`.
pub open spec fn window_start(window_size: usize, offset: u64) -> int {
    (offset as int / window_size as int) * window_size as int
}

/// What has been read through to a handle, and what is kept of it.
pub struct ReadAheadState {
    window_size: usize,
    window: Window,
    /// How many reads reached the wrapped handle.
    ///
    /// Counted because read-ahead's entire claim is about round-trip count, and
    /// the only way to check a claim like that is to count.
    inner_reads: u64,
    /// Bytes asked of the wrapped handle.
    inner_bytes: u64,
}

/// A [`ReadAheadState`] as plain values.
#[verifier::ext_equal]
pub struct ReadAheadView {
    pub window_size: usize,
    pub window: WindowView,
    pub inner_reads: u64,
    pub inner_bytes: u64,
}

impl View for ReadAheadState {
    type V = ReadAheadView;

    closed spec fn view(&self) -> ReadAheadView {
        ReadAheadView {
            window_size: self.window_size,
            window: self.window@,
            inner_reads: self.inner_reads,
            inner_bytes: self.inner_bytes,
        }
    }
}

impl ReadAheadView {
    /// Nothing is kept, and nothing was asked for.
    pub open spec fn start(window_size: usize) -> ReadAheadView {
        ReadAheadView {
            window_size,
            window: (WindowView { data: Seq::empty(), start: 0, eof: false }),
            inner_reads: 0,
            inner_bytes: 0,
        }
    }

    /// The same with nothing buffered.
    pub open spec fn without_window(self) -> ReadAheadView {
        ReadAheadView {
            window: (WindowView { data: Seq::empty(), start: 0, eof: false }),
            ..self
        }
    }

    /// What to do about a read of `len` bytes at `offset`.
    pub open spec fn planned(self, offset: u64, len: nat, opened_len: u64) -> ReadPlan {
        if len == 0 {
            ReadPlan::Nothing
        } else if self.window_size == 0 {
            ReadPlan::Through
        } else if self.window.covers(offset, len) {
            ReadPlan::FromWindow
        } else if len > self.window_size {
            ReadPlan::Through
        } else {
            let start = window_start(self.window_size, offset) as u64;
            ReadPlan::Fetch { start, len: fetch_len(self.window_size, start, opened_len) }
        }
    }
}

/// The boundary of the window that contains `offset` is at most a window before
/// it.
proof fn window_start_bounds(window_size: usize, offset: u64)
    requires
        window_size > 0,
    ensures
        0 <= window_start(window_size, offset) <= offset,
        offset < window_start(window_size, offset) + window_size,
        window_start(window_size, offset) % (window_size as int) == 0,
{
    let w = window_size as int;
    let o = offset as int;
    vstd::arithmetic::div_mod::lemma_fundamental_div_mod(o, w);
    vstd::arithmetic::mul::lemma_mul_is_commutative(o / w, w);
    vstd::arithmetic::div_mod::lemma_mod_multiples_basic(o / w, w);
}

impl ReadAheadState {
    /// Nothing read yet. A window of zero disables read-ahead entirely.
    pub fn new(window_size: usize) -> (r: Self)
        ensures
            r@ == ReadAheadView::start(window_size),
    {
        ReadAheadState { window_size, window: Window::new(), inner_reads: 0, inner_bytes: 0 }
    }

    pub fn inner_reads(&self) -> (r: u64)
        ensures
            r == self@.inner_reads,
    {
        self.inner_reads
    }

    pub fn inner_bytes(&self) -> (r: u64)
        ensures
            r == self@.inner_bytes,
    {
        self.inner_bytes
    }

    /// Decides what to do about a read of `len` bytes at `offset`.
    pub fn plan(&self, offset: u64, len: usize, opened_len: u64) -> (r: ReadPlan)
        requires
            self@.window.end() <= u64::MAX,
        ensures
            r == self@.planned(offset, len as nat, opened_len),
            r matches ReadPlan::Fetch { start, len: fetched } ==> {
                &&& start == window_start(self@.window_size, offset)
                &&& start <= offset < start + self@.window_size
                &&& 0 < fetched <= self@.window_size
            },
    {
        if len == 0 {
            return ReadPlan::Nothing;
        }
        if self.window_size == 0 {
            // Read-ahead disabled. Straight through, so that measuring what
            // this layer is worth needs no separate code path.
            return ReadPlan::Through;
        }
        if self.window.covers(offset, len) {
            return ReadPlan::FromWindow;
        }
        // A request spanning more than one window cannot be served from a
        // single window, so fetching one would not help.
        if len > self.window_size {
            return ReadPlan::Through;
        }
        // The window that *contains* the requested offset, not one that merely
        // starts there: a caller reading one window at a time would otherwise
        // pay a round-trip for each and get no read-ahead at all.
        proof {
            window_start_bounds(self.window_size, offset);
        }
        let size: u64 = self.window_size as u64;
        let start: u64 = (offset / size) * size;
        let fetched: usize = if opened_len <= start || opened_len - start >= size {
            self.window_size
        } else {
            (opened_len - start) as usize
        };
        ReadPlan::Fetch { start, len: fetched }
    }

    /// Copy a read's answer out of the window, where the window has it.
    pub fn serve(&self, offset: u64, buf: &mut [u8]) -> (r: Option<usize>)
        requires
            self@.window.end() <= u64::MAX,
        ensures
            final(buf)@.len() == old(buf)@.len(),
            match r {
                Some(n) => {
                    &&& self@.window.covers(offset, old(buf)@.len())
                    &&& old(buf)@.len() == 0 ==> n == 0
                    &&& old(buf)@.len() > 0 ==> n == self@.window.served(
                        offset,
                        old(buf)@.len(),
                    ).len()
                    &&& old(buf)@.len() > 0 ==> final(buf)@ == self@.window.served(
                        offset,
                        old(buf)@.len(),
                    ) + old(buf)@.skip(n as int)
                },
                None => !self@.window.covers(offset, old(buf)@.len()) && final(buf)@ == old(buf)@,
            },
    {
        if buf.len() == 0 {
            return Some(0);
        }
        if self.window.covers(offset, buf.len()) {
            Some(self.window.copy_out(offset, buf))
        } else {
            None
        }
    }

    /// Counts a request for `len` bytes that is about to reach the handle.
    pub fn count(&mut self, len: usize)
        ensures
            final(self)@ == (ReadAheadView {
                inner_reads: old(self)@.inner_reads.wrapping_add(1),
                inner_bytes: old(self)@.inner_bytes.wrapping_add(len as u64),
                ..old(self)@
            }),
    {
        self.inner_reads = self.inner_reads.wrapping_add(1);
        self.inner_bytes = self.inner_bytes.wrapping_add(len as u64);
    }

    /// Keeps what was fetched, in place of what was kept before.
    pub fn publish(&mut self, window: Window)
        ensures
            final(self)@ == (ReadAheadView { window: window@, ..old(self)@ }),
    {
        self.window = window;
    }

    /// Drop the buffered window.
    ///
    /// Needed after a write: the buffer holds a copy of bytes that have now
    /// changed, and serving them afterwards would return stale data that looks
    /// perfectly valid.
    pub fn invalidate(&mut self)
        ensures
            final(self)@ == (ReadAheadView {
                window: (WindowView { data: Seq::empty(), start: 0, eof: false }),
                ..old(self)@
            }),
    {
        self.window = Window::new();
    }
}

/// A window being fetched.
///
/// A short read in the middle of a file is routine: servers shrink requests to
/// what they are willing to answer at once. Only a read that returns nothing
/// means that the file has ended, so a fetch goes on until the window is full or
/// a read comes back empty.
pub struct Fill {
    start: u64,
    target: usize,
    data: Vec<u8>,
    eof: bool,
}

/// A [`Fill`] as plain values.
#[verifier::ext_equal]
pub struct FillView {
    pub start: u64,
    pub target: usize,
    pub data: Seq<u8>,
    pub eof: bool,
}

impl View for Fill {
    type V = FillView;

    closed spec fn view(&self) -> FillView {
        FillView { start: self.start, target: self.target, data: self.data@, eof: self.eof }
    }
}

impl FillView {
    /// What has been fetched so far, as a window.
    pub open spec fn window(self) -> WindowView {
        WindowView { data: self.data, start: self.start, eof: self.eof }
    }

    pub open spec fn wf(self) -> bool {
        &&& self.data.len() <= self.target
        &&& self.start + self.data.len() <= u64::MAX
    }

    /// Whether there is nothing more to ask for.
    pub open spec fn complete(self) -> bool {
        self.eof || self.data.len() == self.target
    }
}

impl Fill {
    /// A fetch of `target` bytes from `start` on, of which none is there yet.
    pub fn new(start: u64, target: usize) -> (r: Self)
        ensures
            r@ == (FillView { start, target, data: Seq::empty(), eof: false }),
            r@.wf(),
    {
        Fill { start, target, data: Vec::new(), eof: false }
    }

    /// The next request to make, or `None` where the fetch is complete.
    pub fn next(&self) -> (r: Option<(u64, usize)>)
        requires
            self@.wf(),
        ensures
            match r {
                Some((offset, len)) => {
                    &&& !self@.complete()
                    &&& offset == self@.start + self@.data.len()
                    &&& len == self@.target - self@.data.len()
                },
                None => self@.complete(),
            },
    {
        if self.eof || self.data.len() == self.target {
            None
        } else {
            Some((self.start + self.data.len() as u64, self.target - self.data.len()))
        }
    }

    /// Takes in the answer to the last request: the first `n` bytes of `chunk`.
    pub fn absorb(&mut self, chunk: Vec<u8>, n: usize)
        requires
            old(self)@.wf(),
            !old(self)@.complete(),
            chunk@.len() == old(self)@.target - old(self)@.data.len(),
            n <= chunk@.len(),
            old(self)@.start + old(self)@.data.len() + n <= u64::MAX,
        ensures
            final(self)@ == (FillView {
                data: old(self)@.data + chunk@.take(n as int),
                eof: n == 0,
                ..old(self)@
            }),
            final(self)@.wf(),
    {
        if n == 0 {
            self.eof = true;
            assert(self.data@ =~= self.data@ + chunk@.take(0));
            return;
        }
        let mut chunk = chunk;
        chunk.truncate(n);
        if self.data.len() == 0 {
            assert(self.data@ + chunk@ =~= chunk@);
            self.data = chunk;
        } else {
            self.data.append(&mut chunk);
        }
    }

    /// The fetched bytes.
    pub fn into_data(self) -> (r: Vec<u8>)
        ensures
            r@ == self@.data,
    {
        self.data
    }

    /// The fetched window.
    pub fn into_window(self) -> (r: Window)
        ensures
            r@ == self@.window(),
    {
        Window { data: self.data, start: self.start, eof: self.eof }
    }
}

/// A complete fetch holds everything that a read of its range can see: it is
/// shorter than what was asked for only where the file ends.
pub proof fn a_complete_fetch_is_the_whole_read(f: FillView, contents: Seq<u8>)
    requires
        f.wf(),
        f.complete(),
        f.window().holds_of(contents),
    ensures
        f.data == backend::visible(contents, f.start as int, f.target as int),
{
    assert(f.data =~= backend::visible(contents, f.start as int, f.target as int));
}

/// Taking in an answer of the handle keeps what has been fetched true of the
/// file.
pub proof fn absorbing_keeps_the_window_true(
    before: FillView,
    after: FillView,
    chunk: Seq<u8>,
    n: int,
    contents: Seq<u8>,
)
    requires
        before.wf(),
        !before.complete(),
        before.window().holds_of(contents),
        contents.len() <= u64::MAX,
        chunk.len() == before.target - before.data.len(),
        backend::is_read_of(contents, before.start + before.data.len(), chunk, n),
        after == (FillView { data: before.data + chunk.take(n), eof: n == 0, ..before }),
    ensures
        after.window().holds_of(contents),
        before.start + before.data.len() + n <= u64::MAX,
{
    let at = before.start + before.data.len();
    let seen = backend::visible(contents, at, chunk.len() as int);
    if n > 0 {
        assert forall|i: int| 0 <= i < n implies chunk.take(n)[i] == contents[at + i] by {
            assert(chunk.take(n)[i] == seen.take(n)[i]);
        }
        assert(after.data =~= contents.subrange(after.start as int, after.start + after.data.len()));
    } else {
        assert(after.data =~= before.data);
    }
}

/// Once a fetch is complete, every read inside the fetched range is answered
/// without the handle.
pub proof fn a_complete_fetch_covers_its_range(f: FillView, offset: u64, len: nat)
    requires
        f.wf(),
        f.complete(),
        f.start <= offset,
        offset + len <= f.start + f.target,
        len <= u64::MAX,
    ensures
        f.window().covers(offset, len),
{
}

// ---------------------------------------------------------------------------
// The decorator
// ---------------------------------------------------------------------------

/// How many of the requests are reads.
pub open spec fn reads(asked: Seq<Asked>) -> nat
    decreases asked.len(),
{
    if asked.len() == 0 {
        0
    } else {
        reads(asked.drop_last()) + if asked.last() is Read {
            1nat
        } else {
            0
        }
    }
}

/// The sum of the lengths that reads ask for.
pub open spec fn bytes(asked: Seq<Asked>) -> nat
    decreases asked.len(),
{
    if asked.len() == 0 {
        0
    } else {
        bytes(asked.drop_last()) + if asked.last() is Read {
            asked.last()->Read_0.len
        } else {
            0
        }
    }
}

/// Whether a window holds what the requests of a complete fetch brought.
pub open spec fn is_window_of(start: u64, asked: Seq<Asked>, w: WindowView) -> bool {
    &&& w.start == start
    &&& backend::last_answer(asked) matches Ok(n) && {
        &&& w.end() == asked.last()->Read_0.offset + n
        &&& w.eof == (n == 0)
    }
}

/// What a read comes to that a fetch of `len` bytes from `start` on is to answer,
/// given what was asked of the handle. The fetch is one read that is continued
/// after short answers. A fetch that fails keeps the window and hands on the
/// error. After one that does not, the read is answered from the window; or,
/// where it runs past the window, by one request that hands it to the handle.
pub open spec fn is_fetch(
    start: u64,
    len: nat,
    offset: u64,
    wanted: nat,
    before: WindowView,
    after: WindowView,
    asked: Seq<Asked>,
    answer: Result<nat, ErrorView>,
) -> bool {
    if backend::is_chain(start, len, asked) {
        match backend::last_answer(asked) {
            Err(e) => answer == Err::<nat, ErrorView>(e) && after == before,
            Ok(_) => {
                &&& backend::is_complete(asked)
                &&& is_window_of(start, asked, after)
                &&& after.covers(offset, wanted)
                &&& answer == Ok::<nat, ErrorView>(after.served(offset, wanted).len())
            },
        }
    } else {
        let fetch = asked.drop_last();
        &&& asked.len() > 1
        &&& backend::is_chain(start, len, fetch)
        &&& backend::is_complete(fetch)
        &&& is_window_of(start, fetch, after)
        &&& !after.covers(offset, wanted)
        &&& asked.last() == backend::read_asked(offset, wanted, answer)
    }
}

/// Read-ahead window over another [`FileHandle`].
pub struct ReadAhead<H> {
    inner: H,
    state: ReadAheadState,
    /// What the handle had been asked for before it was wrapped.
    before: Ghost<Seq<Asked>>,
    /// What this wrapper was asked for.
    log: Ghost<Seq<Asked>>,
}

impl<H: FileHandle> ReadAhead<H> {
    /// The wrapped handle.
    pub closed spec fn wrapped(&self) -> H {
        self.inner
    }

    /// The window and the counters.
    pub closed spec fn kept(&self) -> ReadAheadView {
        self.state@
    }

    /// What the handle has been asked for since it was wrapped.
    pub closed spec fn passed_on(&self) -> Seq<Asked> {
        backend::since(self.inner.log(), self.before@)
    }

    /// Whether exactly `asked` was asked of the handle in between.
    pub open spec fn asks(&self, after: &Self, asked: Seq<Asked>) -> bool {
        &&& after.passed_on() == self.passed_on() + asked
        &&& after.wrapped().log() == self.wrapped().log() + asked
    }

    /// The counters count every read that reached the handle, and every byte
    /// asked of it, up to the width of the counters.
    pub open spec fn counts_every_request(&self) -> bool {
        &&& self.kept().inner_reads == reads(self.passed_on()) % 0x1_0000_0000_0000_0000
        &&& self.kept().inner_bytes == bytes(self.passed_on()) % 0x1_0000_0000_0000_0000
    }

    /// The counters are right, and the log only ever grows.
    pub closed spec fn counted(&self) -> bool {
        &&& self.before@.is_prefix_of(self.inner.log())
        &&& self.counts_every_request()
    }

    /// Wrap `inner` with the [default window](DEFAULT_WINDOW).
    pub fn new(inner: H) -> (r: Self)
        ensures
            r.wrapped() == inner,
            r.kept() == ReadAheadView::start(DEFAULT_WINDOW),
            r.passed_on().len() == 0,
            r.log().len() == 0,
            backend::ready(&inner) ==> backend::ready(&r),
    {
        ReadAhead::with_window(inner, DEFAULT_WINDOW)
    }

    /// Wrap `inner` with a specific window size.
    ///
    /// A window of zero disables read-ahead entirely, which is useful for
    /// measuring what it is actually worth rather than assuming.
    pub fn with_window(inner: H, window_size: usize) -> (r: Self)
        ensures
            r.wrapped() == inner,
            r.kept() == ReadAheadView::start(window_size),
            r.passed_on().len() == 0,
            r.log().len() == 0,
            backend::ready(&inner) ==> backend::ready(&r),
    {
        let ghost log = inner.log();
        proof {
            assert(backend::since(log, log) =~= Seq::<Asked>::empty());
        }
        ReadAhead {
            inner,
            state: ReadAheadState::new(window_size),
            before: Ghost(log),
            log: Ghost(Seq::empty()),
        }
    }

    /// The handle underneath, for operations this wrapper does not intercept.
    pub fn inner(&self) -> (r: &H)
        ensures
            *r == self.wrapped(),
    {
        &self.inner
    }

    /// How many reads have reached the wrapped handle.
    ///
    /// The number read-ahead exists to reduce. Compare it against the number of
    /// reads the caller made.
    pub fn inner_read_count(&self) -> (r: u64)
        ensures
            r == self.kept().inner_reads,
            self.usable() ==> r == reads(self.passed_on()) % 0x1_0000_0000_0000_0000,
    {
        self.state.inner_reads()
    }

    /// How many bytes have been asked of the wrapped handle.
    pub fn inner_byte_count(&self) -> (r: u64)
        ensures
            r == self.kept().inner_bytes,
            self.usable() ==> r == bytes(self.passed_on()) % 0x1_0000_0000_0000_0000,
    {
        self.state.inner_bytes()
    }

    /// A request that reaches the handle is one more entry of the log.
    proof fn one_more(earlier: Self, later: Self, entry: Asked)
        requires
            earlier.before@.is_prefix_of(earlier.inner.log()),
            later.before == earlier.before,
            later.inner.log() == earlier.inner.log().push(entry),
        ensures
            earlier.asks(&later, seq![entry]),
            later.passed_on() == earlier.passed_on().push(entry),
            later.passed_on().drop_last() == earlier.passed_on(),
            later.before@.is_prefix_of(later.inner.log()),
    {
        backend::logging(earlier.before@, earlier.inner.log(), entry);
        assert(earlier.passed_on().push(entry) =~= earlier.passed_on() + seq![entry]);
        assert(earlier.inner.log().push(entry) =~= earlier.inner.log() + seq![entry]);
        assert(earlier.passed_on().push(entry).drop_last() =~= earlier.passed_on());
    }

    /// Pass a read through to the handle, counting it.
    fn read_through(&mut self, offset: u64, buf: &mut [u8]) -> (r: Result<usize, Error>)
        requires
            old(self).usable(),
            backend::addressable(old(self).wrapped().contents()),
        ensures
            final(self).usable(),
            final(self).wrapped().contents() == old(self).wrapped().contents(),
            final(self).wrapped().opened_len() == old(self).wrapped().opened_len(),
            final(self).wrapped().flushed() == old(self).wrapped().flushed(),
            final(self).kept().window == old(self).kept().window,
            final(self).kept().window_size == old(self).kept().window_size,
            old(self).asks(
                final(self),
                seq![backend::read_asked(offset, old(buf)@.len(), backend::counted(r))],
            ),
            final(self).log == old(self).log,
            final(buf)@.len() == old(buf)@.len(),
            r matches Ok(n) ==> backend::is_read_of(
                old(self).wrapped().contents(),
                offset as int,
                final(buf)@,
                n as int,
            ),
    {
        self.state.count(buf.len());
        let r = self.inner.read_at(offset, buf);
        proof {
            Self::one_more(
                *old(self),
                *self,
                backend::read_asked(offset, old(buf)@.len(), backend::counted(r)),
            );
        }
        r
    }

    /// Fetch a window of up to `len` bytes starting at `start` and keep it.
    ///
    /// Nothing is kept of a fetch that fails.
    fn fill(&mut self, start: u64, len: usize) -> (r: Result<(), Error>)
        requires
            old(self).usable(),
            backend::addressable(old(self).wrapped().contents()),
            len > 0,
        ensures
            final(self).usable(),
            final(self).wrapped().contents() == old(self).wrapped().contents(),
            final(self).wrapped().opened_len() == old(self).wrapped().opened_len(),
            final(self).wrapped().flushed() == old(self).wrapped().flushed(),
            final(self).kept().window_size == old(self).kept().window_size,
            final(self).log == old(self).log,
            ({
                let asked = backend::since(final(self).passed_on(), old(self).passed_on());
                &&& old(self).asks(final(self), asked)
                &&& backend::is_chain(start, len as nat, asked)
                &&& match r {
                    Ok(_) => {
                        &&& backend::is_complete(asked)
                        &&& is_window_of(start, asked, final(self).kept().window)
                    },
                    Err(e) => {
                        &&& backend::last_answer(asked) == Err::<nat, ErrorView>(e@)
                        &&& final(self).kept().window == old(self).kept().window
                    },
                }
            }),
            r is Ok ==> forall|o: u64, l: nat|
                start <= o && o + l <= start + len && l <= u64::MAX ==> #[trigger] final(
                    self).kept().window.covers(o, l),
    {
        let mut fill = Fill::new(start, len);
        let ghost contents = self.wrapped().contents();
        let ghost mut asked = Seq::<Asked>::empty();
        proof {
            assert(self.passed_on() + asked =~= self.passed_on());
            assert(self.wrapped().log() + asked =~= self.wrapped().log());
        }
        loop
            invariant_except_break
                !fill@.eof,
                if fill@.data.len() < len {
                    backend::is_under_way(start, len as nat, asked, fill@.data.len())
                } else {
                    &&& backend::is_chain(start, len as nat, asked)
                    &&& backend::is_complete(asked)
                    &&& is_window_of(start, asked, fill@.window())
                },
            invariant
                self.usable(),
                contents == old(self).wrapped().contents(),
                contents.len() <= u64::MAX,
                self.wrapped().contents() == contents,
                self.wrapped().opened_len() == old(self).wrapped().opened_len(),
                self.wrapped().flushed() == old(self).wrapped().flushed(),
                self.kept().window == old(self).kept().window,
                self.kept().window_size == old(self).kept().window_size,
                self.log == old(self).log,
                fill@.wf(),
                fill@.start == start,
                fill@.target == len,
                len > 0,
                fill@.window().holds_of(contents),
                old(self).asks(self, asked),
            ensures
                fill@.complete(),
                backend::is_chain(start, len as nat, asked),
                backend::is_complete(asked),
                is_window_of(start, asked, fill@.window()),
            decreases len - fill@.data.len(),
        {
            match fill.next() {
                None => {
                    break;
                },
                Some((offset, missing)) => {
                    let mut chunk: Vec<u8> = vec![0; missing];
                    let ghost earlier = *self;
                    let outcome = self.read_through(offset, chunk.as_mut_slice());
                    proof {
                        let entry = backend::read_asked(
                            offset,
                            missing as nat,
                            backend::counted(outcome),
                        );
                        backend::asking_on(
                            start,
                            len as nat,
                            asked,
                            fill@.data.len(),
                            backend::counted(outcome),
                        );
                        assert(old(self).passed_on() + asked.push(entry) =~= earlier.passed_on()
                            + seq![entry]);
                        assert(old(self).wrapped().log() + asked.push(entry)
                            =~= earlier.wrapped().log() + seq![entry]);
                        asked = asked.push(entry);
                        assert(backend::since(self.passed_on(), old(self).passed_on()) =~= asked);
                    }
                    match outcome {
                        Err(e) => {
                            return Err(e);
                        },
                        Ok(n) => {
                            proof {
                                absorbing_keeps_the_window_true(
                                    fill@,
                                    FillView {
                                        data: fill@.data + chunk@.take(n as int),
                                        eof: n == 0,
                                        ..fill@
                                    },
                                    chunk@,
                                    n as int,
                                    contents,
                                );
                            }
                            fill.absorb(chunk, n);
                            if n == 0 {
                                break;
                            }
                        },
                    }
                },
            }
        }
        proof {
            assert(backend::since(self.passed_on(), old(self).passed_on()) =~= asked);
            assert forall|o: u64, l: nat|
                start <= o && o + l <= start + len && l
                    <= u64::MAX implies #[trigger] fill@.window().covers(o, l) by {
                a_complete_fetch_covers_its_range(fill@, o, l);
            }
        }
        self.state.publish(fill.into_window());
        Ok(())
    }

    /// Answers a read, leaving it to the caller to log it.
    #[verifier::rlimit(40)]
    #[verifier::spinoff_prover]
    fn answer(&mut self, offset: u64, buf: &mut [u8]) -> (r: Result<usize, Error>)
        requires
            old(self).usable(),
            backend::addressable(old(self).wrapped().contents()),
        ensures
            final(self).usable(),
            final(self).wrapped().contents() == old(self).wrapped().contents(),
            final(self).wrapped().opened_len() == old(self).wrapped().opened_len(),
            final(self).wrapped().flushed() == old(self).wrapped().flushed(),
            final(self).log == old(self).log,
            final(buf)@.len() == old(buf)@.len(),
            r matches Ok(n) ==> backend::is_read_of(
                old(self).wrapped().contents(),
                offset as int,
                final(buf)@,
                n as int,
            ),
            old(self).answers(offset, old(buf)@, final(self), final(buf)@, backend::counted(r)),
    {
        let ghost wanted = buf@.len();
        let ghost contents = self.wrapped().contents();
        proof {
            assert(self.passed_on() + Seq::<Asked>::empty() =~= self.passed_on());
            assert(self.wrapped().log() + Seq::<Asked>::empty() =~= self.wrapped().log());
            assert(backend::since(self.passed_on(), self.passed_on()) =~= Seq::<Asked>::empty());
        }
        let opened_len = self.inner.len();
        match self.state.plan(offset, buf.len(), opened_len) {
            ReadPlan::Nothing => {
                assert(buf@.take(0) =~= backend::visible(contents, offset as int, 0).take(0));
                Ok(0)
            },
            ReadPlan::Through => {
                let r = self.read_through(offset, buf);
                proof {
                    let entry = backend::read_asked(offset, wanted, backend::counted(r));
                    assert(backend::since(self.passed_on(), old(self).passed_on()) =~= seq![entry]);
                }
                r
            },
            ReadPlan::FromWindow => {
                let served = self.state.serve(offset, buf);
                proof {
                    assert(buf@.take(served->0 as int) =~= self.kept().window.served(
                        offset,
                        wanted,
                    ));
                    a_covered_read_is_a_read_of_the_file(
                        self.kept().window,
                        contents,
                        offset,
                        buf@,
                    );
                }
                match served {
                    Some(n) => Ok(n),
                    None => Ok(0),
                }
            },
            ReadPlan::Fetch { start, len } => {
                match self.fill(start, len) {
                    Err(e) => {
                        return Err(e);
                    },
                    Ok(_) => {},
                }
                let ghost fetched = *self;
                let ghost fetch = backend::since(self.passed_on(), old(self).passed_on());
                match self.state.serve(offset, buf) {
                    Some(n) => {
                        proof {
                            assert(buf@.take(n as int) =~= self.kept().window.served(
                                offset,
                                wanted,
                            ));
                            a_covered_read_is_a_read_of_the_file(
                                self.kept().window,
                                contents,
                                offset,
                                buf@,
                            );
                        }
                        Ok(n)
                    },
                    // The request runs past the end of the window that was
                    // fetched. Hand it to the handle rather than cut it short.
                    None => {
                        let r = self.read_through(offset, buf);
                        proof {
                            let entry = backend::read_asked(offset, wanted, backend::counted(r));
                            let asked = backend::since(self.passed_on(), old(self).passed_on());
                            assert(asked =~= fetch.push(entry));
                            assert(asked.drop_last() =~= fetch);
                            assert(old(self).passed_on() + asked =~= fetched.passed_on()
                                + seq![entry]);
                            assert(old(self).wrapped().log() + asked =~= fetched.wrapped().log()
                                + seq![entry]);
                        }
                        r
                    },
                }
            },
        }
    }

    /// Whether a read needs one window at most.
    pub open spec fn is_cheap(&self, offset: u64, len: nat) -> bool {
        &&& offset + len <= u64::MAX
        &&& match self.kept().planned(offset, len, self.wrapped().opened_len()) {
            ReadPlan::FromWindow => true,
            ReadPlan::Fetch { start, len: fetched } => offset + len <= start + fetched,
            _ => false,
        }
    }

    /// What a read of all of `len` bytes costs, however short the answers are:
    /// nothing where the window has them, and one fetch where they fit into the
    /// window that is fetched.
    pub open spec fn costs(&self, offset: u64, len: nat, after: &Self) -> bool {
        let asked = backend::since(after.passed_on(), self.passed_on());
        &&& self.asks(after, asked)
        &&& after.kept().window_size == self.kept().window_size
        &&& self.is_cheap(offset, len) ==> match self.kept().planned(
            offset,
            len,
            self.wrapped().opened_len(),
        ) {
            ReadPlan::Fetch { start, len: fetched } => backend::is_chain(
                start,
                fetched as nat,
                asked,
            ),
            _ => asked.len() == 0,
        }
    }

    /// How a read is answered, and what that costs. What the window holds is
    /// served from it, as far as it goes and without the handle; what no window
    /// can hold is handed on as it is, and so is the handle's answer; for
    /// everything else one window is fetched.
    pub open spec fn answers(
        &self,
        offset: u64,
        buf: Seq<u8>,
        after: &Self,
        filled: Seq<u8>,
        answer: Result<nat, ErrorView>,
    ) -> bool {
        let wanted = buf.len();
        let asked = backend::since(after.passed_on(), self.passed_on());
        &&& self.asks(after, asked)
        &&& after.kept().window_size == self.kept().window_size
        &&& match self.kept().planned(offset, wanted, self.wrapped().opened_len()) {
            ReadPlan::Nothing => {
                &&& asked.len() == 0
                &&& answer == Ok::<nat, ErrorView>(0)
                &&& after.kept() == self.kept()
            },
            ReadPlan::FromWindow => {
                let served = self.kept().window.served(offset, wanted);
                &&& asked.len() == 0
                &&& answer == Ok::<nat, ErrorView>(served.len())
                &&& filled == served + buf.skip(served.len() as int)
                &&& after.kept() == self.kept()
            },
            ReadPlan::Through => {
                &&& asked == seq![backend::read_asked(offset, wanted, answer)]
                &&& after.kept().window == self.kept().window
            },
            ReadPlan::Fetch { start, len } => {
                &&& is_fetch(
                    start,
                    len as nat,
                    offset,
                    wanted,
                    self.kept().window,
                    after.kept().window,
                    asked,
                    answer,
                )
                &&& answer is Ok ==> forall|o: u64, l: nat|
                    start <= o && o + l <= start + len && l <= u64::MAX
                        ==> #[trigger] after.kept().window.covers(o, l)
            },
        }
    }
}

impl<H: FileHandle> ReadAhead<H> {
    /// What is asked in two steps is what the first asks, then the second.
    proof fn one_after_another(a: Self, b: Self, c: Self)
        requires
            a.asks(&b, backend::since(b.passed_on(), a.passed_on())),
            b.asks(&c, backend::since(c.passed_on(), b.passed_on())),
        ensures
            a.asks(&c, backend::since(c.passed_on(), a.passed_on())),
            backend::since(c.passed_on(), a.passed_on()) == backend::since(
                b.passed_on(),
                a.passed_on(),
            ) + backend::since(c.passed_on(), b.passed_on()),
    {
        let first = backend::since(b.passed_on(), a.passed_on());
        let second = backend::since(c.passed_on(), b.passed_on());
        let asked = backend::since(c.passed_on(), a.passed_on());
        assert(asked =~= first + second);
        assert(a.passed_on() + asked =~= b.passed_on() + second);
        assert(a.wrapped().log() + asked =~= b.wrapped().log() + second);
    }

    /// The first part of a read that needs one window at most costs at most one
    /// fetch, and falls short only where the window knows the end of the file.
    proof fn the_first_read_fetches(
        a: Self,
        b: Self,
        c: Self,
        offset: u64,
        buf: Seq<u8>,
        filled: Seq<u8>,
        answer: Result<nat, ErrorView>,
    )
        requires
            b.kept() == a.kept(),
            b.passed_on() == a.passed_on(),
            b.wrapped().opened_len() == a.wrapped().opened_len(),
            a.asks(&c, backend::since(c.passed_on(), a.passed_on())),
            b.answers(offset, buf, &c, filled, answer),
            buf.len() > 0,
            a.is_cheap(offset, buf.len()),
        ensures
            a.costs(offset, buf.len(), &c),
            answer is Ok && answer->Ok_0 < buf.len() ==> {
                &&& c.kept().window.eof
                &&& c.kept().window.start <= offset
                &&& c.kept().window_size > 0
            },
    {
        let asked = backend::since(c.passed_on(), a.passed_on());
        let w = c.kept().window;
        match a.kept().planned(offset, buf.len(), a.wrapped().opened_len()) {
            ReadPlan::Fetch { start, len } => {
                window_start_bounds(a.kept().window_size, offset);
                if backend::is_chain(start, len as nat, asked) {
                    let last = asked.len() - 1;
                    backend::a_continued_read_never_asks_for_more(start, len as nat, asked, last);
                    assert(asked.last() == asked[last]);
                } else {
                    let fetch = asked.drop_last();
                    let last = fetch.len() - 1;
                    backend::a_continued_read_never_asks_for_more(start, len as nat, fetch, last);
                    assert(fetch.last() == fetch[last]);
                    assert(w.covers(offset, buf.len()));
                }
            },
            _ => {},
        }
    }

    /// Once the window knows the end of the file, what is left of such a read
    /// costs nothing more.
    proof fn the_next_read_asks_nothing(
        a: Self,
        b: Self,
        c: Self,
        offset: u64,
        len: nat,
        at: u64,
        buf: Seq<u8>,
        filled: Seq<u8>,
        answer: Result<nat, ErrorView>,
    )
        requires
            a.costs(offset, len, &b),
            a.is_cheap(offset, len),
            a.asks(&c, backend::since(c.passed_on(), a.passed_on())),
            backend::since(c.passed_on(), a.passed_on()) == backend::since(
                b.passed_on(),
                a.passed_on(),
            ) + backend::since(c.passed_on(), b.passed_on()),
            b.kept().window.eof,
            b.kept().window.start <= offset <= at,
            b.kept().window_size > 0,
            b.answers(at, buf, &c, filled, answer),
            buf.len() > 0,
        ensures
            a.costs(offset, len, &c),
            c.kept() == b.kept(),
    {
        let first = backend::since(b.passed_on(), a.passed_on());
        assert(backend::since(c.passed_on(), a.passed_on()) =~= first);
    }
}

impl<H: FileHandle> ReadAhead<H> {
    /// Where a read of all of `len` bytes stands, of which `done` are there.
    #[verifier::opaque]
    spec fn midway(&self, now: &Self, offset: u64, len: nat, done: nat) -> bool {
        &&& self.asks(now, backend::since(now.passed_on(), self.passed_on()))
        &&& now.wrapped().opened_len() == self.wrapped().opened_len()
        &&& now.kept().window_size == self.kept().window_size
        &&& done == 0 ==> now.kept() == self.kept() && now.passed_on() == self.passed_on()
        &&& done > 0 && self.is_cheap(offset, len) ==> {
            &&& self.costs(offset, len, now)
            &&& now.kept().window.eof
            &&& now.kept().window.start <= offset
            &&& now.kept().window_size > 0
        }
    }

    /// Before anything is there.
    proof fn at_first(from: Self, offset: u64, len: nat)
        ensures
            from.midway(&from, offset, len, 0),
            len == 0 ==> from.costs(offset, len, &from),
    {
        reveal(ReadAhead::midway);
        assert(from.passed_on() + Seq::<Asked>::empty() =~= from.passed_on());
        assert(from.wrapped().log() + Seq::<Asked>::empty() =~= from.wrapped().log());
        assert(backend::since(from.passed_on(), from.passed_on()) =~= Seq::<Asked>::empty());
    }

    /// One part of a read of all of `len` bytes.
    fn part(
        &mut self,
        at: u64,
        rest: &mut [u8],
        Ghost(from): Ghost<Self>,
        Ghost(offset): Ghost<u64>,
        Ghost(len): Ghost<nat>,
    ) -> (r: Result<usize, Error>)
        requires
            old(self).usable(),
            backend::addressable(old(self).contents()),
            0 < old(rest)@.len() <= len,
            at == offset + (len - old(rest)@.len()),
            from.midway(old(self), offset, len, (len - old(rest)@.len()) as nat),
        ensures
            final(self).usable(),
            final(self).contents() == old(self).contents(),
            final(self).opened_len() == old(self).opened_len(),
            final(self).flushed() == old(self).flushed(),
            final(self).log() == old(self).log().push(
                backend::read_asked(at, old(rest)@.len(), backend::counted(r)),
            ),
            final(rest)@.len() == old(rest)@.len(),
            r matches Ok(n) ==> backend::is_read_of(
                old(self).contents(),
                at as int,
                final(rest)@,
                n as int,
            ),
            from.costs(offset, len, final(self)),
            r is Ok && 0 < r->Ok_0 < old(rest)@.len() ==> from.midway(
                final(self),
                offset,
                len,
                (len - old(rest)@.len() + r->Ok_0) as nat,
            ),
    {
        let ghost earlier = *self;
        let ghost buf = rest@;
        let outcome = self.read_at(at, rest);
        proof {
            reveal(ReadAhead::midway);
            Self::one_after_another(from, earlier, *self);
            let answer = backend::counted(outcome);
            if from.is_cheap(offset, len) {
                if at == offset {
                    Self::the_first_read_fetches(from, earlier, *self, offset, buf, rest@, answer);
                } else {
                    Self::the_next_read_asks_nothing(
                        from,
                        earlier,
                        *self,
                        offset,
                        len,
                        at,
                        buf,
                        rest@,
                        answer,
                    );
                }
            }
        }
        outcome
    }
}

impl<H: FileHandle> FileHandle for ReadAhead<H> {
    open spec fn contents(&self) -> Seq<u8> {
        self.wrapped().contents()
    }

    open spec fn opened_len(&self) -> u64 {
        self.wrapped().opened_len()
    }

    /// What is kept is true of the file.
    open spec fn usable(&self) -> bool {
        &&& self.wrapped().usable()
        &&& self.kept().window.holds_of(self.wrapped().contents())
        &&& self.counted()
    }

    closed spec fn log(&self) -> Seq<Asked> {
        self.log@
    }

    open spec fn flushed(&self) -> bool {
        self.wrapped().flushed()
    }

    fn read_at(&mut self, offset: u64, buf: &mut [u8]) -> (r: Result<usize, Error>)
        ensures
            old(self).answers(offset, old(buf)@, final(self), final(buf)@, backend::counted(r)),
            // What fits into a window is cut short by the end of the file alone.
            r is Ok && old(self).is_cheap(offset, old(buf)@.len()) ==> r->Ok_0 == backend::visible(
                old(self).contents(),
                offset as int,
                old(buf)@.len() as int,
            ).len(),
    {
        let len: usize = buf.len();
        let r = self.answer(offset, buf);
        proof {
            let wanted = len as nat;
            let w = self.kept().window;
            if r is Ok && old(self).is_cheap(offset, wanted) {
                window_start_bounds(old(self).kept().window_size, offset);
                assert(w.covers(offset, wanted));
                a_window_serves_all_there_is(w, self.contents(), offset, wanted);
            }
        }
        proof {
            self.log@ = self.log@.push(
                backend::read_asked(offset, old(buf)@.len(), backend::counted(r)),
            );
        }
        r
    }

    fn write_at(&mut self, offset: u64, buf: &[u8]) -> (r: Result<usize, Error>)
        ensures
            old(self).asks(
                final(self),
                seq![Asked::Write { offset, data: buf@, answer: backend::counted(r) }],
            ),
            final(self).kept() == old(self).kept().without_window(),
    {
        let r = self.inner.write_at(offset, buf);
        // Whether it failed or not: a write that failed may have changed some
        // of the bytes that were kept.
        self.state.invalidate();
        proof {
            let entry = Asked::Write { offset, data: buf@, answer: backend::counted(r) };
            Self::one_more(*old(self), *self, entry);
            self.log@ = self.log@.push(entry);
        }
        r
    }

    fn set_len(&mut self, len: u64) -> (r: Result<(), Error>)
        ensures
            old(self).asks(
                final(self),
                seq![Asked::Resize { len, answer: backend::settled(r) }],
            ),
            final(self).kept() == old(self).kept().without_window(),
    {
        let r = self.inner.set_len(len);
        self.state.invalidate();
        proof {
            let entry = Asked::Resize { len, answer: backend::settled(r) };
            Self::one_more(*old(self), *self, entry);
            self.log@ = self.log@.push(entry);
        }
        r
    }

    fn flush(&mut self) -> (r: Result<(), Error>)
        ensures
            old(self).asks(final(self), seq![Asked::Flush { answer: backend::settled(r) }]),
            final(self).kept() == old(self).kept(),
    {
        let r = self.inner.flush();
        proof {
            let entry = Asked::Flush { answer: backend::settled(r) };
            Self::one_more(*old(self), *self, entry);
            self.log@ = self.log@.push(entry);
        }
        r
    }

    fn close(&mut self) -> (r: Result<(), Error>)
        ensures
            final(self).wrapped().log() == old(self).wrapped().log().push(
                Asked::Close { answer: backend::settled(r) },
            ),
            final(self).kept() == old(self).kept().without_window(),
    {
        self.state.invalidate();
        let r = self.inner.close();
        proof {
            self.log@ = self.log@.push(Asked::Close { answer: backend::settled(r) });
        }
        r
    }

    fn len(&self) -> (r: u64) {
        self.inner.len()
    }

    /// Reads as any handle does, and says what that costs.
    #[verifier::spinoff_prover]
    fn read_exact_at(&mut self, offset: u64, buf: &mut [u8]) -> (r: Result<(), Error>)
        ensures
            old(self).costs(offset, old(buf)@.len(), final(self)),
    {
        let len: usize = buf.len();
        let ghost contents = self.contents();
        let ghost before = self.log();
        let ghost from = *self;
        let mut done: usize = 0;
        proof {
            assert(backend::since(before, before) =~= Seq::<Asked>::empty());
            Self::at_first(from, offset, len as nat);
        }
        while done < len
            invariant
                done <= len,
                done < len || len == 0,
                len == buf@.len(),
                len == old(buf)@.len(),
                from == *old(self),
                self.usable(),
                contents == old(self).contents(),
                self.contents() == contents,
                self.opened_len() == old(self).opened_len(),
                self.flushed() == old(self).flushed(),
                before == old(self).log(),
                before.is_prefix_of(self.log()),
                backend::is_under_way(
                    offset,
                    len as nat,
                    backend::since(self.log(), before),
                    done as nat,
                ),
                backend::addressable(contents),
                done > 0 ==> offset + done <= contents.len(),
                done > 0 ==> buf@.take(done as int) == contents.subrange(
                    offset as int,
                    offset + done,
                ),
                from.midway(self, offset, len as nat, done as nat),
                len == 0 ==> from.costs(offset, len as nat, self),
            decreases len - done,
        {
            let ghost head = buf@.take(done as int);
            let ghost log = self.log();
            let (_, rest) = buf.split_at_mut(done);
            let outcome = self.part(
                offset + done as u64,
                rest,
                Ghost(from),
                Ghost(offset),
                Ghost(len as nat),
            );
            let ghost answer = rest@;
            proof {
                assert(buf@ =~= head + answer);
                backend::one_more_part(
                    contents,
                    offset,
                    before,
                    log,
                    head,
                    answer,
                    backend::counted(outcome),
                );
            }
            match backend::exact_read_step(offset, len, done, outcome) {
                ExactRead::Done => {
                    assert(buf@.take(len as int) =~= buf@);
                    return Ok(());
                },
                ExactRead::More(n) => {
                    done = n;
                },
                ExactRead::Failed(e) => {
                    return Err(e);
                },
            }
        }
        Ok(())
    }
}

// ---------------------------------------------------------------------------
// Laws
// ---------------------------------------------------------------------------

impl<H: FileHandle> ReadAhead<H> {
    /// The decorator shows the wrapped file and nothing else, and its counters
    /// leave out no request that reached the handle.
    pub proof fn shows_the_wrapped_file(&self)
        ensures
            self.contents() == self.wrapped().contents(),
            self.opened_len() == self.wrapped().opened_len(),
            self.flushed() == self.wrapped().flushed(),
            self.usable() ==> self.wrapped().usable(),
            self.usable() ==> self.kept().window.holds_of(self.wrapped().contents()),
            self.usable() ==> self.counts_every_request(),
    {
    }
}

/// Whatever the window covers is answered from it: such a read costs no request.
pub proof fn a_covered_read_costs_nothing(
    v: ReadAheadView,
    offset: u64,
    len: nat,
    opened_len: u64,
)
    requires
        v.window_size > 0,
        v.window.covers(offset, len),
    ensures
        v.planned(offset, len, opened_len) is FromWindow || v.planned(offset, len, opened_len)
            is Nothing,
{
}

/// A fetch starts at a window boundary, contains the request's offset, is at
/// most a window long, and asks for nothing past the length that was observed at
/// opening unless that length leaves nothing.
pub proof fn a_fetch_is_aligned_and_stays_inside_the_file(
    v: ReadAheadView,
    offset: u64,
    len: nat,
    opened_len: u64,
)
    requires
        v.planned(offset, len, opened_len) is Fetch,
    ensures
        v.planned(offset, len, opened_len) matches ReadPlan::Fetch { start, len: fetched } && {
            &&& start % (v.window_size as u64) == 0
            &&& start <= offset < start + v.window_size
            &&& 0 < fetched <= v.window_size
            &&& start < opened_len ==> start + fetched <= opened_len
        },
{
    window_start_bounds(v.window_size, offset);
}

/// A handle that answers a fetch in full is asked once, and for no byte more
/// than the fetch is long.
pub proof fn a_fetch_answered_in_full_is_one_request(start: u64, len: nat, asked: Seq<Asked>)
    requires
        backend::is_chain(start, len, asked),
        asked[0]->Read_0.answer == Ok::<nat, ErrorView>(len),
    ensures
        asked.len() == 1,
        reads(asked) == 1,
        bytes(asked) == len,
    decreases asked.len(),
{
    if asked.len() > 1 {
        a_fetch_answered_in_full_is_one_request(start, len, asked.drop_last());
    } else {
        assert(asked.drop_last() =~= Seq::<Asked>::empty());
        reveal_with_fuel(reads, 2);
        reveal_with_fuel(bytes, 2);
    }
}

/// A request larger than the window is never cut down to it, and a window of
/// zero passes every request on.
pub proof fn what_no_window_can_hold_is_passed_on(
    v: ReadAheadView,
    offset: u64,
    len: nat,
    opened_len: u64,
)
    requires
        len > v.window_size,
        v.window_size == 0 || !v.window.covers(offset, len),
    ensures
        v.planned(offset, len, opened_len) is Through,
{
}

/// A window covers what it holds, and where it has seen the end of the file
/// everything from its start on; nothing before its start.
pub proof fn a_window_covers_what_it_holds(w: WindowView, offset: u64, len: nat)
    requires
        0 < len,
        offset + len <= u64::MAX,
    ensures
        w.covers(offset, len) <==> w.start <= offset && (w.eof || offset + len <= w.start
            + w.data.len()),
{
}

/// A fetch brings a whole window, or the file up to the length that was observed
/// at opening where that comes first.
pub proof fn a_fetch_is_as_long_as_it_may_be(
    state: ReadAheadState,
    offset: u64,
    len: usize,
    opened_len: u64,
    r: ReadPlan,
)
    requires
        call_ensures(ReadAheadState::plan, (&state, offset, len, opened_len), r),
    ensures
        len == 0 <==> r is Nothing,
        r is FromWindow ==> state@.window.covers(offset, len as nat) && state@.window_size > 0,
        len > 0 && state@.window_size > 0 && state@.window.covers(offset, len as nat) ==> r
            is FromWindow,
        len > 0 && state@.window_size == 0 ==> r is Through,
        r matches ReadPlan::Fetch { start, len: fetched } ==> {
            &&& start <= offset < start + state@.window_size
            &&& start % (state@.window_size as u64) == 0
            &&& start < opened_len && opened_len - start < state@.window_size ==> fetched
                == opened_len - start
            &&& start >= opened_len || opened_len - start >= state@.window_size ==> fetched
                == state@.window_size
            &&& len <= state@.window_size
        },
        len > state@.window_size && !state@.window.covers(offset, len as nat) ==> r is Through,
{
    if r is Fetch {
        window_start_bounds(state@.window_size, offset);
    }
}

/// What is served from a window are its bytes from the offset on, at the front of
/// the buffer, and the rest of the buffer stays as it was.
pub proof fn a_window_serves_its_own_bytes(
    state: ReadAheadState,
    offset: u64,
    buf: &mut [u8],
    r: Option<usize>,
)
    requires
        state@.window.end() <= u64::MAX,
        old(buf)@.len() > 0,
        call_ensures(ReadAheadState::serve, (&state, offset, buf), r),
    ensures
        r is Some <==> state@.window.covers(offset, old(buf)@.len()),
        r is None ==> final(buf)@ == old(buf)@,
        r matches Some(n) ==> {
            &&& n <= old(buf)@.len()
            &&& forall|i: int|
                0 <= i < n ==> #[trigger] final(buf)@[i] == state@.window.data[offset
                    - state@.window.start + i]
            &&& forall|i: int|
                n <= i < old(buf)@.len() ==> #[trigger] final(buf)@[i] == old(buf)@[i]
            &&& n < old(buf)@.len() ==> offset - state@.window.start + n
                >= state@.window.data.len()
        },
{
}

/// A fetch that takes in an answer holds it behind what it had, asks next for
/// what is still missing, and is over where nothing came or nothing is missing.
pub proof fn a_fetch_asks_for_what_is_missing(
    fill: &mut Fill,
    chunk: Vec<u8>,
    n: usize,
    next: Option<(u64, usize)>,
)
    requires
        old(fill)@.wf() && !old(fill)@.complete(),
        chunk@.len() == old(fill)@.target - old(fill)@.data.len(),
        n <= chunk@.len(),
        old(fill)@.start + old(fill)@.data.len() + n <= u64::MAX,
        call_ensures(Fill::absorb, (fill, chunk, n), ()),
        call_ensures(Fill::next, (final(fill),), next),
    ensures
        final(fill)@.data == old(fill)@.data + chunk@.take(n as int),
        n == 0 ==> next is None,
        n > 0 && n < chunk@.len() ==> next == Some(
            (
                (old(fill)@.start + old(fill)@.data.len() + n) as u64,
                (chunk@.len() - n) as usize,
            ),
        ),
        n > 0 && n == chunk@.len() ==> next is None,
{
}

/// Read-ahead starts with an empty window of the size that was asked for, and of a
/// mebibyte where none was; nothing is asked of the handle for that.
pub proof fn read_ahead_starts_with_nothing<H: FileHandle>(
    inner: H,
    size: usize,
    plain: ReadAhead<H>,
    sized: ReadAhead<H>,
    reads: u64,
    bytes: u64,
)
    requires
        call_ensures(ReadAhead::<H>::new, (inner,), plain),
        call_ensures(ReadAhead::<H>::with_window, (inner, size), sized),
        call_ensures(ReadAhead::<H>::inner_read_count, (&sized,), reads),
        call_ensures(ReadAhead::<H>::inner_byte_count, (&sized,), bytes),
    ensures
        plain.kept().window_size == 1024 * 1024,
        sized.kept().window_size == size,
        sized.kept().window.data.len() == 0 && !sized.kept().window.eof,
        plain.kept().window.data.len() == 0 && !plain.kept().window.eof,
        sized.wrapped() == inner && plain.wrapped() == inner,
        reads == 0 && bytes == 0,
{
}

} // verus!
