//! A file open on an SMB session.
//!
//! The handle the caller holds is an opaque id, not a pointer. Every operation
//! here becomes a request to the session's thread; this module decides which,
//! and keeps what the file is known to be.

use vstd::prelude::*;
use crate::error::{Error, ErrorView};
use crate::path::{self, VfsPath};

verus! {

/// What an operation on a file asks of the session.
#[derive(Clone, Copy, PartialEq, Eq, Debug, Structural)]
pub enum Transfer {
    /// Nothing: no bytes were asked for.
    Nothing,
    /// A request for so many bytes.
    Request { len: u32 },
}

/// A file open on a session.
pub struct RemoteFile {
    id: u64,
    /// Size as last known. Updated by writes and truncation; not authoritative
    /// for reads, which run until the backend reports end-of-file.
    len: u64,
    closed: bool,
    path: VfsPath,
    max_read_size: u32,
    max_write_size: u32,
}

/// A [`RemoteFile`] as plain values.
#[verifier::ext_equal]
pub struct RemoteView {
    pub id: u64,
    pub len: u64,
    pub closed: bool,
    pub path: Seq<Seq<char>>,
    pub max_read_size: u32,
    pub max_write_size: u32,
}

impl View for RemoteFile {
    type V = RemoteView;

    closed spec fn view(&self) -> RemoteView {
        RemoteView {
            id: self.id,
            len: self.len,
            closed: self.closed,
            path: self.path@,
            max_read_size: self.max_read_size,
            max_write_size: self.max_write_size,
        }
    }
}

/// The error for an operation on a file that was closed.
pub open spec fn closed_text(path: Seq<Seq<char>>) -> ErrorView {
    ErrorView::Backend { message: path::rendered(path) + " is already closed"@ }
}

/// How many bytes to ask for at once: what is wanted, but no more than the
/// negotiated dialect allows.
pub open spec fn capped(wanted: nat, limit: u32) -> u32 {
    if wanted < limit {
        wanted as u32
    } else {
        limit
    }
}

impl RemoteView {
    /// What a transfer of `wanted` bytes asks of the session.
    pub open spec fn transfer(self, wanted: nat, limit: u32) -> Result<Transfer, ErrorView> {
        if wanted == 0 {
            Ok(Transfer::Nothing)
        } else if self.closed {
            Err(closed_text(self.path))
        } else {
            Ok(Transfer::Request { len: capped(wanted, limit) })
        }
    }
}

impl RemoteFile {
    /// A file that was just opened, under an id of the session.
    pub fn new(
        id: u64,
        len: u64,
        path: VfsPath,
        max_read_size: u32,
        max_write_size: u32,
    ) -> (r: Self)
        ensures
            r@ == (RemoteView {
                id,
                len,
                closed: false,
                path: path@,
                max_read_size,
                max_write_size,
            }),
    {
        RemoteFile { id, len, closed: false, path, max_read_size, max_write_size }
    }

    pub fn id(&self) -> (r: u64)
        ensures
            r == self@.id,
    {
        self.id
    }

    /// The size as last known.
    pub fn len(&self) -> (r: u64)
        ensures
            r == self@.len,
    {
        self.len
    }

    fn closed_error(&self) -> (r: Error)
        ensures
            r@ == closed_text(self@.path),
    {
        let mut message = self.path.to_string();
        message.append(" is already closed");
        Error::Backend { message }
    }

    fn transfer(&self, wanted: usize, limit: u32) -> (r: Result<Transfer, Error>)
        ensures
            match self@.transfer(wanted as nat, limit) {
                Ok(t) => r == Ok::<Transfer, Error>(t),
                Err(v) => r matches Err(e) && e@ == v,
            },
    {
        if wanted == 0 {
            return Ok(Transfer::Nothing);
        }
        if self.closed {
            return Err(self.closed_error());
        }
        let len: u32 = if (wanted as u64) < limit as u64 {
            wanted as u32
        } else {
            limit
        };
        Ok(Transfer::Request { len })
    }

    /// What reading into a buffer of `wanted` bytes asks of the session. A
    /// short read is allowed, so the caller loops.
    pub fn plan_read(&self, wanted: usize) -> (r: Result<Transfer, Error>)
        ensures
            match self@.transfer(wanted as nat, self@.max_read_size) {
                Ok(t) => r == Ok::<Transfer, Error>(t),
                Err(v) => r matches Err(e) && e@ == v,
            },
    {
        self.transfer(wanted, self.max_read_size)
    }

    /// What writing `wanted` bytes asks of the session.
    pub fn plan_write(&self, wanted: usize) -> (r: Result<Transfer, Error>)
        ensures
            match self@.transfer(wanted as nat, self@.max_write_size) {
                Ok(t) => r == Ok::<Transfer, Error>(t),
                Err(v) => r matches Err(e) && e@ == v,
            },
    {
        self.transfer(wanted, self.max_write_size)
    }

    /// Hands the bytes of a reply to the caller.
    pub fn deliver(data: &Vec<u8>, buf: &mut [u8]) -> (n: usize)
        ensures
            n == if data@.len() < old(buf)@.len() {
                data@.len()
            } else {
                old(buf)@.len()
            },
            final(buf)@ == data@.take(n as int) + old(buf)@.skip(n as int),
    {
        let n: usize = if data.len() < buf.len() {
            data.len()
        } else {
            buf.len()
        };
        let mut i: usize = 0;
        assert(buf@ =~= data@.take(0) + old(buf)@.skip(0));
        while i < n
            invariant
                i <= n <= data@.len(),
                n <= buf@.len(),
                buf@.len() == old(buf)@.len(),
                buf@ == data@.take(i as int) + old(buf)@.skip(i as int),
            decreases n - i,
        {
            buf[i] = data[i];
            assert(buf@ =~= data@.take(i + 1) + old(buf)@.skip(i + 1));
            i = i + 1;
        }
        n
    }

    /// A write past the old end extends the file, so the known length grows
    /// with it.
    pub fn wrote(&mut self, offset: u64, written: usize)
        requires
            offset + written <= u64::MAX,
        ensures
            final(self)@ == (RemoteView {
                len: if old(self)@.len < offset + written {
                    (offset + written) as u64
                } else {
                    old(self)@.len
                },
                ..old(self)@
            }),
    {
        let end: u64 = offset + written as u64;
        if self.len < end {
            self.len = end;
        }
    }

    /// Whether an operation other than a transfer may go ahead.
    pub fn check_open(&self) -> (r: Result<(), Error>)
        ensures
            if self@.closed {
                r matches Err(e) && e@ == closed_text(self@.path)
            } else {
                r is Ok
            },
    {
        if self.closed {
            Err(self.closed_error())
        } else {
            Ok(())
        }
    }

    /// The file was cut or extended.
    pub fn resized(&mut self, len: u64)
        ensures
            final(self)@ == (RemoteView { len, ..old(self)@ }),
    {
        self.len = len;
    }

    /// Marks the file closed. Returns whether the session has to be asked to
    /// close it: only the first time, whether it was closed or dropped.
    pub fn close(&mut self) -> (r: bool)
        ensures
            r == !old(self)@.closed,
            final(self)@ == (RemoteView { closed: true, ..old(self)@ }),
    {
        let first = !self.closed;
        self.closed = true;
        first
    }
}

/// Once closed, a file moves no bytes: only a transfer of nothing succeeds.
pub proof fn a_closed_file_moves_no_bytes(f: RemoteView, wanted: nat, limit: u32)
    requires
        f.closed,
        wanted > 0,
    ensures
        f.transfer(wanted, limit) == Err::<Transfer, ErrorView>(closed_text(f.path)),
{
}

/// No request exceeds what the session allows, nor what was asked for.
pub proof fn a_request_stays_within_the_limit(f: RemoteView, wanted: nat, limit: u32)
    ensures
        f.transfer(wanted, limit) matches Ok(Transfer::Request { len }) ==> len <= limit && len
            <= wanted,
{
}

/// A read asks for what is wanted, up to what the session allows for reads; a
/// write likewise, up to what it allows for writes. Nothing is asked for nothing,
/// and a closed file asks for nothing else.
pub proof fn transfers_ask_for_all_they_may(
    f: RemoteFile,
    wanted: usize,
    read: Result<Transfer, Error>,
    write: Result<Transfer, Error>,
)
    requires
        call_ensures(RemoteFile::plan_read, (&f, wanted), read),
        call_ensures(RemoteFile::plan_write, (&f, wanted), write),
    ensures
        wanted == 0 ==> read == Ok::<Transfer, Error>(Transfer::Nothing) && write == Ok::<
            Transfer,
            Error,
        >(Transfer::Nothing),
        wanted > 0 && f@.closed ==> read is Err && write is Err,
        wanted > 0 && !f@.closed && wanted <= f@.max_read_size ==> read == Ok::<Transfer, Error>(
            Transfer::Request { len: wanted as u32 },
        ),
        wanted > 0 && !f@.closed && wanted > f@.max_read_size ==> read == Ok::<Transfer, Error>(
            Transfer::Request { len: f@.max_read_size },
        ),
        wanted > 0 && !f@.closed && wanted <= f@.max_write_size ==> write == Ok::<Transfer, Error>(
            Transfer::Request { len: wanted as u32 },
        ),
        wanted > 0 && !f@.closed && wanted > f@.max_write_size ==> write == Ok::<Transfer, Error>(
            Transfer::Request { len: f@.max_write_size },
        ),
        read matches Err(e) ==> e@ == (ErrorView::Backend {
            message: path::rendered(f@.path) + " is already closed"@,
        }),
{
}

/// What a file was opened with is what it knows.
pub proof fn a_file_knows_what_it_was_opened_with(
    id: u64,
    len: u64,
    path: VfsPath,
    max_read_size: u32,
    max_write_size: u32,
    f: RemoteFile,
    known_id: u64,
    known_len: u64,
)
    requires
        call_ensures(RemoteFile::new, (id, len, path, max_read_size, max_write_size), f),
        call_ensures(RemoteFile::id, (&f,), known_id),
        call_ensures(RemoteFile::len, (&f,), known_len),
    ensures
        known_id == id,
        known_len == len,
        !f@.closed,
        f@.path == path@,
        f@.max_read_size == max_read_size,
        f@.max_write_size == max_write_size,
{
}

/// A write makes the known length reach its end, and never shrinks it; a resize
/// sets it. Neither changes anything else.
pub proof fn the_known_length_follows_the_file(
    f: &mut RemoteFile,
    offset: u64,
    written: usize,
    g: &mut RemoteFile,
    len: u64,
)
    requires
        offset + written <= u64::MAX,
        call_ensures(RemoteFile::wrote, (f, offset, written), ()),
        call_ensures(RemoteFile::resized, (g, len), ()),
    ensures
        final(f)@.len >= offset + written,
        final(f)@.len >= old(f)@.len,
        final(f)@.len == offset + written || final(f)@.len == old(f)@.len,
        final(f)@.id == old(f)@.id && final(f)@.closed == old(f)@.closed,
        final(g)@.len == len,
        final(g)@.id == old(g)@.id && final(g)@.closed == old(g)@.closed,
{
}

/// A file is closed once: the first time asks the session, and no other does.
pub proof fn a_file_is_closed_once(f: &mut RemoteFile, first: bool)
    requires
        call_ensures(RemoteFile::close, (f,), first),
    ensures
        first <==> !old(f)@.closed,
        final(f)@.closed,
        final(f)@.id == old(f)@.id,
{
}

/// The bytes of a reply arrive at the front of the buffer, in order, and the rest
/// of the buffer stays as it was.
pub proof fn a_reply_arrives_in_order(data: Vec<u8>, buf: &mut [u8], n: usize)
    requires
        call_ensures(RemoteFile::deliver, (&data, buf), n),
    ensures
        n <= data@.len() && n <= old(buf)@.len(),
        n == data@.len() || n == old(buf)@.len(),
        final(buf)@.len() == old(buf)@.len(),
        forall|i: int| 0 <= i < n ==> #[trigger] final(buf)@[i] == data@[i],
        forall|i: int| n <= i < old(buf)@.len() ==> #[trigger] final(buf)@[i] == old(buf)@[i],
{
}

} // verus!
