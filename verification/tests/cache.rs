use krystallos::backend::{exact_read_step, ExactRead, FileHandle};
use krystallos::cache::{Fill, ReadAhead, ReadAheadState, ReadPlan, Window, DEFAULT_WINDOW};
use krystallos::error::{Error, IoErrorKind, Result};
use std::cell::Cell;
use std::rc::Rc;

/// A handle that serves `data` and counts how many reads it was asked for.
struct CountingHandle {
    data: Vec<u8>,
    reads: usize,
    bytes_requested: usize,
    /// The most it hands over in one read.
    burst: usize,
}

impl CountingHandle {
    fn new(data: Vec<u8>) -> Self {
        CountingHandle { data, reads: 0, bytes_requested: 0, burst: usize::MAX }
    }

    fn with_burst(data: Vec<u8>, burst: usize) -> Self {
        CountingHandle { data, reads: 0, bytes_requested: 0, burst }
    }

    fn reads(&self) -> usize {
        self.reads
    }
}

impl FileHandle for CountingHandle {
    fn read_at(&mut self, offset: u64, buf: &mut [u8]) -> Result<usize> {
        self.reads += 1;
        self.bytes_requested += buf.len();

        let start = (offset as usize).min(self.data.len());
        let available = self.data.len() - start;
        let n = available.min(buf.len()).min(self.burst);
        buf[..n].copy_from_slice(&self.data[start..start + n]);
        Ok(n)
    }

    fn write_at(&mut self, _offset: u64, _buf: &[u8]) -> Result<usize> {
        Err(Error::backend("not writable"))
    }

    fn set_len(&mut self, _len: u64) -> Result<()> {
        Err(Error::backend("not writable"))
    }

    fn flush(&mut self) -> Result<()> {
        Ok(())
    }

    fn close(&mut self) -> Result<()> {
        Ok(())
    }

    fn len(&self) -> u64 {
        self.data.len() as u64
    }
}

/// A handle that claims to be empty while actually holding data.
struct LyingHandle(Vec<u8>);

impl FileHandle for LyingHandle {
    fn read_at(&mut self, offset: u64, buf: &mut [u8]) -> Result<usize> {
        let start = (offset as usize).min(self.0.len());
        let n = (self.0.len() - start).min(buf.len());
        buf[..n].copy_from_slice(&self.0[start..start + n]);
        Ok(n)
    }

    fn write_at(&mut self, _o: u64, _b: &[u8]) -> Result<usize> {
        Err(Error::backend("read-only"))
    }

    fn set_len(&mut self, _l: u64) -> Result<()> {
        Err(Error::backend("read-only"))
    }

    fn flush(&mut self) -> Result<()> {
        Ok(())
    }

    fn close(&mut self) -> Result<()> {
        Ok(())
    }

    fn len(&self) -> u64 {
        0
    }
}

/// A writable file in memory.
struct MemHandle(Vec<u8>);

impl FileHandle for MemHandle {
    fn read_at(&mut self, offset: u64, buf: &mut [u8]) -> Result<usize> {
        let start = (offset as usize).min(self.0.len());
        let n = (self.0.len() - start).min(buf.len());
        buf[..n].copy_from_slice(&self.0[start..start + n]);
        Ok(n)
    }

    fn write_at(&mut self, offset: u64, buf: &[u8]) -> Result<usize> {
        let end = offset as usize + buf.len();
        if self.0.len() < end {
            self.0.resize(end, 0);
        }
        self.0[offset as usize..end].copy_from_slice(buf);
        Ok(buf.len())
    }

    fn set_len(&mut self, len: u64) -> Result<()> {
        self.0.resize(len as usize, 0);
        Ok(())
    }

    fn flush(&mut self) -> Result<()> {
        Ok(())
    }

    fn close(&mut self) -> Result<()> {
        Ok(())
    }

    fn len(&self) -> u64 {
        self.0.len() as u64
    }
}

fn payload(n: usize) -> Vec<u8> {
    (0..n).map(|i| (i % 251) as u8).collect()
}

fn read_all<H: FileHandle>(handle: &mut H, chunk: usize) -> Vec<u8> {
    let mut out = Vec::new();
    let mut buf = vec![0u8; chunk];
    loop {
        let n = handle.read_at(out.len() as u64, &mut buf).unwrap();
        if n == 0 {
            break;
        }
        out.extend_from_slice(&buf[..n]);
    }
    out
}

#[test]
fn sequential_reads_cost_one_fetch_per_window() {
    let data = payload(4 * 1024 * 1024);
    let mut handle = ReadAhead::with_window(CountingHandle::new(data.clone()), 1024 * 1024);

    let out = read_all(&mut handle, 4096);

    assert_eq!(out, data, "read-ahead must not alter the bytes");
    let reads = handle.inner().reads();
    assert!(
        reads <= 5,
        "4 MiB read in 4 KiB steps should cost ~4 fetches, took {reads}"
    );
}

#[test]
fn without_read_ahead_the_same_loop_is_much_worse() {
    let data = payload(1024 * 1024);
    let mut handle = CountingHandle::new(data.clone());

    let out = read_all(&mut handle, 4096);

    assert_eq!(out, data);
    assert_eq!(
        handle.reads(),
        257,
        "one round-trip per 4 KiB read, plus the one that reports end-of-file"
    );
}

#[test]
fn a_read_larger_than_the_window_returns_everything() {
    let data = payload(64 * 1024);
    let mut handle = ReadAhead::with_window(CountingHandle::new(data.clone()), 4096);

    let mut buf = vec![0u8; 32 * 1024];
    let n = handle.read_at(0, &mut buf).unwrap();
    assert_eq!(n, buf.len(), "a short read here would lose data");
    assert_eq!(buf, data[..n]);
}

#[test]
fn reading_past_the_end_yields_zero_and_stops_fetching() {
    let data = payload(10_000);
    let mut handle = ReadAhead::with_window(CountingHandle::new(data.clone()), 4096);

    let mut all = vec![0u8; data.len()];
    handle.read_exact_at(0, &mut all).unwrap();
    assert_eq!(all, data);
    let before = handle.inner().reads();

    let mut buf = [0u8; 64];
    assert_eq!(handle.read_at(999_999, &mut buf).unwrap(), 0);
    assert_eq!(
        handle.inner().reads(),
        before + 1,
        "learning that the file ended should cost one probe"
    );

    for _ in 0..10 {
        assert_eq!(handle.read_at(999_999, &mut buf).unwrap(), 0);
    }
    assert_eq!(
        handle.inner().reads(),
        before + 1,
        "repeated reads past the end must not keep hitting the handle"
    );
}

#[test]
fn a_seek_backwards_is_served_from_the_window() {
    let data = payload(256 * 1024);
    let mut handle = ReadAhead::with_window(CountingHandle::new(data.clone()), 1024 * 1024);

    let mut buf = [0u8; 1024];
    handle.read_exact_at(100_000, &mut buf).unwrap();
    let after_first = handle.inner().reads();

    for offset in [0u64, 50_000, 100_000, 200_000, 0] {
        let mut b = [0u8; 512];
        handle.read_exact_at(offset, &mut b).unwrap();
        assert_eq!(
            b,
            data[offset as usize..offset as usize + 512],
            "wrong bytes at offset {offset}"
        );
    }
    assert_eq!(
        handle.inner().reads(),
        after_first,
        "backwards seeks inside the window must not refetch"
    );
}

#[test]
fn a_fetch_is_aligned_to_the_window_not_to_the_request() {
    let data = payload(4 * 1024 * 1024);
    let mut handle = ReadAhead::with_window(CountingHandle::new(data.clone()), 1024 * 1024);

    let mut buf = vec![0u8; 1024 * 1024];
    for i in 0..4u64 {
        let n = handle.read_at(i * 1024 * 1024, &mut buf).unwrap();
        assert_eq!(n, buf.len());
    }
    assert_eq!(
        handle.inner().reads(),
        4,
        "four aligned full-window reads should be four fetches"
    );
}

#[test]
fn a_zero_sized_window_disables_read_ahead() {
    let data = payload(64 * 1024);
    let mut handle = ReadAhead::with_window(CountingHandle::new(data.clone()), 0);

    let out = read_all(&mut handle, 4096);
    assert_eq!(out, data, "disabling read-ahead must not change the bytes");
    assert_eq!(
        handle.inner().reads(),
        17,
        "one read per request when disabled, plus the end-of-file probe"
    );
}

#[test]
fn the_window_never_asks_for_more_than_the_file_holds() {
    let data = payload(1000);
    let mut handle = ReadAhead::with_window(CountingHandle::new(data.clone()), 1024 * 1024);

    let mut buf = vec![0u8; 1000];
    handle.read_exact_at(0, &mut buf).unwrap();
    assert_eq!(buf, data);

    let requested = handle.inner().bytes_requested;
    assert!(
        requested <= 1000,
        "asked the handle for {requested} bytes of a 1000-byte file"
    );
}

#[test]
fn a_stale_length_does_not_truncate_a_read() {
    let data = payload(8192);
    let mut handle = ReadAhead::with_window(LyingHandle(data.clone()), 4096);

    let mut buf = vec![0u8; 8192];
    handle.read_exact_at(0, &mut buf).unwrap();
    assert_eq!(buf, data, "a stale length must not truncate the result");
}

#[test]
fn a_write_invalidates_the_window() {
    let mut handle = ReadAhead::with_window(MemHandle(payload(8192)), 4096);

    let mut buf = [0u8; 256];
    handle.read_exact_at(0, &mut buf).unwrap();
    let original = buf;

    handle.write_at(0, &[0xAA; 256]).unwrap();

    let mut after = [0u8; 256];
    handle.read_exact_at(0, &mut after).unwrap();
    assert_ne!(after, original, "the window served bytes that had changed");
    assert_eq!(after, [0xAA; 256]);
}

#[test]
fn resizing_invalidates_the_window_too() {
    let mut handle = ReadAhead::with_window(MemHandle(payload(8192)), 4096);
    let mut buf = [0u8; 16];
    handle.read_exact_at(0, &mut buf).unwrap();
    handle.set_len(4).unwrap();
    assert_eq!(handle.read_at(0, &mut buf).unwrap(), 4);
    assert_eq!(handle.read_at(4, &mut buf).unwrap(), 0);
    handle.flush().unwrap();
    handle.close().unwrap();
}

#[test]
fn an_empty_read_is_answered_without_touching_the_handle() {
    let mut handle = ReadAhead::new(CountingHandle::new(payload(1024)));
    let mut buf = [0u8; 0];
    assert_eq!(handle.read_at(0, &mut buf).unwrap(), 0);
    assert_eq!(handle.inner().reads(), 0);
}

#[test]
fn len_passes_through_to_the_handle() {
    let handle = ReadAhead::new(CountingHandle::new(payload(1234)));
    assert_eq!(handle.len(), 1234);
    assert!(!handle.is_empty());
}

#[test]
fn a_short_read_mid_file_is_not_mistaken_for_end_of_file() {
    let data = payload(100_000);
    let mut handle =
        ReadAhead::with_window(CountingHandle::with_burst(data.clone(), 1000), 16 * 1024);
    assert_eq!(read_all(&mut handle, 4096), data);
}

#[test]
fn read_ahead_preserves_bytes_from_unaligned_offsets() {
    let data = payload(1_100_000);
    let mut buffered = ReadAhead::with_window(CountingHandle::new(data.clone()), 128 * 1024);
    for offset in [0u64, 1, 65_535, 131_072, 131_073, 300_000, 1_000_001] {
        let mut buf = vec![0u8; 4096];
        buffered.read_exact_at(offset, &mut buf).unwrap();
        assert_eq!(
            buf,
            data[offset as usize..offset as usize + 4096],
            "read-ahead returned different bytes at offset {offset}"
        );
    }
}

#[test]
fn read_ahead_cuts_the_round_trips_a_sequential_read_costs() {
    const CHUNK: usize = 64 * 1024;
    let data = payload(8 * 1024 * 1024);
    let mut plain = CountingHandle::new(data.clone());
    let baseline = read_all(&mut plain, CHUNK);
    let mut buffered = ReadAhead::with_window(CountingHandle::new(data), 1024 * 1024);
    let through_cache = read_all(&mut buffered, CHUNK);
    assert_eq!(through_cache, baseline, "read-ahead must not change the bytes");

    let plain_reads = baseline.len() / CHUNK + 1;
    let cached_reads = buffered.inner_read_count() as usize;
    assert!(cached_reads * 4 < plain_reads);
    assert!(cached_reads <= baseline.len() / (1024 * 1024) + 2);
    assert_eq!(cached_reads, buffered.inner().reads());
    assert_eq!(buffered.inner_byte_count() as usize, buffered.inner().bytes_requested);
}

#[test]
fn the_window_arithmetic_is_exact() {
    assert_eq!(DEFAULT_WINDOW, 1024 * 1024);
    let fetch = |offset: u64, opened_len: u64| {
        match ReadAheadState::new(4096).plan(offset, 1, opened_len) {
            ReadPlan::Fetch { start, len } => (start, len),
            _ => panic!("expected a fetch"),
        }
    };
    assert_eq!(fetch(0, 10_000), (0, 4096));
    assert_eq!(fetch(4095, 10_000), (0, 4096));
    assert_eq!(fetch(4096, 10_000), (4096, 4096));
    assert_eq!(fetch(9000, 10_000), (8192, 1808));
    assert_eq!(fetch(20_000, 10_000), (16_384, 4096), "a stale length is not trusted");
}

#[test]
fn a_plan_says_where_the_bytes_come_from() {
    let mut state = ReadAheadState::new(100);
    assert!(matches!(state.plan(5, 0, 1000), ReadPlan::Nothing));
    assert!(matches!(state.plan(5, 101, 1000), ReadPlan::Through));
    assert!(matches!(state.plan(150, 10, 1000), ReadPlan::Fetch { start: 100, len: 100 }));

    let mut fill = Fill::new(100, 100);
    assert_eq!(fill.next(), Some((100, 100)));
    fill.absorb(payload(100), 40);
    assert_eq!(fill.next(), Some((140, 60)));
    fill.absorb(payload(60), 0);
    assert_eq!(fill.next(), None, "a read of nothing is the end of the file");
    state.count(100);
    state.publish(fill.into_window());

    assert!(matches!(state.plan(110, 10, 1000), ReadPlan::FromWindow));
    let mut buf = [0u8; 10];
    assert_eq!(state.serve(110, &mut buf), Some(10));
    assert_eq!(buf[..], payload(100)[10..20]);
    assert_eq!(state.serve(135, &mut buf), Some(5), "the file ends at 140");
    assert_eq!(state.serve(140, &mut buf), Some(0));
    assert_eq!(state.serve(99, &mut buf), None);
    assert_eq!((state.inner_reads(), state.inner_bytes()), (1, 100));

    state.invalidate();
    assert_eq!(state.serve(110, &mut buf), None);
    assert!(matches!(ReadAheadState::new(0).plan(0, 1, 9), ReadPlan::Through));
}

#[test]
fn an_empty_window_covers_nothing() {
    let w = Window::new();
    assert_eq!(w.end(), 0);
    assert!(!w.covers(0, 1));
}

#[test]
fn a_fetched_buffer_is_what_was_read() {
    let mut fill = Fill::new(7, 4);
    fill.absorb(vec![1, 2, 3, 4], 3);
    fill.absorb(vec![9], 1);
    assert_eq!(fill.next(), None);
    assert_eq!(fill.into_data(), [1, 2, 3, 9]);
}

#[test]
fn an_exact_read_goes_on_until_it_is_complete() {
    assert!(matches!(exact_read_step(100, 10, 0, Ok(4)), ExactRead::More(4)));
    assert!(matches!(exact_read_step(100, 10, 4, Ok(6)), ExactRead::Done));
    match exact_read_step(100, 10, 4, Ok(0)) {
        ExactRead::Failed(Error::Io(e)) => assert_eq!(e.kind(), IoErrorKind::UnexpectedEof),
        _ => panic!("an early end must be an error"),
    }
    assert!(matches!(
        exact_read_step(100, 10, 4, Err(Error::backend("x"))),
        ExactRead::Failed(Error::Backend { .. })
    ));
}

#[test]
fn read_exact_at_reports_eof_when_the_file_is_short() {
    let mut fh = MemHandle(b"abc".to_vec());
    let mut buf = [0u8; 8];
    let err = fh.read_exact_at(0, &mut buf).unwrap_err();
    match err {
        Error::Io(e) => assert_eq!(e.kind(), IoErrorKind::UnexpectedEof),
        other => panic!("expected UnexpectedEof, got {other:?}"),
    }
}

/// A handle that logs what it is asked for, and fails when told to.
struct LoggingHandle {
    data: Vec<u8>,
    log: Vec<&'static str>,
    failing: Rc<Cell<bool>>,
}

impl LoggingHandle {
    fn new(data: Vec<u8>) -> Self {
        LoggingHandle { data, log: Vec::new(), failing: Rc::new(Cell::new(false)) }
    }

    fn answer<T>(&mut self, what: &'static str, value: T) -> Result<T> {
        self.log.push(what);
        if self.failing.get() {
            Err(Error::backend(what))
        } else {
            Ok(value)
        }
    }
}

impl FileHandle for LoggingHandle {
    fn read_at(&mut self, offset: u64, buf: &mut [u8]) -> Result<usize> {
        let start = (offset as usize).min(self.data.len());
        let n = (self.data.len() - start).min(buf.len());
        buf[..n].copy_from_slice(&self.data[start..start + n]);
        self.answer("read", n)
    }

    fn write_at(&mut self, offset: u64, buf: &[u8]) -> Result<usize> {
        // A write that fails has written all the same.
        self.data[offset as usize..offset as usize + buf.len()].copy_from_slice(buf);
        self.answer("write", buf.len())
    }

    fn set_len(&mut self, len: u64) -> Result<()> {
        self.data.resize(len as usize, 0);
        self.answer("resize", ())
    }

    fn flush(&mut self) -> Result<()> {
        self.answer("flush", ())
    }

    fn close(&mut self) -> Result<()> {
        self.answer("close", ())
    }

    fn len(&self) -> u64 {
        self.data.len() as u64
    }
}

#[test]
fn every_operation_reaches_the_handle_and_its_answer_comes_back() {
    for failing in [false, true] {
        let inner = LoggingHandle::new(payload(100));
        inner.failing.set(failing);
        let mut handle = ReadAhead::with_window(inner, 64);
        let mut buf = [0u8; 8];
        assert_eq!(handle.read_at(0, &mut buf).is_err(), failing);
        assert_eq!(handle.write_at(0, &[1]).is_err(), failing);
        assert_eq!(handle.set_len(50).is_err(), failing);
        assert_eq!(handle.flush().is_err(), failing);
        assert_eq!(handle.close().is_err(), failing);
        assert_eq!(handle.inner().log, ["read", "write", "resize", "flush", "close"]);
    }
}

#[test]
fn what_failed_to_change_the_file_drops_the_window_too() {
    let inner = LoggingHandle::new(payload(100));
    let failing = inner.failing.clone();
    let mut handle = ReadAhead::with_window(inner, 64);
    let mut buf = [0u8; 8];
    handle.read_exact_at(0, &mut buf).unwrap();

    failing.set(true);
    assert!(handle.write_at(0, &[0xAA; 8]).is_err());
    failing.set(false);
    handle.read_exact_at(0, &mut buf).unwrap();
    assert_eq!(buf, [0xAA; 8], "the window served bytes that may have changed");

    failing.set(true);
    assert!(handle.set_len(4).is_err());
    failing.set(false);
    assert_eq!(handle.read_at(0, &mut buf).unwrap(), 4);
}

#[test]
fn a_write_is_acknowledged_as_it_was_and_read_back() {
    let mut handle = ReadAhead::with_window(MemHandle(payload(8192)), 4096);
    assert_eq!(handle.write_at(10, &[1, 2, 3]).unwrap(), 3);
    let mut buf = [0u8; 3];
    assert_eq!(handle.read_at(10, &mut buf).unwrap(), 3);
    assert_eq!(buf, [1, 2, 3]);
}

#[test]
fn an_exact_read_within_a_window_costs_one_fetch_and_then_nothing() {
    let data = payload(1000);
    let mut handle = ReadAhead::with_window(CountingHandle::new(data.clone()), 1024 * 1024);
    let mut buf = vec![0u8; 1000];
    handle.read_exact_at(0, &mut buf).unwrap();
    assert_eq!(buf, data);
    assert_eq!((handle.inner_read_count(), handle.inner_byte_count()), (1, 1000));
    assert_eq!((handle.inner().reads(), handle.inner().bytes_requested), (1, 1000));

    let mut buf = vec![0u8; 300];
    handle.read_exact_at(700, &mut buf).unwrap();
    assert_eq!(buf, data[700..]);
    assert_eq!(handle.inner().reads(), 1);
}

#[test]
fn an_exact_read_stops_at_the_first_failure() {
    let mut inner = LoggingHandle::new(payload(100));
    inner.failing.set(true);
    let mut buf = [0u8; 8];
    match inner.read_exact_at(0, &mut buf) {
        Err(Error::Backend { message }) => assert_eq!(message, "read"),
        other => panic!("got {other:?}"),
    }
    assert_eq!(inner.log, ["read"]);
    inner.read_exact_at(0, &mut []).unwrap();
    assert_eq!(inner.log, ["read"], "nothing is asked for an empty buffer");
}
