use vstd::prelude::*;
use std::sync::atomic::AtomicBool;
use crate::update::failure::UpdateFailure;
use crate::update::manifest::rejects_with;
use crate::update::transport::{cancellation_outcome, is_cancelled};

verus! {

/// Largest update metadata document accepted (64 KiB).
pub const MAX_METADATA_BYTES: u64 = 65536;

/// Bytes of metadata read: one more than allowed, so that an oversized body shows.
pub const METADATA_READ_LIMIT: u64 = 65537;

/// Largest detached signature accepted.
pub const MAX_SIGNATURE_BYTES: u64 = 64;

/// Bytes of signature read.
pub const SIGNATURE_READ_LIMIT: u64 = 65;

/// Size of one read from a response body.
pub const BODY_READ_CHUNK_BYTES: usize = 8192;

/// A stream of response-body bytes read in chunks.
///
/// `pending` is what the stream will still yield. A read yields a prefix of it of at most
/// the requested length, and yields nothing only at the end of the stream.
pub trait BodySource {
    spec fn pending(&self) -> Seq<u8>;

    fn read_chunk(&mut self, max: usize) -> (r: Result<Vec<u8>, std::io::Error>)
        requires
            max > 0,
        ensures
            r matches Ok(chunk) ==> {
                &&& chunk@.len() <= max
                &&& chunk@.len() <= old(self).pending().len()
                &&& chunk@ == old(self).pending().take(chunk@.len() as int)
                &&& final(self).pending() == old(self).pending().skip(chunk@.len() as int)
                &&& chunk@.len() == 0 ==> old(self).pending().len() == 0
            },
    ;
}

/// A body already held in memory.
pub struct MemoryBody {
    data: Vec<u8>,
    position: usize,
}

impl MemoryBody {
    pub fn new(data: Vec<u8>) -> (r: Self)
        ensures
            r.pending() == data@,
    {
        let r = MemoryBody { data, position: 0 };
        assert(r.data@.skip(0) =~= r.data@);
        r
    }

    /// How many bytes are still to be read.
    pub fn remaining(&self) -> (r: usize)
        ensures
            r == self.pending().len(),
    {
        if self.position <= self.data.len() {
            self.data.len() - self.position
        } else {
            0
        }
    }
}

impl BodySource for MemoryBody {
    closed spec fn pending(&self) -> Seq<u8> {
        if self.position <= self.data@.len() {
            self.data@.skip(self.position as int)
        } else {
            Seq::empty()
        }
    }

    /// A body in memory never fails: a read yields as much of what is left as was asked
    /// for.
    fn read_chunk(&mut self, max: usize) -> (r: Result<Vec<u8>, std::io::Error>)
        ensures
            r matches Ok(chunk) && chunk@.len() == min_u64(
                max as int,
                old(self).pending().len() as int,
            ),
    {
        if self.position > self.data.len() {
            self.position = self.data.len();
        }
        let available = self.data.len() - self.position;
        let n = if available < max {
            available
        } else {
            max
        };
        let mut chunk: Vec<u8> = Vec::new();
        let start = self.position;
        let mut k: usize = 0;
        while k < n
            invariant
                k <= n,
                start + n <= self.data@.len(),
                self.data@.len() == self.data.len(),
                self.position == start,
                chunk@ == self.data@.subrange(start as int, start + k),
            decreases n - k,
        {
            chunk.push(self.data[start + k]);
            assert(chunk@ =~= self.data@.subrange(start as int, start + k + 1));
            k += 1;
        }
        self.position = start + n;
        assert(chunk@ =~= old(self).pending().take(n as int));
        assert(self.pending() =~= old(self).pending().skip(n as int));
        Ok(chunk)
    }
}

/// A body whose stream breaks once its bytes are read, as a dropped connection does: the
/// read after the last byte fails with `error`.
pub struct BrokenBody {
    body: MemoryBody,
    error: Option<std::io::Error>,
}

impl BrokenBody {
    /// The failure is still to come.
    pub closed spec fn will_fail(&self) -> bool {
        self.error is Some
    }

    pub fn new(data: Vec<u8>, error: std::io::Error) -> (r: Self)
        ensures
            r.pending() == data@,
            r.will_fail(),
    {
        BrokenBody { body: MemoryBody::new(data), error: Some(error) }
    }
}

impl BodySource for BrokenBody {
    closed spec fn pending(&self) -> Seq<u8> {
        self.body.pending()
    }

    /// Reads like a body in memory until its bytes are gone; then fails once.
    fn read_chunk(&mut self, max: usize) -> (r: Result<Vec<u8>, std::io::Error>)
        ensures
            old(self).pending().len() > 0 ==> (r matches Ok(chunk) && chunk@.len() == min_u64(
                max as int,
                old(self).pending().len() as int,
            )),
            old(self).pending().len() == 0 && old(self).will_fail() ==> r is Err,
    {
        if self.body.remaining() == 0 {
            match self.error.take() {
                Some(error) => return Err(error),
                None => {},
            }
        }
        self.body.read_chunk(max)
    }
}

/// A body in memory that raises `cancel` with every read it answers, as a user who cancels
/// while the data arrives.
pub struct CancelOnReadBody<'a> {
    body: MemoryBody,
    cancel: &'a AtomicBool,
}

impl<'a> CancelOnReadBody<'a> {
    pub fn new(data: Vec<u8>, cancel: &'a AtomicBool) -> (r: Self)
        ensures
            r.pending() == data@,
    {
        CancelOnReadBody { body: MemoryBody::new(data), cancel }
    }
}

impl<'a> BodySource for CancelOnReadBody<'a> {
    closed spec fn pending(&self) -> Seq<u8> {
        self.body.pending()
    }

    /// Reads like a body in memory, then raises the cancellation flag.
    fn read_chunk(&mut self, max: usize) -> (r: Result<Vec<u8>, std::io::Error>)
        ensures
            r matches Ok(chunk) && chunk@.len() == min_u64(max as int, old(self).pending().len() as int),
    {
        let chunk = self.body.read_chunk(max);
        raise_flag(self.cancel);
        chunk
    }
}

/// Sets a flag that another thread reads.
fn raise_flag(flag: &AtomicBool) {
    flag.store(true, std::sync::atomic::Ordering::Release);
}

pub open spec fn min_u64(a: int, b: int) -> int {
    if a < b {
        a
    } else {
        b
    }
}

/// A response body gathered up to a limit, one read at a time. The reads themselves are
/// made by the caller; this says how much the next read may ask for and keeps what came.
pub struct CappedBody {
    bytes: Vec<u8>,
    limit: u64,
}

pub ghost struct CappedBodyView {
    pub bytes: Seq<u8>,
    pub limit: u64,
}

impl View for CappedBody {
    type V = CappedBodyView;

    closed spec fn view(&self) -> CappedBodyView {
        CappedBodyView { bytes: self.bytes@, limit: self.limit }
    }
}

/// The length of the next read of a body that holds `held` of at most `limit` bytes: what
/// is left below the limit, at most one chunk.
pub open spec fn next_read(held: int, limit: int) -> Option<int> {
    if held >= limit {
        None
    } else {
        Some(min_u64(limit - held, BODY_READ_CHUNK_BYTES as int))
    }
}

impl CappedBody {
    /// Never more than the limit is held.
    pub closed spec fn wf(&self) -> bool {
        self.bytes@.len() <= self.limit
    }

    pub fn new(limit: u64) -> (r: Self)
        ensures
            r.wf(),
            r@.bytes == Seq::<u8>::empty(),
            r@.limit == limit,
    {
        CappedBody { bytes: Vec::new(), limit }
    }

    /// How many bytes the next read may ask for; `None` once the limit is reached.
    pub fn next_read_len(&self) -> (r: Option<usize>)
        requires
            self.wf(),
        ensures
            match next_read(self@.bytes.len() as int, self@.limit as int) {
                None => r is None,
                Some(n) => r matches Some(m) && m == n && m > 0,
            },
    {
        let held = self.bytes.len() as u64;
        if held >= self.limit {
            return None;
        }
        let remaining = self.limit - held;
        if remaining < BODY_READ_CHUNK_BYTES as u64 {
            Some(remaining as usize)
        } else {
            Some(BODY_READ_CHUNK_BYTES)
        }
    }

    /// Keeps the bytes of one read, which asked for at most what `next_read_len` allowed.
    pub fn append(&mut self, chunk: &[u8])
        requires
            old(self).wf(),
            old(self)@.bytes.len() + chunk@.len() <= old(self)@.limit,
        ensures
            final(self).wf(),
            final(self)@.bytes == old(self)@.bytes + chunk@,
            final(self)@.limit == old(self)@.limit,
    {
        let ghost before = self.bytes@;
        let mut k: usize = 0;
        while k < chunk.len()
            invariant
                k <= chunk@.len(),
                self.bytes@ == before + chunk@.take(k as int),
                self.limit == old(self).limit,
            decreases chunk.len() - k,
        {
            self.bytes.push(chunk[k]);
            assert(self.bytes@ =~= before + chunk@.take(k + 1));
            k += 1;
        }
        assert(chunk@.take(chunk@.len() as int) =~= chunk@);
    }

    pub fn into_bytes(self) -> (r: Vec<u8>)
        ensures
            r@ == self@.bytes,
    {
        self.bytes
    }
}

/// Reads at most `limit` bytes of `reader`, stopping at the end of the stream, checking the
/// cancellation flag before every read.
pub fn read_capped_body<R: BodySource>(
    reader: &mut R,
    limit: u64,
    cancelled: &AtomicBool,
    operation: &'static str,
) -> (r: Result<Vec<u8>, UpdateFailure>)
    ensures
        r matches Ok(body) ==> {
            let n = min_u64(limit as int, old(reader).pending().len() as int);
            &&& body@ == old(reader).pending().take(n)
            &&& final(reader).pending() == old(reader).pending().skip(n)
        },
        r matches Err(e) ==> e is Cancelled || (e matches UpdateFailure::Io { operation: op, .. }
            && op == operation),
{
    let ghost start = reader.pending();
    let mut body = CappedBody::new(limit);
    assert(start.skip(0) =~= start);
    assert(start.take(0) =~= Seq::<u8>::empty());
    loop
        invariant
            body.wf(),
            body@.limit == limit,
            body@.bytes.len() <= start.len(),
            start == old(reader).pending(),
            body@.bytes == start.take(body@.bytes.len() as int),
            reader.pending() == start.skip(body@.bytes.len() as int),
        decreases reader.pending().len(),
    {
        match cancellation_outcome(is_cancelled(cancelled)) {
            Ok(()) => {},
            Err(e) => return Err(e),
        }
        let chunk_len = match body.next_read_len() {
            Some(n) => n,
            None => return Ok(body.into_bytes()),
        };
        let chunk = match reader.read_chunk(chunk_len) {
            Ok(c) => c,
            Err(source) => return Err(UpdateFailure::Io { operation, source }),
        };
        if chunk.len() == 0 {
            assert(start.take(body@.bytes.len() as int) =~= start);
            return Ok(body.into_bytes());
        }
        let ghost before = body@.bytes;
        body.append(chunk.as_slice());
        assert(body@.bytes =~= start.take(body@.bytes.len() as int));
        assert(reader.pending() =~= start.skip(body@.bytes.len() as int));
    }
}

/// Refuses metadata longer than 64 KiB.
pub fn validate_metadata_size(manifest: &[u8]) -> (r: Result<(), UpdateFailure>)
    ensures
        manifest@.len() <= MAX_METADATA_BYTES ==> r is Ok,
        manifest@.len() > MAX_METADATA_BYTES ==> rejects_with(
            r,
            "Update metadata exceeds the allowed size"@,
        ),
{
    if manifest.len() as u64 > MAX_METADATA_BYTES {
        return Err(UpdateFailure::Rejected("Update metadata exceeds the allowed size"));
    }
    Ok(())
}

/// Checks the size of a downloaded installer against the size its metadata declares.
pub fn validate_download_size(actual: u64, expected: u64) -> (r: Result<(), UpdateFailure>)
    ensures
        actual == expected ==> r is Ok,
        actual < expected ==> rejects_with(r, "Downloaded installer size does not match metadata"@),
        actual > expected ==> rejects_with(r, "Downloaded installer exceeds the declared size"@),
{
    if actual < expected {
        return Err(UpdateFailure::Rejected("Downloaded installer size does not match metadata"));
    }
    if actual > expected {
        return Err(UpdateFailure::Rejected("Downloaded installer exceeds the declared size"));
    }
    Ok(())
}

/// Stops a download as soon as it holds more than the declared size.
pub fn reject_oversized_download(actual: u64, expected: u64) -> (r: Result<(), UpdateFailure>)
    ensures
        actual <= expected ==> r is Ok,
        actual > expected ==> rejects_with(r, "Downloaded installer exceeds the declared size"@),
{
    if actual > expected {
        return Err(UpdateFailure::Rejected("Downloaded installer exceeds the declared size"));
    }
    Ok(())
}

} // verus!
