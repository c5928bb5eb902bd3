use vstd::prelude::*;

use crate::error::{NativeExtensionsError, NativeExtensionsResult};

verus! {

/// Largest chunk read from a stream at once (1 MiB).
pub const READ_CHUNK: u64 = 1048576;

/// A reader that drained the whole stream when it was made and hands the
/// bytes out in one piece.
pub struct EagerStreamReader {
    size: Option<i64>,
    file_name: Option<String>,
    data: Vec<u8>,
}

impl EagerStreamReader {
    /// A reader over the bytes drained from a stream.
    pub fn new(data: Vec<u8>, file_name: String) -> (r: Self)
        ensures
            r.pending()@ == data@,
            r.spec_file_size() == Some(data@.len() as i64),
            r.spec_file_name() matches Some(n) && n@ == file_name@,
    {
        EagerStreamReader { size: Some(data.len() as i64), file_name: Some(file_name), data }
    }

    pub closed spec fn pending(&self) -> Vec<u8> {
        self.data
    }

    pub closed spec fn spec_file_size(&self) -> Option<i64> {
        self.size
    }

    pub closed spec fn spec_file_name(&self) -> Option<String> {
        self.file_name
    }

    /// The bytes not handed out yet; empty once they were.
    pub fn read_next(&mut self) -> (r: Vec<u8>)
        ensures
            r@ == old(self).pending()@,
            final(self).pending()@.len() == 0,
            final(self).spec_file_size() == old(self).spec_file_size(),
            final(self).spec_file_name() == old(self).spec_file_name(),
    {
        self.data.split_off(0)
    }

    pub fn file_size(&self) -> (r: Option<i64>)
        ensures
            r == self.spec_file_size(),
    {
        self.size
    }

    pub fn file_name(&self) -> (r: Option<String>)
        ensures
            match r {
                Some(n) => self.spec_file_name() matches Some(m) && n@ == m@,
                None => self.spec_file_name() is None,
            },
    {
        match &self.file_name {
            Some(n) => Some(String::from_str(n.as_str())),
            None => None,
        }
    }

    pub fn close(&self) -> (r: NativeExtensionsResult<()>)
        ensures
            r is Ok,
    {
        Ok(())
    }
}

/// Position of a chunked read of a stream of known length.
pub struct ReadCursor {
    length: u64,
    num_read: u64,
    started: bool,
}

impl ReadCursor {
    pub closed spec fn spec_length(&self) -> u64 {
        self.length
    }

    pub closed spec fn spec_num_read(&self) -> u64 {
        self.num_read
    }

    pub closed spec fn spec_started(&self) -> bool {
        self.started
    }

    pub open spec fn wf(&self) -> bool {
        self.spec_num_read() <= self.spec_length()
    }

    /// Size of the next chunk: what is left, but at most one chunk.
    pub open spec fn chunk_spec(&self) -> u64 {
        if self.spec_length() - self.spec_num_read() < READ_CHUNK {
            (self.spec_length() - self.spec_num_read()) as u64
        } else {
            READ_CHUNK
        }
    }

    pub fn new(length: u64) -> (r: Self)
        ensures
            r.wf(),
            r.spec_length() == length,
            r.spec_num_read() == 0,
            !r.spec_started(),
    {
        ReadCursor { length, num_read: 0, started: false }
    }

    /// Marks the first read; true when the stream must first be moved to its start.
    pub fn begin(&mut self) -> (r: bool)
        ensures
            r == !old(self).spec_started(),
            final(self).spec_started(),
            final(self).spec_length() == old(self).spec_length(),
            final(self).spec_num_read() == old(self).spec_num_read(),
    {
        let first = !self.started;
        self.started = true;
        first
    }

    /// Number of bytes to ask for next; 0 at the end of the stream, where a
    /// read gives no bytes rather than an error.
    pub fn next_chunk(&self) -> (r: u32)
        requires
            self.wf(),
        ensures
            r == self.chunk_spec(),
    {
        let left = self.length - self.num_read;
        if left < READ_CHUNK {
            left as u32
        } else {
            READ_CHUNK as u32
        }
    }

    /// Records that a read gave `did_read` bytes.
    pub fn advance(&mut self, did_read: u32)
        requires
            old(self).wf(),
            did_read <= old(self).chunk_spec(),
        ensures
            final(self).wf(),
            final(self).spec_num_read() == old(self).spec_num_read() + did_read,
            final(self).spec_length() == old(self).spec_length(),
            final(self).spec_started() == old(self).spec_started(),
    {
        self.num_read = self.num_read + did_read as u64;
    }

    pub fn length(&self) -> (r: u64)
        ensures
            r == self.spec_length(),
    {
        self.length
    }

    pub fn num_read(&self) -> (r: u64)
        ensures
            r == self.spec_num_read(),
    {
        self.num_read
    }
}

/// What a stream copy does next.
pub enum CopyStep {
    /// The copy was cancelled: remove the partial file.
    Cancelled,
    /// Read this many bytes and write them out.
    Read(u32),
    /// Everything was copied.
    Done,
}

/// The next step of copying a stream, after a check of the cancellation flag.
pub fn copy_step(cursor: &ReadCursor, cancelled: bool) -> (r: CopyStep)
    requires
        cursor.wf(),
    ensures
        cancelled ==> r is Cancelled,
        !cancelled && cursor.chunk_spec() == 0 ==> r is Done,
        !cancelled && cursor.chunk_spec() > 0 ==> r == CopyStep::Read(cursor.chunk_spec() as u32),
{
    if cancelled {
        return CopyStep::Cancelled;
    }
    let n = cursor.next_chunk();
    if n == 0 {
        CopyStep::Done
    } else {
        CopyStep::Read(n)
    }
}

/// Records one read of a stream copy: a read that gives no bytes before the
/// end ends the copy with an error.
pub fn copy_advance(cursor: &mut ReadCursor, did_read: u32) -> (r: NativeExtensionsResult<()>)
    requires
        old(cursor).wf(),
        did_read <= old(cursor).chunk_spec(),
    ensures
        final(cursor).wf(),
        did_read == 0 ==> (r matches Err(NativeExtensionsError::VirtualFileReceiveError(m)) && m@
            == "stream ended prematurely"@ && *final(cursor) == *old(cursor)),
        did_read > 0 ==> r is Ok && final(cursor).spec_num_read() == old(cursor).spec_num_read()
            + did_read && final(cursor).spec_length() == old(cursor).spec_length(),
{
    if did_read == 0 {
        return Err(
            NativeExtensionsError::VirtualFileReceiveError(
                String::from_str("stream ended prematurely"),
            ),
        );
    }
    cursor.advance(did_read);
    Ok(())
}

/// The error of a cancelled copy.
pub fn cancelled_error() -> (r: NativeExtensionsError)
    ensures
        r matches NativeExtensionsError::VirtualFileReceiveError(m) && m@ == "cancelled"@,
{
    NativeExtensionsError::VirtualFileReceiveError(String::from_str("cancelled"))
}

} // verus!
