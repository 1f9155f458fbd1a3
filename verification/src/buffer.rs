//! The read buffer: a staging chunk for one read attempt at a time, and the
//! growing store of everything obtained so far.
//!
//! The buffer itself performs no input. A pull has two halves: the caller lets
//! its source fill the staging chunk ([`ReadBuffer::chunk_mut`]), then hands the
//! outcome of that one attempt to [`ReadBuffer::read_from`], which appends the
//! bytes the attempt obtained and nothing else.

use crate::cursor::{Cursor, CursorView};
use vstd::prelude::*;

verus! {

/// The view after a pull whose read attempt obtained `count` bytes, where
/// `staged` is what the staging chunk held when the attempt returned: the first
/// `count` staged bytes are appended, the rest of the chunk is stale and left
/// out.
pub open spec fn after_pull(before: CursorView, staged: Seq<u8>, count: nat) -> CursorView {
    before.extended(staged.take(count as int))
}

/// A FIFO buffer for reading a byte stream in chunks of at most `CHUNK_SIZE`
/// bytes.
///
/// Its view is that of the cursor over its store: every byte pulled so far, in
/// arrival order, and the number of them that the consumer has taken.
#[derive(Debug)]
pub struct ReadBuffer<const CHUNK_SIZE: usize> {
    storage: Cursor,
    chunk: [u8; CHUNK_SIZE],
}

impl<const CHUNK_SIZE: usize> View for ReadBuffer<CHUNK_SIZE> {
    type V = CursorView;

    closed spec fn view(&self) -> CursorView {
        self.storage@
    }
}

impl<const CHUNK_SIZE: usize> ReadBuffer<CHUNK_SIZE> {
    /// What the staging chunk holds: always `CHUNK_SIZE` bytes, meaningful only
    /// between a read attempt and the pull that consumes its outcome.
    pub closed spec fn staged(&self) -> Seq<u8> {
        self.chunk@
    }

    /// The staging chunk is exactly `CHUNK_SIZE` bytes long.
    pub proof fn lemma_staged_len(&self)
        ensures
            self.staged().len() == CHUNK_SIZE,
    {
    }

    /// Create a new empty input buffer.
    pub fn new() -> (buffer: Self)
        ensures
            buffer@ == CursorView::empty(),
            buffer.staged() == Seq::new(CHUNK_SIZE as nat, |i: int| 0u8),
    {
        Self::with_capacity(CHUNK_SIZE)
    }

    /// Create a new empty input buffer with room reserved for `capacity`
    /// bytes. The reservation is a hint: the store grows past it when needed.
    pub fn with_capacity(capacity: usize) -> (buffer: Self)
        ensures
            buffer@ == CursorView::empty(),
            buffer.staged() == Seq::new(CHUNK_SIZE as nat, |i: int| 0u8),
    {
        Self::from_partially_read(Vec::with_capacity(capacity))
    }

    /// Create an input buffer filled with previously read data, none of it
    /// consumed yet.
    pub fn from_partially_read(part: Vec<u8>) -> (buffer: Self)
        ensures
            buffer@ == CursorView::at_start(part@),
            buffer.staged() == Seq::new(CHUNK_SIZE as nat, |i: int| 0u8),
    {
        ReadBuffer { storage: Cursor::new(part), chunk: [0u8; CHUNK_SIZE] }
    }

    /// Get a cursor to the data storage.
    pub fn as_cursor(&self) -> (cursor: &Cursor)
        ensures
            cursor@ == self@,
    {
        &self.storage
    }

    /// Get a cursor to the data storage through which the position can be
    /// moved. Whatever the caller does to the cursor is what becomes of the
    /// buffer; the staging chunk is not touched.
    pub fn as_cursor_mut(&mut self) -> (cursor: &mut Cursor)
        ensures
            cursor@ == old(self)@,
            final(self)@ == final(cursor)@,
            final(self).staged() == old(self).staged(),
    {
        &mut self.storage
    }

    /// Consume the `ReadBuffer` and get the internal storage.
    pub fn into_vec(self) -> (store: Vec<u8>)
        ensures
            store@ == self@.bytes,
    {
        self.storage.into_inner()
    }

    /// The staging chunk, for the source to fill in one read attempt. Whatever
    /// the caller leaves in it is what is staged; the store and the position
    /// are not touched.
    pub fn chunk_mut(&mut self) -> (chunk: &mut [u8; CHUNK_SIZE])
        ensures
            chunk@ == old(self).staged(),
            final(self).staged() == final(chunk)@,
            final(self)@ == old(self)@,
    {
        &mut self.chunk
    }

    /// Read next portion of data from the outcome of one read attempt into the
    /// staging chunk.
    ///
    /// On `Ok(count)` the first `count` staged bytes are appended to the store
    /// and `count` is returned; a count of zero, the end of the stream, appends
    /// nothing. On `Err` the error is handed back as it came and the store is
    /// left as it was. The position is never moved.
    pub fn read_from<E>(&mut self, outcome: Result<usize, E>) -> (pulled: Result<usize, E>)
        requires
            outcome matches Ok(count) ==> count <= CHUNK_SIZE,
        ensures
            pulled == outcome,
            final(self).staged() == old(self).staged(),
            final(self)@ == match outcome {
                Ok(count) => after_pull(old(self)@, old(self).staged(), count as nat),
                Err(_) => old(self)@,
            },
            outcome == Ok::<usize, E>(0) ==> final(self)@ == old(self)@,
    {
        match outcome {
            Ok(size) => {
                let obtained = vstd::slice::slice_subrange(self.chunk.as_slice(), 0, size);
                self.storage.extend_from_slice(obtained);
                proof {
                    assert(self.chunk@.subrange(0, size as int) == self.chunk@.take(size as int));
                    if size == 0 {
                        assert(self.storage@.bytes =~= old(self).storage@.bytes);
                    }
                }
                Ok(size)
            },
            Err(e) => Err(e),
        }
    }
}

} // verus!
