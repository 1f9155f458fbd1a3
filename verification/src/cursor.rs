//! A position-tracking cursor over an owned run of bytes.
//!
//! The cursor separates the bytes a consumer has already taken from those that
//! are buffered but not yet consumed. Its position never runs past the end of
//! the bytes: a request that would move it there is refused with
//! [`InsufficientData`] and changes nothing.

use vstd::prelude::*;

verus! {

/// The mathematical model of a [`Cursor`]: the bytes it ranges over, in order,
/// and the number of them, counted from the front, that have been consumed.
#[verifier::ext_equal]
pub struct CursorView {
    pub bytes: Seq<u8>,
    pub position: nat,
}

impl CursorView {
    /// A cursor over no bytes.
    pub open spec fn empty() -> CursorView {
        CursorView { bytes: Seq::empty(), position: 0 }
    }

    /// A cursor placed in front of `bytes`.
    pub open spec fn at_start(bytes: Seq<u8>) -> CursorView {
        CursorView { bytes, position: 0 }
    }

    /// The position lies within the bytes, or directly behind the last one.
    pub open spec fn wf(self) -> bool {
        self.position <= self.bytes.len()
    }

    /// The number of bytes that have not been consumed yet.
    pub open spec fn remaining(self) -> nat {
        (self.bytes.len() - self.position) as nat
    }

    /// The bytes that have not been consumed yet.
    pub open spec fn unread(self) -> Seq<u8> {
        self.bytes.skip(self.position as int)
    }

    /// The same cursor with `more` appended behind its bytes.
    pub open spec fn extended(self, more: Seq<u8>) -> CursorView {
        CursorView { bytes: self.bytes + more, position: self.position }
    }

    /// The same bytes with the cursor placed at `position`.
    pub open spec fn moved_to(self, position: nat) -> CursorView {
        CursorView { bytes: self.bytes, position }
    }

    /// The same bytes with `k` more of them consumed.
    pub open spec fn advanced(self, k: nat) -> CursorView {
        self.moved_to(self.position + k)
    }
}

/// A request reached past the end of the buffered bytes. Nothing was consumed;
/// once `missing` more bytes have been buffered the same request succeeds.
#[derive(Debug, Clone, Copy, PartialEq, Eq, Structural)]
pub struct InsufficientData {
    /// How many bytes the request reached past the end.
    pub missing: usize,
}

/// An owned run of bytes together with a read position.
#[derive(Debug)]
pub struct Cursor {
    data: Vec<u8>,
    pos: usize,
}

impl View for Cursor {
    type V = CursorView;

    closed spec fn view(&self) -> CursorView {
        CursorView { bytes: self.data@, position: self.pos as nat }
    }
}

impl Cursor {
    #[verifier::type_invariant]
    spec fn inv(&self) -> bool {
        self.pos <= self.data@.len()
    }

    /// Wraps `data`, with nothing consumed yet.
    pub fn new(data: Vec<u8>) -> (cursor: Cursor)
        ensures
            cursor@ == CursorView::at_start(data@),
    {
        Cursor { data, pos: 0 }
    }

    /// Gives the bytes back, consumed or not.
    pub fn into_inner(self) -> (data: Vec<u8>)
        ensures
            data@ == self@.bytes,
    {
        self.data
    }

    /// All the bytes, consumed or not.
    pub fn get_ref(&self) -> (data: &Vec<u8>)
        ensures
            data@ == self@.bytes,
    {
        &self.data
    }

    /// The number of bytes consumed so far. It never exceeds the number of
    /// bytes held.
    pub fn position(&self) -> (position: usize)
        ensures
            position == self@.position,
            self@.wf(),
    {
        proof {
            use_type_invariant(self);
        }
        self.pos
    }

    /// The number of bytes that are buffered and not consumed yet.
    pub fn remaining(&self) -> (remaining: usize)
        ensures
            remaining == self@.remaining(),
            self@.wf(),
    {
        proof {
            use_type_invariant(self);
        }
        self.data.len() - self.pos
    }

    /// The bytes that are buffered and not consumed yet, without copying them.
    pub fn remaining_slice(&self) -> (unread: &[u8])
        ensures
            unread@ == self@.unread(),
            self@.wf(),
    {
        proof {
            use_type_invariant(self);
        }
        vstd::slice::slice_subrange(self.data.as_slice(), self.pos, self.data.len())
    }

    /// Places the cursor at `position`, forwards or backwards.
    ///
    /// A position behind the end of the bytes is refused and the cursor stays
    /// where it was.
    pub fn set_position(&mut self, position: usize) -> (outcome: Result<(), InsufficientData>)
        ensures
            old(self)@.wf(),
            match outcome {
                Ok(_) => {
                    &&& position <= old(self)@.bytes.len()
                    &&& final(self)@ == old(self)@.moved_to(position as nat)
                },
                Err(e) => {
                    &&& position > old(self)@.bytes.len()
                    &&& e.missing == position - old(self)@.bytes.len()
                    &&& final(self)@ == old(self)@
                },
            },
    {
        proof {
            use_type_invariant(&*self);
        }
        let len: usize = self.data.len();
        if position <= len {
            self.pos = position;
            Ok(())
        } else {
            Err(InsufficientData { missing: position - len })
        }
    }

    /// Consumes the next `k` bytes without looking at them.
    ///
    /// If fewer than `k` bytes remain, none is consumed.
    pub fn advance(&mut self, k: usize) -> (outcome: Result<(), InsufficientData>)
        ensures
            old(self)@.wf(),
            match outcome {
                Ok(_) => {
                    &&& k <= old(self)@.remaining()
                    &&& final(self)@ == old(self)@.advanced(k as nat)
                },
                Err(e) => {
                    &&& k > old(self)@.remaining()
                    &&& e.missing == k - old(self)@.remaining()
                    &&& final(self)@ == old(self)@
                },
            },
    {
        proof {
            use_type_invariant(&*self);
        }
        let available: usize = self.data.len() - self.pos;
        if k <= available {
            self.pos = self.pos + k;
            Ok(())
        } else {
            Err(InsufficientData { missing: k - available })
        }
    }

    /// Consumes the next `k` bytes and hands them out, without copying them.
    ///
    /// If fewer than `k` bytes remain, none is consumed.
    pub fn read_exact(&mut self, k: usize) -> (outcome: Result<&[u8], InsufficientData>)
        ensures
            old(self)@.wf(),
            match outcome {
                Ok(bytes) => {
                    &&& k <= old(self)@.remaining()
                    &&& bytes@ == old(self)@.unread().take(k as int)
                    &&& final(self)@ == old(self)@.advanced(k as nat)
                },
                Err(e) => {
                    &&& k > old(self)@.remaining()
                    &&& e.missing == k - old(self)@.remaining()
                    &&& final(self)@ == old(self)@
                },
            },
    {
        proof {
            use_type_invariant(&*self);
        }
        let start: usize = self.pos;
        let available: usize = self.data.len() - start;
        if k <= available {
            self.pos = start + k;
            Ok(vstd::slice::slice_subrange(self.data.as_slice(), start, start + k))
        } else {
            Err(InsufficientData { missing: k - available })
        }
    }

    /// Appends `more` behind the bytes held. The position stays.
    pub(crate) fn extend_from_slice(&mut self, more: &[u8])
        ensures
            final(self)@ == old(self)@.extended(more@),
    {
        let mut taken = Cursor { data: Vec::new(), pos: 0 };
        std::mem::swap(self, &mut taken);
        proof {
            use_type_invariant(&taken);
        }
        let Cursor { mut data, pos } = taken;
        data.extend_from_slice(more);
        *self = Cursor { data, pos };
    }
}

} // verus!
