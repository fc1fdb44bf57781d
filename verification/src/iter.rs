//! The iteration layer: borrowing, mutably-borrowing, and consuming
//! traversal of the valid window.
//!
//! Each traversal walks the window that existed when it was created, in
//! logical order. The borrowing and consuming forms yield the bytes; the
//! mutable form is a cursor that yields window positions, which the caller
//! reads and rewrites through `get` and `set`.

use crate::buffer::WaterBuffer;
use vstd::prelude::*;

verus! {

/// Borrowing traversal: reads the buffer's window front to back.
pub struct WaterBufferIter<'a> {
    buffer: &'a WaterBuffer,
    pos: usize,
}

/// Consuming traversal: owns the buffer and yields its window front to
/// back; the storage is released when the iterator is dropped.
pub struct WaterBufferOwnedIter {
    buffer: WaterBuffer,
    pos: usize,
}

/// Mutably-borrowing traversal: a cursor over window positions. While it
/// is live the buffer is mutably borrowed by the caller, who resolves each
/// yielded position through `get` and `set`.
pub struct WaterBufferIterMut {
    pos: usize,
}

impl<'a> WaterBufferIter<'a> {
    /// The traversal is over a well-formed buffer and has not run past its
    /// window.
    pub closed spec fn wf(&self) -> bool {
        &&& self.buffer.wf()
        &&& self.pos <= self.buffer@.len()
    }

    /// The bytes not yet yielded.
    pub closed spec fn remaining_spec(&self) -> Seq<u8> {
        self.buffer@.skip(self.pos as int)
    }

    /// Yields the next byte of the window, or nothing once exhausted; the
    /// traversal is not restartable.
    pub fn next(&mut self) -> (r: Option<u8>)
        requires
            old(self).wf(),
        ensures
            final(self).wf(),
            old(self).remaining_spec().len() > 0 ==> r == Some(old(self).remaining_spec()[0])
                && final(self).remaining_spec() == old(self).remaining_spec().skip(1),
            old(self).remaining_spec().len() == 0 ==> r == None::<u8>
                && final(self).remaining_spec() == old(self).remaining_spec(),
    {
        if self.pos < self.buffer.len() {
            let b = self.buffer.read_at(self.pos);
            self.pos = self.pos + 1;
            proof {
                assert(self.remaining_spec() =~= old(self).remaining_spec().skip(1));
            }
            Some(b)
        } else {
            None
        }
    }
}

impl WaterBufferOwnedIter {
    /// The traversal owns a well-formed buffer and has not run past its
    /// window.
    pub closed spec fn wf(&self) -> bool {
        &&& self.buffer.wf()
        &&& self.pos <= self.buffer@.len()
    }

    /// The bytes not yet yielded.
    pub closed spec fn remaining_spec(&self) -> Seq<u8> {
        self.buffer@.skip(self.pos as int)
    }

    /// Yields the next byte of the owned window, or nothing once
    /// exhausted.
    pub fn next(&mut self) -> (r: Option<u8>)
        requires
            old(self).wf(),
        ensures
            final(self).wf(),
            old(self).remaining_spec().len() > 0 ==> r == Some(old(self).remaining_spec()[0])
                && final(self).remaining_spec() == old(self).remaining_spec().skip(1),
            old(self).remaining_spec().len() == 0 ==> r == None::<u8>
                && final(self).remaining_spec() == old(self).remaining_spec(),
    {
        if self.pos < self.buffer.len() {
            let b = self.buffer.read_at(self.pos);
            self.pos = self.pos + 1;
            proof {
                assert(self.remaining_spec() =~= old(self).remaining_spec().skip(1));
            }
            Some(b)
        } else {
            None
        }
    }
}

impl WaterBufferIterMut {
    /// Window positions not yet yielded, given the buffer the cursor walks.
    pub closed spec fn pos_spec(&self) -> int {
        self.pos as int
    }

    /// Yields the next window position of `buffer`, or nothing once the
    /// cursor has passed the window's end. The caller reads and rewrites
    /// the yielded position through `get` and `set` between calls.
    pub fn next_index(&mut self, buffer: &WaterBuffer) -> (r: Option<usize>)
        requires
            buffer.wf(),
        ensures
            old(self).pos_spec() < buffer@.len() ==> r == Some(old(self).pos_spec() as usize)
                && final(self).pos_spec() == old(self).pos_spec() + 1,
            old(self).pos_spec() >= buffer@.len() ==> r == None::<usize>
                && final(self).pos_spec() == old(self).pos_spec(),
    {
        if self.pos < buffer.len() {
            let i = self.pos;
            self.pos = self.pos + 1;
            Some(i)
        } else {
            None
        }
    }
}

impl WaterBuffer {
    /// Begins a borrowing traversal of the current window.
    pub fn iter<'a>(&'a self) -> (it: WaterBufferIter<'a>)
        requires
            self.wf(),
        ensures
            it.wf(),
            it.remaining_spec() == self@,
    {
        let it = WaterBufferIter { buffer: self, pos: 0 };
        proof {
            assert(it.remaining_spec() =~= self@);
        }
        it
    }

    /// Begins a mutably-borrowing traversal: a fresh cursor at the front
    /// of the window.
    pub fn iter_mut(&mut self) -> (it: WaterBufferIterMut)
        requires
            old(self).wf(),
        ensures
            *final(self) == *old(self),
            it.pos_spec() == 0,
    {
        WaterBufferIterMut { pos: 0 }
    }

    /// Consumes the buffer into an owning traversal of its window.
    pub fn into_owned_iter(self) -> (it: WaterBufferOwnedIter)
        requires
            self.wf(),
        ensures
            it.wf(),
            it.remaining_spec() == self@,
    {
        let ghost pre = self;
        let it = WaterBufferOwnedIter { buffer: self, pos: 0 };
        proof {
            assert(it.remaining_spec() =~= pre@);
        }
        it
    }
}

} // verus!
