//! The buffer itself: state, invariant, constructors, the consume
//! operation, and the bounds-checked view layer.
//!
//! A `WaterBuffer` owns one contiguous block of bytes and runs in one of
//! two disciplines. In linear mode the valid window is the bytes between a
//! read cursor (`start`) and the write end; `advance` consumes from the
//! front and appends never overwrite. In circular mode the allocation is a
//! fixed-capacity ring: the window may wrap physically, and once the ring
//! is full every write evicts the oldest bytes. The contracts describe a
//! buffer solely through its logical window `self@`, a `Seq<u8>`.

use crate::model::lemma_wrap;
use crate::model::ring_window;
use vstd::prelude::*;

verus! {

/// Which write/consume discipline a buffer follows.
#[derive(Clone, Copy, PartialEq, Eq, Structural, Debug)]
pub enum BufferMode {
    /// Append-only; consumed bytes leave through `advance`, and writes
    /// beyond the allocation grow it.
    Linear,
    /// Fixed-capacity ring; once full, writes evict the oldest bytes.
    Circular,
}

/// A growable (linear) or fixed-capacity circular byte buffer backed by a
/// single owned allocation.
#[derive(Debug)]
pub struct WaterBuffer {
    /// The owned allocation; its length is the buffer's capacity.
    pub(crate) data: Vec<u8>,
    /// The discipline this buffer was created with.
    pub(crate) mode: BufferMode,
    /// Offset of the first valid byte within the allocation. In circular
    /// mode this is the read cursor and stays below the capacity.
    pub(crate) start: usize,
    /// Number of currently valid bytes, counted from `start`.
    pub(crate) filled: usize,
}

impl View for WaterBuffer {
    type V = Seq<u8>;

    /// The logical window: the valid bytes in logical order.
    open(crate) spec fn view(&self) -> Seq<u8> {
        match self.mode {
            BufferMode::Linear => self.data@.subrange(
                self.start as int,
                self.start + self.filled,
            ),
            BufferMode::Circular => ring_window(self.data@, self.start as int, self.filled as int),
        }
    }
}

impl WaterBuffer {
    /// Total number of byte slots currently allocated.
    pub open(crate) spec fn cap_spec(&self) -> int {
        self.data@.len() as int
    }

    /// Offset of the first valid byte within the allocation.
    pub open(crate) spec fn start_spec(&self) -> int {
        self.start as int
    }

    /// Whether the buffer runs as a fixed-capacity ring.
    pub open(crate) spec fn is_circular_spec(&self) -> bool {
        self.mode is Circular
    }

    /// Well-formedness: the valid window lies inside the allocation, and an
    /// empty buffer keeps its cursors at zero so the next write reuses the
    /// whole allocation.
    pub open(crate) spec fn wf(&self) -> bool {
        match self.mode {
            BufferMode::Linear => {
                &&& self.start + self.filled <= self.data@.len()
                &&& (self.filled == 0 ==> self.start == 0)
            },
            BufferMode::Circular => {
                &&& self.filled <= self.data@.len()
                &&& (self.data@.len() > 0 ==> self.start < self.data@.len())
                &&& (self.data@.len() == 0 ==> self.filled == 0)
                &&& (self.filled == 0 ==> self.start == 0)
            },
        }
    }

    /// The spare region: the allocated slots behind the valid window, in
    /// the order a sequential writer would fill them. `spare_set` writes
    /// into it and `advance_mut` hands its prefix over to the window.
    pub open(crate) spec fn spare_spec(&self) -> Seq<u8> {
        match self.mode {
            BufferMode::Linear => self.data@.subrange(
                self.start + self.filled,
                self.data@.len() as int,
            ),
            BufferMode::Circular => Seq::new(
                (self.data@.len() - self.filled) as nat,
                |i: int| self.data@[(self.start + self.filled + i) % (self.data@.len() as int)],
            ),
        }
    }

    /// Builds a compacted linear buffer owning exactly `data`.
    pub(crate) fn from_linear_parts(data: Vec<u8>) -> (b: WaterBuffer)
        ensures
            b.wf(),
            !b.is_circular_spec(),
            b@ == data@,
            b.cap_spec() == data@.len(),
            b.start_spec() == 0,
    {
        let filled = data.len();
        let b = WaterBuffer { data, mode: BufferMode::Linear, start: 0, filled };
        proof {
            assert(b@ =~= b.data@);
        }
        b
    }

    /// Allocates `n` zeroed bytes; shared by the constructors.
    fn zeroed(n: usize) -> (v: Vec<u8>)
        ensures
            v@.len() == n,
            forall|i: int| 0 <= i < n ==> v@[i] == 0u8,
    {
        let mut v: Vec<u8> = Vec::new();
        while v.len() < n
            invariant
                v@.len() <= n,
                forall|i: int| 0 <= i < v@.len() ==> v@[i] == 0u8,
            decreases n - v@.len(),
        {
            v.push(0u8);
        }
        v
    }

    /// Creates an empty linear buffer with `cap` slots already allocated.
    /// A capacity of zero means no usable storage until the first write
    /// grows the buffer.
    pub fn with_capacity(cap: usize) -> (b: WaterBuffer)
        ensures
            b.wf(),
            b@ == Seq::<u8>::empty(),
            b.cap_spec() == cap,
            b.start_spec() == 0,
            !b.is_circular_spec(),
    {
        let b = WaterBuffer {
            data: Self::zeroed(cap),
            mode: BufferMode::Linear,
            start: 0,
            filled: 0,
        };
        proof {
            assert(b@ =~= Seq::<u8>::empty());
        }
        b
    }

    /// Creates an empty circular buffer: a ring that will retain at most
    /// the most recent `cap` bytes written and never reallocates.
    pub fn with_capacity_circular(cap: usize) -> (b: WaterBuffer)
        ensures
            b.wf(),
            b@ == Seq::<u8>::empty(),
            b.cap_spec() == cap,
            b.start_spec() == 0,
            b.is_circular_spec(),
    {
        let b = WaterBuffer {
            data: Self::zeroed(cap),
            mode: BufferMode::Circular,
            start: 0,
            filled: 0,
        };
        proof {
            assert(b@ =~= Seq::<u8>::empty());
        }
        b
    }

    /// Creates an empty linear buffer with no allocation; the first write
    /// allocates transparently.
    pub fn new() -> (b: WaterBuffer)
        ensures
            b.wf(),
            b@ == Seq::<u8>::empty(),
            b.cap_spec() == 0,
            b.start_spec() == 0,
            !b.is_circular_spec(),
    {
        Self::with_capacity(0)
    }

    /// Number of currently valid bytes.
    pub fn len(&self) -> (n: usize)
        requires
            self.wf(),
        ensures
            n == self@.len(),
    {
        self.filled
    }

    /// Total number of byte slots currently allocated.
    pub fn cap(&self) -> (n: usize)
        ensures
            n == self.cap_spec(),
    {
        self.data.len()
    }

    /// Slots allocated beyond the read cursor: the room a linear buffer can
    /// use without moving data.
    pub fn capacity(&self) -> (n: usize)
        requires
            self.wf(),
        ensures
            n == self.cap_spec() - self.start_spec(),
    {
        self.data.len() - self.start
    }

    /// Whether the buffer holds no valid bytes.
    pub fn is_empty(&self) -> (r: bool)
        requires
            self.wf(),
        ensures
            r == (self@.len() == 0),
    {
        self.filled == 0
    }

    /// Number of valid bytes left to read; identical to `len`.
    pub fn remaining(&self) -> (n: usize)
        requires
            self.wf(),
        ensures
            n == self@.len(),
    {
        self.filled
    }

    /// Offset of the first valid byte within the allocation.
    pub fn start_pos(&self) -> (n: usize)
        ensures
            n == self.start_spec(),
    {
        self.start
    }

    /// The ring's write cursor: the slot the next write overwrites. It is
    /// present exactly when a circular buffer has become full, and absent
    /// in linear mode or while the ring still has spare room.
    pub fn circular_position(&self) -> (r: Option<usize>)
        requires
            self.wf(),
        ensures
            r == if self.is_circular_spec() && self.cap_spec() > 0 && self@.len()
                == self.cap_spec() {
                Some(self.start_spec() as usize)
            } else {
                None::<usize>
            },
    {
        match self.mode {
            BufferMode::Circular => {
                if self.data.len() > 0 && self.filled == self.data.len() {
                    Some(self.start)
                } else {
                    None
                }
            },
            BufferMode::Linear => None,
        }
    }

    /// Whether the buffer runs as a fixed-capacity ring.
    pub fn is_circular(&self) -> (r: bool)
        ensures
            r == self.is_circular_spec(),
    {
        match self.mode {
            BufferMode::Circular => true,
            BufferMode::Linear => false,
        }
    }

    /// Slots that can still be written before the allocation is exhausted:
    /// past the valid window in linear mode, before the ring is full in
    /// circular mode.
    pub fn un_initialized_remaining(&self) -> (n: usize)
        requires
            self.wf(),
        ensures
            n == if self.is_circular_spec() {
                self.cap_spec() - self@.len()
            } else {
                self.cap_spec() - self.start_spec() - self@.len()
            },
    {
        match self.mode {
            BufferMode::Circular => self.data.len() - self.filled,
            BufferMode::Linear => self.data.len() - self.start - self.filled,
        }
    }

    /// Empties the buffer and rewinds both cursors to zero. The allocation
    /// is kept, so later writes behave as on a fresh buffer of the same
    /// capacity and mode.
    pub fn reset(&mut self)
        requires
            old(self).wf(),
        ensures
            final(self).wf(),
            final(self)@ == Seq::<u8>::empty(),
            final(self).cap_spec() == old(self).cap_spec(),
            final(self).start_spec() == 0,
            final(self).is_circular_spec() == old(self).is_circular_spec(),
    {
        self.start = 0;
        self.filled = 0;
        proof {
            assert(self@ =~= Seq::<u8>::empty());
        }
    }

    /// Same operation as `reset`: empties the buffer without releasing the
    /// allocation.
    pub fn clear(&mut self)
        requires
            old(self).wf(),
        ensures
            final(self).wf(),
            final(self)@ == Seq::<u8>::empty(),
            final(self).cap_spec() == old(self).cap_spec(),
            final(self).start_spec() == 0,
            final(self).is_circular_spec() == old(self).is_circular_spec(),
    {
        self.reset();
    }

    /// Consumes `n` bytes from the front of the valid window: the read
    /// cursor moves forward and the window shrinks. Consuming everything
    /// rewinds the cursors to zero so the whole allocation is reusable.
    pub fn advance(&mut self, n: usize)
        requires
            old(self).wf(),
            n <= old(self)@.len(),
        ensures
            final(self).wf(),
            final(self)@ == old(self)@.skip(n as int),
            final(self).cap_spec() == old(self).cap_spec(),
            final(self).is_circular_spec() == old(self).is_circular_spec(),
            final(self).start_spec() == if n == old(self)@.len() {
                0int
            } else if old(self).is_circular_spec() {
                (old(self).start_spec() + n) % old(self).cap_spec()
            } else {
                old(self).start_spec() + n
            },
    {
        let ghost pre = *self;
        if n == self.filled {
            self.start = 0;
            self.filled = 0;
            proof {
                assert(self@ =~= pre@.skip(n as int));
            }
            return;
        }
        self.filled = self.filled - n;
        let cap = self.data.len();
        match self.mode {
            BufferMode::Linear => {
                self.start = self.start + n;
                proof {
                    assert(self@ =~= pre@.skip(n as int));
                }
            },
            BufferMode::Circular => {
                self.start = if n < cap - self.start {
                    self.start + n
                } else {
                    n - (cap - self.start)
                };
                proof {
                    lemma_wrap(pre.start_spec() + n, cap as int);
                    assert forall|i: int| 0 <= i < self.filled implies self@[i] == pre@.skip(
                        n as int,
                    )[i] by {
                        vstd::arithmetic::div_mod::lemma_add_mod_noop(
                            pre.start_spec() + n,
                            i,
                            cap as int,
                        );
                        lemma_wrap((pre.start_spec() + n) % (cap as int) + i % (cap as int), cap as int);
                        lemma_small_mod_int(i, cap as int);
                    };
                    assert(self@ =~= pre@.skip(n as int));
                }
            },
        }
    }

    /// Shortens the valid window to at most `len` bytes, dropping bytes
    /// from the back; a longer request leaves the buffer unchanged.
    pub fn truncate(&mut self, len: usize)
        requires
            old(self).wf(),
        ensures
            final(self).wf(),
            final(self)@ == if len < old(self)@.len() {
                old(self)@.take(len as int)
            } else {
                old(self)@
            },
            final(self).cap_spec() == old(self).cap_spec(),
            final(self).is_circular_spec() == old(self).is_circular_spec(),
            final(self).start_spec() == if len == 0 && old(self)@.len() > 0 {
                0int
            } else {
                old(self).start_spec()
            },
    {
        let ghost pre = *self;
        if len < self.filled {
            self.filled = len;
            if len == 0 {
                self.start = 0;
            }
            proof {
                assert(self@ =~= pre@.take(len as int));
            }
        }
    }

    /// Reads the byte at window position `i`; private core of the view and
    /// iteration layers.
    pub(crate) fn read_at(&self, i: usize) -> (b: u8)
        requires
            self.wf(),
            i < self@.len(),
        ensures
            b == self@[i as int],
    {
        let cap = self.data.len();
        match self.mode {
            BufferMode::Linear => self.data[self.start + i],
            BufferMode::Circular => {
                let pos = if i < cap - self.start {
                    self.start + i
                } else {
                    i - (cap - self.start)
                };
                proof {
                    lemma_wrap(self.start_spec() + i, cap as int);
                }
                self.data[pos]
            },
        }
    }

    /// Single-byte access. In linear mode the index must lie inside the
    /// valid window; in circular mode the index is resolved modulo the
    /// window length, so any index reads a valid byte once the buffer is
    /// non-empty.
    pub fn get(&self, i: usize) -> (b: u8)
        requires
            self.wf(),
            self.is_circular_spec() ==> self@.len() > 0,
            !self.is_circular_spec() ==> i < self@.len(),
        ensures
            b == self@[(i as int) % (self@.len() as int)],
    {
        let j: usize = match self.mode {
            BufferMode::Circular => i % self.filled,
            BufferMode::Linear => i,
        };
        proof {
            if !self.is_circular_spec() {
                lemma_small_mod_int(i as int, self@.len() as int);
            }
        }
        self.read_at(j)
    }

    /// Overwrites the byte at window position `i`.
    pub fn set(&mut self, i: usize, b: u8)
        requires
            old(self).wf(),
            i < old(self)@.len(),
        ensures
            final(self).wf(),
            final(self)@ == old(self)@.update(i as int, b),
            final(self).cap_spec() == old(self).cap_spec(),
            final(self).start_spec() == old(self).start_spec(),
            final(self).is_circular_spec() == old(self).is_circular_spec(),
    {
        let ghost pre = *self;
        let cap = self.data.len();
        match self.mode {
            BufferMode::Linear => {
                self.data.set(self.start + i, b);
                proof {
                    assert(self@ =~= pre@.update(i as int, b));
                }
            },
            BufferMode::Circular => {
                let pos = if i < cap - self.start {
                    self.start + i
                } else {
                    i - (cap - self.start)
                };
                proof {
                    lemma_wrap(self.start_spec() + i, cap as int);
                }
                self.data.set(pos, b);
                proof {
                    assert forall|k: int| 0 <= k < self.filled implies self@[k] == pre@.update(
                        i as int,
                        b,
                    )[k] by {
                        lemma_wrap(pre.start_spec() + k, cap as int);
                    };
                    assert(self@ =~= pre@.update(i as int, b));
                }
            },
        }
    }

    /// Borrows the valid window as one contiguous slice. Only a linear
    /// buffer guarantees physical contiguity; a ring's window may wrap, so
    /// circular readers go through `to_vec` instead.
    pub fn chunk(&self) -> (s: &[u8])
        requires
            self.wf(),
            !self.is_circular_spec(),
        ensures
            s@ == self@,
    {
        let end = self.data.len();
        proof {
            assert(self.start + self.filled <= end);
        }
        vstd::slice::slice_subrange(self.data.as_slice(), self.start, self.start + self.filled)
    }

    /// The read window of the bulk-read collaborator contract; same view as
    /// `chunk`.
    pub fn as_slice(&self) -> (s: &[u8])
        requires
            self.wf(),
            !self.is_circular_spec(),
        ensures
            s@ == self@,
    {
        self.chunk()
    }

    /// Copies the valid window out in logical order; works in both modes,
    /// including a physically wrapped ring.
    pub fn to_vec(&self) -> (v: Vec<u8>)
        requires
            self.wf(),
        ensures
            v@ == self@,
    {
        let mut v: Vec<u8> = Vec::new();
        let mut i: usize = 0;
        while i < self.filled
            invariant
                self.wf(),
                i <= self.filled,
                self.filled == self@.len(),
                v@ =~= self@.take(i as int),
            decreases self.filled - i,
        {
            v.push(self.read_at(i));
            i = i + 1;
            proof {
                assert(v@ =~= self@.take(i as int));
            }
        }
        proof {
            assert(self@.take(self.filled as int) =~= self@);
        }
        v
    }

    /// Copies window positions `from` (inclusive) to `to` (exclusive) out
    /// in logical order; the bounds-checked range view for both modes.
    pub fn range_to_vec(&self, from: usize, to: usize) -> (v: Vec<u8>)
        requires
            self.wf(),
            from <= to,
            to <= self@.len(),
        ensures
            v@ == self@.subrange(from as int, to as int),
    {
        let mut v: Vec<u8> = Vec::new();
        let mut i: usize = from;
        while i < to
            invariant
                self.wf(),
                from <= i <= to,
                to <= self@.len(),
                v@ =~= self@.subrange(from as int, i as int),
            decreases to - i,
        {
            v.push(self.read_at(i));
            i = i + 1;
            proof {
                assert(v@ =~= self@.subrange(from as int, i as int));
            }
        }
        v
    }

    /// Overwrites the window segment starting at `at` with `src`, byte for
    /// byte; the bounds-checked mutable range access.
    pub fn set_range(&mut self, at: usize, src: &[u8])
        requires
            old(self).wf(),
            at + src@.len() <= old(self)@.len(),
        ensures
            final(self).wf(),
            final(self)@ == old(self)@.take(at as int) + src@ + old(self)@.skip(
                at + src@.len(),
            ),
            final(self).cap_spec() == old(self).cap_spec(),
            final(self).start_spec() == old(self).start_spec(),
            final(self).is_circular_spec() == old(self).is_circular_spec(),
    {
        let ghost pre = *self;
        let n = src.len();
        let mut j: usize = 0;
        while j < n
            invariant
                self.wf(),
                j <= n,
                n == src@.len(),
                at + n <= pre@.len(),
                self@.len() == pre@.len(),
                self.cap_spec() == pre.cap_spec(),
                self.start_spec() == pre.start_spec(),
                self.is_circular_spec() == pre.is_circular_spec(),
                forall|k: int|
                    0 <= k < self@.len() ==> self@[k] == if at <= k < at + j {
                        src@[k - at]
                    } else {
                        pre@[k]
                    },
            decreases n - j,
        {
            let b = *vstd::slice::slice_index_get(src, j);
            self.set(at + j, b);
            j = j + 1;
        }
        proof {
            assert(self@ =~= pre@.take(at as int) + src@ + pre@.skip(at + src@.len()));
        }
    }

    /// Returns a compacted copy: same mode, the same logical window, and a
    /// capacity trimmed to that window's length.
    pub fn duplicate(&self) -> (b: WaterBuffer)
        requires
            self.wf(),
        ensures
            b.wf(),
            b@ == self@,
            b.cap_spec() == self@.len(),
            b.start_spec() == 0,
            b.is_circular_spec() == self.is_circular_spec(),
    {
        let data = self.to_vec();
        let filled = data.len();
        let b = WaterBuffer { data, mode: self.mode, start: 0, filled };
        proof {
            assert forall|i: int| 0 <= i < b@.len() implies b@[i] == self@[i] by {
                if b.is_circular_spec() {
                    lemma_small_mod_int(i, b.cap_spec());
                }
            };
            assert(b@ =~= self@);
        }
        b
    }
}

impl Default for WaterBuffer {
    /// An empty linear buffer with no allocation, as `new` builds it.
    fn default() -> (b: Self)
        ensures
            b.wf(),
            b@ == Seq::<u8>::empty(),
            b.cap_spec() == 0,
            b.start_spec() == 0,
            !b.is_circular_spec(),
    {
        Self::new()
    }
}

/// Restates `lemma_small_mod` over `int` values, where the cursors live.
pub(crate) proof fn lemma_small_mod_int(x: int, m: int)
    requires
        0 <= x < m,
    ensures
        x % m == x,
{
    vstd::arithmetic::div_mod::lemma_small_mod(x as nat, m as nat);
}

} // verus!
