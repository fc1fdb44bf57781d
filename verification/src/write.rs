//! The two write engines, compaction, and the zero-copy commit contract.
//!
//! Linear writes append: the window afterwards is the old window with the
//! new bytes concatenated, growing the allocation through the growth
//! controller when the spare room runs out. Circular writes feed a ring:
//! the window afterwards is [`ring_tail`] of the old window with the new
//! bytes appended, the most recent `capacity` bytes in write order, and
//! the allocation never changes.

use crate::buffer::lemma_small_mod_int;
use crate::buffer::BufferMode;
use crate::buffer::WaterBuffer;
use crate::growth::grow_target;
use crate::model::lemma_ring_write;
use crate::model::lemma_wrap;
use crate::model::lemma_wrap_shift;
use crate::model::ring_tail;
use vstd::prelude::*;

verus! {

/// Copies `src[from..to]` into `v` starting at slot `dst`: one contiguous
/// run, the primitive both engines build their bulk copies from.
fn write_run(v: &mut Vec<u8>, dst: usize, src: &[u8], from: usize, to: usize)
    requires
        from <= to,
        to <= src@.len(),
        dst + (to - from) <= old(v)@.len(),
    ensures
        final(v)@.len() == old(v)@.len(),
        forall|k: int|
            0 <= k < final(v)@.len() ==> final(v)@[k] == if dst <= k < dst + (to - from) {
                src@[from + (k - dst)]
            } else {
                old(v)@[k]
            },
{
    let vlen = v.len();
    let mut j: usize = 0;
    while j < to - from
        invariant
            from <= to,
            to <= src@.len(),
            dst + (to - from) <= old(v)@.len(),
            j <= to - from,
            vlen == v@.len(),
            v@.len() == old(v)@.len(),
            forall|k: int|
                0 <= k < v@.len() ==> v@[k] == if dst <= k < dst + j {
                    src@[from + (k - dst)]
                } else {
                    old(v)@[k]
                },
        decreases to - from - j,
    {
        let b = *vstd::slice::slice_index_get(src, from + j);
        v.set(dst + j, b);
        j = j + 1;
    }
}

impl WaterBuffer {
    /// Shifts the valid bytes of a linear buffer to the front of the
    /// allocation, reclaiming the space a previously advanced read cursor
    /// left dead. Purely an optimization: the window is untouched.
    fn compact(&mut self)
        requires
            old(self).wf(),
            !old(self).is_circular_spec(),
        ensures
            final(self).wf(),
            !final(self).is_circular_spec(),
            final(self)@ == old(self)@,
            final(self).cap_spec() == old(self).cap_spec(),
            final(self).start_spec() == 0,
    {
        let ghost pre = *self;
        if self.start == 0 {
            return;
        }
        let filled = self.filled;
        let start = self.start;
        let cap = self.data.len();
        let mut i: usize = 0;
        // Overlap-safe forward shift: every slot read sits strictly ahead
        // of every slot written so far.
        while i < filled
            invariant
                pre.wf(),
                !pre.is_circular_spec(),
                self.mode == pre.mode,
                self.start == pre.start_spec(),
                self.filled == pre@.len(),
                filled == pre@.len(),
                start == pre.start_spec(),
                start >= 1,
                i <= filled,
                cap == self.data@.len(),
                self.data@.len() == pre.cap_spec(),
                forall|k: int| 0 <= k < i ==> self.data@[k] == pre@[k],
                forall|k: int| i <= k < self.data@.len() ==> self.data@[k] == pre.data@[k],
            decreases filled - i,
        {
            let b = self.data[start + i];
            self.data.set(i, b);
            i = i + 1;
        }
        self.start = 0;
        proof {
            assert(self@ =~= pre@);
        }
    }

    /// The growth controller's answer for this buffer: the capacity it
    /// would reallocate to if `required` total slots were needed now.
    pub fn ap_size(&self, required: usize) -> (n: usize)
        ensures
            n == crate::growth::grow_target_spec(self.cap_spec(), required as int),
            n >= required,
            n >= self.cap_spec(),
            n >= crate::growth::GROWTH_FLOOR,
    {
        grow_target(self.data.len(), required)
    }

    /// Makes room for `additional` more bytes after the current window of
    /// a linear buffer, preferring compaction over reallocation and
    /// consulting the growth controller otherwise. The window never
    /// changes, and the capacity never shrinks. A circular buffer has a
    /// fixed capacity, so there this is a no-op.
    pub fn expand(&mut self, additional: usize)
        requires
            old(self).wf(),
            !old(self).is_circular_spec() ==> old(self)@.len() + additional <= usize::MAX,
        ensures
            final(self).wf(),
            final(self)@ == old(self)@,
            final(self).is_circular_spec() == old(self).is_circular_spec(),
            final(self).cap_spec() >= old(self).cap_spec(),
            !final(self).is_circular_spec() ==> final(self).cap_spec() - final(self).start_spec()
                - final(self)@.len() >= additional,
            old(self).is_circular_spec() ==> *final(self) == *old(self),
    {
        match self.mode {
            BufferMode::Circular => {
                return;
            },
            BufferMode::Linear => {},
        }
        let cap = self.data.len();
        if additional <= cap - self.start - self.filled {
            return;
        }
        self.compact();
        if additional <= cap - self.filled {
            return;
        }
        let ghost mid = *self;
        let target = grow_target(cap, self.filled + additional);
        while self.data.len() < target
            invariant
                self.wf(),
                !self.is_circular_spec(),
                self.start_spec() == 0,
                self.filled == mid@.len(),
                self@ == mid@,
                self.cap_spec() >= mid.cap_spec(),
            decreases target - self.data@.len(),
        {
            self.data.push(0u8);
            proof {
                assert(self@ =~= mid@);
            }
        }
    }

    /// Ensures `additional` bytes of spare room behind the window of a
    /// linear buffer, growing if needed; a no-op on a circular buffer.
    pub fn reserve(&mut self, additional: usize)
        requires
            old(self).wf(),
            !old(self).is_circular_spec() ==> old(self)@.len() + additional <= usize::MAX,
        ensures
            final(self).wf(),
            final(self)@ == old(self)@,
            final(self).is_circular_spec() == old(self).is_circular_spec(),
            final(self).cap_spec() >= old(self).cap_spec(),
            !final(self).is_circular_spec() ==> final(self).cap_spec() - final(self).start_spec()
                - final(self)@.len() >= additional,
            old(self).is_circular_spec() ==> *final(self) == *old(self),
    {
        self.expand(additional);
    }

    /// Same operation as `reserve`, under an alternative name some call
    /// sites prefer.
    pub fn ensure_capacity(&mut self, additional: usize)
        requires
            old(self).wf(),
            !old(self).is_circular_spec() ==> old(self)@.len() + additional <= usize::MAX,
        ensures
            final(self).wf(),
            final(self)@ == old(self)@,
            final(self).is_circular_spec() == old(self).is_circular_spec(),
            final(self).cap_spec() >= old(self).cap_spec(),
            !final(self).is_circular_spec() ==> final(self).cap_spec() - final(self).start_spec()
                - final(self)@.len() >= additional,
            old(self).is_circular_spec() ==> *final(self) == *old(self),
    {
        self.expand(additional);
    }

    /// Appends one byte. A linear buffer grows as needed and ends with
    /// the byte concatenated to its window; a ring retains the most
    /// recent `capacity` bytes of its write history, evicting the oldest
    /// byte once full (and so keeps nothing when its capacity is zero).
    pub fn push(&mut self, item: u8)
        requires
            old(self).wf(),
            !old(self).is_circular_spec() ==> old(self)@.len() < usize::MAX,
        ensures
            final(self).wf(),
            final(self).is_circular_spec() == old(self).is_circular_spec(),
            !old(self).is_circular_spec() ==> final(self)@ == old(self)@.push(item)
                && final(self).cap_spec() >= old(self).cap_spec(),
            old(self).is_circular_spec() ==> final(self)@ == ring_tail(
                old(self)@.push(item),
                old(self).cap_spec(),
            ) && final(self).cap_spec() == old(self).cap_spec(),
    {
        let ghost pre = *self;
        match self.mode {
            BufferMode::Linear => {
                let cap = self.data.len();
                if cap - self.start - self.filled == 0 {
                    self.expand(1);
                }
                let ghost mid = *self;
                // Binds the allocation length, so the cursor sum below is
                // known to fit in usize.
                let room = self.data.len();
                let end = self.start + self.filled;
                self.data.set(end, item);
                self.filled = self.filled + 1;
                proof {
                    assert(self@ =~= mid@.push(item));
                }
            },
            BufferMode::Circular => {
                let cap = self.data.len();
                if cap == 0 {
                    proof {
                        assert(self@ =~= ring_tail(pre@.push(item), pre.cap_spec()));
                    }
                    return;
                }
                let w = if self.filled < cap - self.start {
                    self.start + self.filled
                } else {
                    self.filled - (cap - self.start)
                };
                proof {
                    lemma_wrap(pre.start_spec() + pre@.len(), cap as int);
                }
                self.data.set(w, item);
                if self.filled < cap {
                    self.filled = self.filled + 1;
                    proof {
                        lemma_small_mod_int(pre.start_spec(), cap as int);
                    }
                } else {
                    self.start = if self.start + 1 < cap {
                        self.start + 1
                    } else {
                        0
                    };
                    proof {
                        lemma_wrap(pre.start_spec() + 1, cap as int);
                    }
                }
                proof {
                    let s = seq![item];
                    let over: int = if pre@.len() + 1 > cap {
                        pre@.len() + 1 - cap
                    } else {
                        0int
                    };
                    lemma_ring_write(
                        pre.data@,
                        self.data@,
                        s,
                        pre.start_spec(),
                        pre@.len() as int,
                        w as int,
                        1int,
                        over,
                        self.start_spec(),
                        self.filled as int,
                    );
                    assert(pre@.push(item) =~= pre@ + s);
                }
            },
        }
    }

    /// Appends a whole slice in one bulk operation. A linear buffer ends
    /// with the slice concatenated to its window. A ring retains the most
    /// recent `capacity` bytes of its write history: a slice no shorter
    /// than the ring replaces the whole window with the slice's tail in a
    /// single special-cased copy, and any other write lands as a tail run
    /// at the write cursor plus a head run that wraps to slot zero.
    pub fn extend_from_slice(&mut self, slice: &[u8])
        requires
            old(self).wf(),
            !old(self).is_circular_spec() ==> old(self)@.len() + slice@.len() <= usize::MAX,
        ensures
            final(self).wf(),
            final(self).is_circular_spec() == old(self).is_circular_spec(),
            !old(self).is_circular_spec() ==> final(self)@ == old(self)@ + slice@
                && final(self).cap_spec() >= old(self).cap_spec(),
            old(self).is_circular_spec() ==> final(self)@ == ring_tail(
                old(self)@ + slice@,
                old(self).cap_spec(),
            ) && final(self).cap_spec() == old(self).cap_spec(),
    {
        let ghost pre = *self;
        let n = slice.len();
        match self.mode {
            BufferMode::Linear => {
                let cap = self.data.len();
                if n > cap - self.start - self.filled {
                    self.expand(n);
                }
                let ghost mid = *self;
                // Binds the allocation length, so the cursor sum below is
                // known to fit in usize.
                let room = self.data.len();
                write_run(&mut self.data, self.start + self.filled, slice, 0, n);
                self.filled = self.filled + n;
                proof {
                    assert(self@ =~= mid@ + slice@);
                }
            },
            BufferMode::Circular => {
                let cap = self.data.len();
                if cap == 0 {
                    proof {
                        assert(self@ =~= ring_tail(pre@ + slice@, pre.cap_spec()));
                    }
                    return;
                }
                if n >= cap {
                    // A write at least as long as the ring: only its last
                    // `cap` bytes survive, copied once.
                    write_run(&mut self.data, 0, slice, n - cap, n);
                    self.start = 0;
                    self.filled = cap;
                    proof {
                        assert forall|i: int| 0 <= i < cap implies self@[i] == ring_tail(
                            pre@ + slice@,
                            cap as int,
                        )[i] by {
                            lemma_small_mod_int(i, cap as int);
                        };
                        assert(self@ =~= ring_tail(pre@ + slice@, cap as int));
                    }
                    return;
                }
                let w = if self.filled < cap - self.start {
                    self.start + self.filled
                } else {
                    self.filled - (cap - self.start)
                };
                proof {
                    lemma_wrap(pre.start_spec() + pre@.len(), cap as int);
                }
                let first = if cap - w < n {
                    cap - w
                } else {
                    n
                };
                write_run(&mut self.data, w, slice, 0, first);
                write_run(&mut self.data, 0, slice, first, n);
                if n <= cap - self.filled {
                    self.filled = self.filled + n;
                    proof {
                        lemma_small_mod_int(pre.start_spec(), cap as int);
                    }
                } else {
                    let over = n - (cap - self.filled);
                    self.start = if over < cap - self.start {
                        self.start + over
                    } else {
                        over - (cap - self.start)
                    };
                    self.filled = cap;
                    proof {
                        lemma_wrap(pre.start_spec() + (pre@.len() + n - cap), cap as int);
                    }
                }
                proof {
                    let over: int = if pre@.len() + n > cap {
                        pre@.len() + n - cap
                    } else {
                        0int
                    };
                    lemma_ring_write(
                        pre.data@,
                        self.data@,
                        slice@,
                        pre.start_spec(),
                        pre@.len() as int,
                        w as int,
                        first as int,
                        over,
                        self.start_spec(),
                        self.filled as int,
                    );
                }
            },
        }
    }

    /// Commits `n` bytes that an external writer placed into the spare
    /// region through `spare_set`: the window grows by exactly the first
    /// `n` spare bytes, copied nowhere. The commit is checked: it can
    /// never claim more room than `un_initialized_remaining` reported.
    pub fn advance_mut(&mut self, n: usize)
        requires
            old(self).wf(),
            n <= old(self).spare_spec().len(),
        ensures
            final(self).wf(),
            final(self)@ == old(self)@ + old(self).spare_spec().take(n as int),
            final(self).cap_spec() == old(self).cap_spec(),
            final(self).start_spec() == old(self).start_spec(),
            final(self).is_circular_spec() == old(self).is_circular_spec(),
    {
        let ghost pre = *self;
        // Binds the allocation length, so the grown count is known to fit
        // in usize.
        let cap = self.data.len();
        self.filled = self.filled + n;
        proof {
            assert forall|i: int| 0 <= i < self@.len() implies self@[i] == (pre@
                + pre.spare_spec().take(n as int))[i] by {
                if pre.is_circular_spec() && i >= pre@.len() {
                    assert(pre.spare_spec()[i - pre@.len()] == pre.data@[
                        (pre.start_spec() + pre@.len() + (i - pre@.len())) % pre.cap_spec()
                    ]);
                }
            };
            assert(self@ =~= pre@ + pre.spare_spec().take(n as int));
        }
    }

    /// Writes one byte into the spare region, `i` slots past the window's
    /// end, without committing it; the window itself is untouched. This
    /// is the write-target half of the zero-copy collaborator contract,
    /// and `advance_mut` is the commit half.
    pub fn spare_set(&mut self, i: usize, b: u8)
        requires
            old(self).wf(),
            i < old(self).spare_spec().len(),
        ensures
            final(self).wf(),
            final(self)@ == old(self)@,
            final(self).spare_spec() == old(self).spare_spec().update(i as int, b),
            final(self).cap_spec() == old(self).cap_spec(),
            final(self).start_spec() == old(self).start_spec(),
            final(self).is_circular_spec() == old(self).is_circular_spec(),
    {
        let ghost pre = *self;
        let cap = self.data.len();
        match self.mode {
            BufferMode::Linear => {
                self.data.set(self.start + self.filled + i, b);
                proof {
                    assert(self@ =~= pre@);
                    assert(self.spare_spec() =~= pre.spare_spec().update(i as int, b));
                }
            },
            BufferMode::Circular => {
                let w = if self.filled < cap - self.start {
                    self.start + self.filled
                } else {
                    self.filled - (cap - self.start)
                };
                proof {
                    lemma_wrap(pre.start_spec() + pre@.len(), cap as int);
                }
                let off = if i < cap - w {
                    w + i
                } else {
                    i - (cap - w)
                };
                proof {
                    lemma_wrap(w + i, cap as int);
                    lemma_wrap_shift(pre.start_spec() + pre@.len(), i as int, cap as int);
                    assert(off == (pre.start_spec() + pre@.len() + i) % (cap as int));
                }
                self.data.set(off, b);
                proof {
                    assert forall|k: int| 0 <= k < pre@.len() implies self@[k] == pre@[k] by {
                        lemma_wrap(pre.start_spec() + k, cap as int);
                        lemma_wrap(pre.start_spec() + pre@.len() + i, cap as int);
                    };
                    assert(self@ =~= pre@);
                    assert forall|k: int|
                        0 <= k < pre.spare_spec().len() implies self.spare_spec()[k]
                        == pre.spare_spec().update(i as int, b)[k] by {
                        lemma_wrap(pre.start_spec() + pre@.len() + k, cap as int);
                        lemma_wrap(pre.start_spec() + pre@.len() + i, cap as int);
                    };
                    assert(self.spare_spec() =~= pre.spare_spec().update(i as int, b));
                }
            },
        }
    }

    /// Splits off and returns everything from window position `at`
    /// onwards, as a fresh compacted linear buffer; the receiver keeps
    /// the front. Splitting at or past the window's end returns an empty
    /// buffer and leaves the receiver's window whole; the bound on the
    /// split point is the slack the allocation still offers.
    pub fn split_off(&mut self, at: usize) -> (tail: WaterBuffer)
        requires
            old(self).wf(),
            !old(self).is_circular_spec(),
            at <= old(self).cap_spec() - old(self).start_spec(),
        ensures
            final(self).wf(),
            tail.wf(),
            !final(self).is_circular_spec(),
            !tail.is_circular_spec(),
            final(self)@ == if at < old(self)@.len() {
                old(self)@.take(at as int)
            } else {
                old(self)@
            },
            tail@ == if at < old(self)@.len() {
                old(self)@.skip(at as int)
            } else {
                Seq::<u8>::empty()
            },
            final(self).cap_spec() == old(self).cap_spec(),
    {
        let ghost pre = *self;
        if at >= self.filled {
            let tail = WaterBuffer::new();
            return tail;
        }
        let tail_len = self.filled - at;
        let mut tail_data: Vec<u8> = Vec::new();
        let mut j: usize = 0;
        while j < tail_len
            invariant
                pre.wf(),
                !pre.is_circular_spec(),
                *self == pre,
                at + tail_len == pre@.len(),
                j <= tail_len,
                tail_data@ =~= pre@.subrange(at as int, at + j),
            decreases tail_len - j,
        {
            tail_data.push(self.read_at(at + j));
            j = j + 1;
            proof {
                assert(tail_data@ =~= pre@.subrange(at as int, at + j));
            }
        }
        self.filled = at;
        if at == 0 {
            self.start = 0;
        }
        let tail = WaterBuffer::from_linear_parts(tail_data);
        proof {
            assert(self@ =~= pre@.take(at as int));
            assert(tail@ =~= pre@.skip(at as int));
        }
        tail
    }

    /// Splits off and returns the first `at` bytes of the window, as a
    /// fresh compacted linear buffer; the receiver keeps the rest, its
    /// read cursor advanced past the split point.
    pub fn split_to(&mut self, at: usize) -> (front: WaterBuffer)
        requires
            old(self).wf(),
            !old(self).is_circular_spec(),
            at <= old(self)@.len(),
        ensures
            final(self).wf(),
            front.wf(),
            !final(self).is_circular_spec(),
            !front.is_circular_spec(),
            final(self)@ == old(self)@.skip(at as int),
            front@ == old(self)@.take(at as int),
            final(self).cap_spec() == old(self).cap_spec(),
    {
        let ghost pre = *self;
        let mut front_data: Vec<u8> = Vec::new();
        let mut j: usize = 0;
        while j < at
            invariant
                pre.wf(),
                !pre.is_circular_spec(),
                *self == pre,
                at <= pre@.len(),
                j <= at,
                front_data@ =~= pre@.subrange(0, j as int),
            decreases at - j,
        {
            front_data.push(self.read_at(j));
            j = j + 1;
            proof {
                assert(front_data@ =~= pre@.subrange(0, j as int));
            }
        }
        self.advance(at);
        let front = WaterBuffer::from_linear_parts(front_data);
        proof {
            assert(front@ =~= pre@.take(at as int));
        }
        front
    }
}

} // verus!
