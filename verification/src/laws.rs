//! Laws the buffer's contracts compose into.
//!
//! Each operation's own contract describes one call. The lemmas here state
//! what whole call sequences amount to, at the level of the logical window
//! the contracts speak of: appends concatenate, consumption adds up, growth
//! moves nothing, and ring eviction does not care how writes were batched.

use crate::buffer::WaterBuffer;
use crate::model::ring_tail;
use vstd::prelude::*;

verus! {

/// Append/read round-trip: appending in two steps leaves the same window
/// as appending the concatenation once. Together with the contracts of
/// `push` and `extend_from_slice` (window becomes `old + s`) and of
/// `as_slice` (returns the window), any sequence of linear appends reads
/// back as the concatenation of everything appended.
pub proof fn lemma_append_round_trip(v: Seq<u8>, s1: Seq<u8>, s2: Seq<u8>)
    ensures
        (v + s1) + s2 == v + (s1 + s2),
{
    assert((v + s1) + s2 =~= v + (s1 + s2));
}

/// Advance monotonicity: consuming `a` bytes and then `b` bytes from the
/// front leaves the same window as consuming `a + b` at once, so repeated
/// `advance` calls shorten the window by exactly their sum.
pub proof fn lemma_advance_additive(v: Seq<u8>, a: int, b: int)
    requires
        0 <= a,
        0 <= b,
        a + b <= v.len(),
    ensures
        v.skip(a).skip(b) == v.skip(a + b),
{
    assert(v.skip(a).skip(b) =~= v.skip(a + b));
}

/// Growth preserves data: a write that appends (and so may have grown the
/// allocation) never alters the logical position or value of any byte
/// already in the window. With `expand`'s contract (the window is
/// untouched), no growth path moves data.
pub proof fn lemma_append_preserves_prefix(v: Seq<u8>, s: Seq<u8>)
    ensures
        (v + s).len() == v.len() + s.len(),
        forall|i: int| 0 <= i < v.len() ==> (v + s)[i] == v[i],
{
}

/// Circular eviction is insensitive to batching: retaining the last `cap`
/// bytes after one more write equals retaining the last `cap` bytes of the
/// whole history at once. With `push` and `extend_from_slice`'s circular
/// contracts, a full ring's window is the last `cap` bytes written,
/// whether the overflow came in one write or many.
pub proof fn lemma_ring_eviction_compose(a: Seq<u8>, b: Seq<u8>, cap: int)
    requires
        cap >= 0,
    ensures
        ring_tail(ring_tail(a, cap) + b, cap) == ring_tail(a + b, cap),
{
    let la = a.len() as int;
    let lb = b.len() as int;
    if la <= cap {
        assert(ring_tail(a, cap) + b =~= a + b);
    } else {
        let inner = a.skip(la - cap);
        if lb <= 0 {
            assert(ring_tail(inner + b, cap) =~= ring_tail(a + b, cap));
        } else {
            assert forall|i: int|
                0 <= i < cap implies (inner + b).skip(lb)[i] == (a + b).skip(
                la + lb - cap,
            )[i] by {
                if lb + i < cap {
                    assert((inner + b)[lb + i] == a[la - cap + lb + i]);
                } else {
                    assert((inner + b)[lb + i] == b[lb + i - cap]);
                }
            };
            assert(ring_tail(inner + b, cap) =~= ring_tail(a + b, cap));
        }
    }
}

/// State invariant: a well-formed buffer's window never outgrows its
/// allocation, and a ring's read cursor stays inside the allocation. Every
/// constructor establishes well-formedness and every operation preserves
/// it, so these bounds hold in every reachable state.
pub proof fn lemma_window_within_capacity(b: WaterBuffer)
    requires
        b.wf(),
    ensures
        b@.len() <= b.cap_spec(),
        b.is_circular_spec() && b.cap_spec() > 0 ==> b.start_spec() < b.cap_spec(),
        !b.is_circular_spec() ==> b.start_spec() + b@.len() <= b.cap_spec(),
{
}

/// A ring never retains more than its capacity, and retains the whole
/// history while it fits.
pub proof fn lemma_ring_tail_len(s: Seq<u8>, cap: int)
    requires
        cap >= 0,
    ensures
        ring_tail(s, cap).len() == if s.len() <= cap {
            s.len() as int
        } else {
            cap
        },
        s.len() <= cap ==> ring_tail(s, cap) == s,
{
}

} // verus!
