//! Mathematical model of the buffer's contents.
//!
//! Contracts speak about a buffer as a sequence of bytes. The two write
//! disciplines are captured by two sequence-level notions: a linear buffer's
//! contents simply concatenate, while a ring of capacity `cap` retains
//! [`ring_tail`] of everything written, the most recent `cap` bytes in
//! write order.

use vstd::arithmetic::div_mod::lemma_add_mod_noop;
use vstd::arithmetic::div_mod::lemma_mod_division_less_than_divisor;
use vstd::arithmetic::div_mod::lemma_mod_multiples_vanish;
use vstd::arithmetic::div_mod::lemma_small_mod;
use vstd::arithmetic::div_mod::lemma_sub_mod_noop;
use vstd::prelude::*;

verus! {

/// The bytes a ring of capacity `cap` retains out of the write history `s`:
/// all of `s` while it fits, otherwise the last `cap` bytes, in order.
pub open spec fn ring_tail(s: Seq<u8>, cap: int) -> Seq<u8> {
    if s.len() <= cap {
        s
    } else {
        s.skip(s.len() - cap)
    }
}

/// The logical window of a ring whose storage is `d`, read cursor `start`,
/// and byte count `filled`: position `i` of the window lives at physical
/// slot `(start + i)` wrapped modulo the allocation size.
pub open spec fn ring_window(d: Seq<u8>, start: int, filled: int) -> Seq<u8> {
    Seq::new(filled as nat, |i: int| d[(start + i) % (d.len() as int)])
}

/// A sum of two in-range cursors wraps at most once, so reducing it modulo
/// the capacity is a single conditional subtraction.
pub proof fn lemma_wrap(x: int, c: int)
    requires
        0 < c,
        0 <= x < 2 * c,
    ensures
        x % c == if x < c {
            x
        } else {
            x - c
        },
{
    if x < c {
        lemma_small_mod(x as nat, c as nat);
    } else {
        lemma_mod_multiples_vanish(1, x - c, c);
        lemma_small_mod((x - c) as nat, c as nat);
    }
}

/// Shifting a wrapped cursor by an in-range offset wraps the shifted sum:
/// `((x % c) + i) % c == (x + i) % c` with the left side's inner value
/// already reduced.
pub proof fn lemma_wrap_shift(x: int, i: int, c: int)
    requires
        0 < c,
        0 <= i < c,
    ensures
        (x % c + i) % c == (x + i) % c,
{
    lemma_small_mod(i as nat, c as nat);
    lemma_add_mod_noop(x, i, c);
}

/// Effect of one ring write on the logical window.
///
/// A slice `s` shorter than the ring is written physically as two
/// contiguous runs: the tail run at the write cursor `w`, and whatever
/// wraps around at slot zero. The window afterwards, read from the evicted
/// cursor `ns` for the new count `nf`, is exactly the ring's retention of
/// the old window with `s` appended.
pub proof fn lemma_ring_write(
    d0: Seq<u8>,
    d1: Seq<u8>,
    s: Seq<u8>,
    start: int,
    filled: int,
    w: int,
    first: int,
    over: int,
    ns: int,
    nf: int,
)
    requires
        d0.len() == d1.len(),
        d0.len() > 0,
        0 <= start < d0.len(),
        0 <= filled <= d0.len(),
        s.len() <= d0.len(),
        w == (start + filled) % (d0.len() as int),
        first == if (d0.len() as int) - w < s.len() {
            (d0.len() as int) - w
        } else {
            s.len() as int
        },
        over == if filled + s.len() > d0.len() {
            filled + s.len() - d0.len()
        } else {
            0int
        },
        ns == (start + over) % (d0.len() as int),
        nf == if filled + s.len() > d0.len() {
            d0.len() as int
        } else {
            filled + s.len()
        },
        forall|k: int| w <= k < w + first ==> d1[k] == s[k - w],
        forall|k: int| 0 <= k < s.len() - first ==> d1[k] == s[first + k],
        forall|k: int|
            0 <= k < d0.len() && !(w <= k < w + first) && !(0 <= k < s.len() - first) ==> d1[k]
                == d0[k],
    ensures
        ring_window(d1, ns, nf) == ring_tail(ring_window(d0, start, filled) + s, d0.len() as int),
{
    let c = d0.len() as int;
    let n = s.len() as int;
    let old_win = ring_window(d0, start, filled);
    let rhs = ring_tail(old_win + s, c);
    lemma_mod_division_less_than_divisor(start + filled, c);
    assert(rhs.len() == nf);
    assert forall|i: int| 0 <= i < nf implies ring_window(d1, ns, nf)[i] == rhs[i] by {
        lemma_wrap_shift(start + over, i, c);
        let k = (start + over + i) % c;
        lemma_mod_division_less_than_divisor(start + over + i, c);
        lemma_sub_mod_noop(start + over + i, start + filled, c);
        assert((k - w) % c == (over + i - filled) % c);
        if over + i < filled {
            // This byte survives from the old window; it was not rewritten.
            lemma_mod_multiples_vanish(1, over + i - filled, c);
            lemma_small_mod((over + i - filled + c) as nat, c as nat);
            let dd = over + i - filled + c;
            assert((k - w) % c == dd);
            assert(dd >= n);
            if w <= k < w + first {
                lemma_small_mod((k - w) as nat, c as nat);
                assert(false);
            }
            if 0 <= k < n - first {
                assert(first == c - w);
                lemma_mod_multiples_vanish(1, k - w, c);
                lemma_small_mod((k - w + c) as nat, c as nat);
                assert(false);
            }
            assert(d1[k] == d0[k]);
            assert(rhs[i] == old_win[over + i]);
        } else {
            // This byte comes from the new slice; locate it in the runs.
            let dd = over + i - filled;
            lemma_small_mod(dd as nat, c as nat);
            assert((k - w) % c == dd);
            assert(0 <= dd < n);
            if dd < first {
                if k >= w {
                    lemma_small_mod((k - w) as nat, c as nat);
                    assert(k == w + dd);
                } else {
                    lemma_mod_multiples_vanish(1, k - w, c);
                    lemma_small_mod((k - w + c) as nat, c as nat);
                    assert(k == w + dd - c);
                    assert(false);
                }
                assert(d1[k] == s[dd]);
            } else {
                assert(first == c - w);
                if k >= w {
                    lemma_small_mod((k - w) as nat, c as nat);
                    assert(false);
                } else {
                    lemma_mod_multiples_vanish(1, k - w, c);
                    lemma_small_mod((k - w + c) as nat, c as nat);
                    assert(k == dd - first);
                }
                assert(d1[k] == s[dd]);
            }
            assert(rhs[i] == s[dd]);
        }
    };
    assert(ring_window(d1, ns, nf) =~= rhs);
}

} // verus!
