//! Capacity and growth controller.
//!
//! A single policy decides every new allocation size: double the current
//! capacity while it is small, grow by half beyond [`GROWTH_THRESHOLD`] to
//! bound wasted memory on large buffers, never fall below [`GROWTH_FLOOR`],
//! and always reach at least the required amount.

use vstd::prelude::*;

verus! {

/// Capacity, in bytes, below which the controller doubles the allocation.
/// At or above it, the controller grows by half instead.
pub const GROWTH_THRESHOLD: usize = 4 * 1024 * 1024;

/// Smallest capacity the controller will ever grow to, so that a run of
/// tiny writes on a near-empty buffer does not reallocate once per byte.
pub const GROWTH_FLOOR: usize = 64;

/// The growth policy itself: the geometric step from `current` (doubling
/// below the threshold, one-and-a-half times above it, saturating at the
/// machine limit), raised to `required` when the step alone is not enough,
/// and never below the floor.
pub open spec fn grow_target_spec(current: int, required: int) -> int {
    let geometric = if current < GROWTH_THRESHOLD {
        2 * current
    } else if current + current / 2 <= usize::MAX {
        current + current / 2
    } else {
        usize::MAX as int
    };
    let raised = if geometric > required {
        geometric
    } else {
        required
    };
    if raised < GROWTH_FLOOR {
        GROWTH_FLOOR as int
    } else {
        raised
    }
}

/// Picks the capacity of the next allocation, exactly as
/// [`grow_target_spec`] says. The result covers what is required, never
/// shrinks the buffer, and never falls below the floor.
pub fn grow_target(current: usize, required: usize) -> (new_cap: usize)
    ensures
        new_cap == grow_target_spec(current as int, required as int),
        new_cap >= required,
        new_cap >= current,
        new_cap >= GROWTH_FLOOR,
{
    let geometric: usize = if current < GROWTH_THRESHOLD {
        current * 2
    } else if current / 2 <= usize::MAX - current {
        current + current / 2
    } else {
        usize::MAX
    };
    let mut target: usize = if geometric > required {
        geometric
    } else {
        required
    };
    if target < GROWTH_FLOOR {
        target = GROWTH_FLOOR;
    }
    target
}

} // verus!
