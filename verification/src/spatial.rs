//! Chunk-grid spatial helpers: adjacency over discrete chunk coordinates.
//!
//! Converting a continuous world position to a chunk coordinate divides by
//! the chunk size and takes the floor; that conversion works on continuous
//! positions and lives at the host boundary, while the discrete reasoning
//! below is verified.

use vstd::prelude::*;

verus! {

/// Absolute difference of two chunk coordinates, as a mathematical integer.
pub open spec fn spec_abs_diff(a: int, b: int) -> int {
    if a >= b {
        a - b
    } else {
        b - a
    }
}

/// Two chunks are the same or neighbors (Moore neighborhood): both
/// coordinate differences are at most one in absolute value.
pub open spec fn spec_chunks_adjacent(x1: int, y1: int, x2: int, y2: int) -> bool {
    spec_abs_diff(x1, x2) <= 1 && spec_abs_diff(y1, y2) <= 1
}

/// Check if two chunks are the same or neighbors (Moore neighborhood).
pub fn are_chunks_adjacent(x1: i32, y1: i32, x2: i32, y2: i32) -> (r: bool)
    ensures
        r == spec_chunks_adjacent(x1 as int, y1 as int, x2 as int, y2 as int),
{
    let dx = (x1 as i64) - (x2 as i64);
    let dy = (y1 as i64) - (y2 as i64);
    dx >= -1 && dx <= 1 && dy >= -1 && dy <= 1
}

} // verus!
