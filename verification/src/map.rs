//! Map-grid bookkeeping: world boundaries, chunk enumeration around a
//! point, and a deterministic chunk identifier derived from coordinates.

use vstd::prelude::*;

verus! {

/// Largest valid chunk coordinate on the x axis.
pub const MAX_CHUNK_X: i32 = 100;
/// Smallest valid chunk coordinate on the x axis.
pub const MIN_CHUNK_X: i32 = -100;
/// Largest valid chunk coordinate on the y axis.
pub const MAX_CHUNK_Y: i32 = 100;
/// Smallest valid chunk coordinate on the y axis.
pub const MIN_CHUNK_Y: i32 = -100;

/// Manages the game map grid.
pub struct MapManager;

/// A chunk coordinate pair lies within the world boundaries.
pub open spec fn spec_chunk_in_range(chunk_x: int, chunk_y: int) -> bool {
    MIN_CHUNK_X <= chunk_x <= MAX_CHUNK_X && MIN_CHUNK_Y <= chunk_y <= MAX_CHUNK_Y
}

/// Fold a signed coordinate onto the non-negative integers: non-negative
/// values map to the even numbers, negative ones to the odd numbers.
pub open spec fn spec_fold_nonneg(x: int) -> int {
    if x >= 0 {
        2 * x
    } else {
        -2 * x - 1
    }
}

/// Deterministic chunk id from coordinates: both coordinates are folded
/// onto the non-negative integers, then combined with the Cantor pairing
/// function, so distinct in-range chunks get distinct ids.
pub open spec fn spec_chunk_id(chunk_x: int, chunk_y: int) -> int {
    let a = spec_fold_nonneg(chunk_x);
    let b = spec_fold_nonneg(chunk_y);
    (a + b) * (a + b + 1) / 2 + b
}

impl MapManager {
    /// Check if chunk coordinates are within the valid world boundaries.
    pub fn is_chunk_in_valid_range(chunk_x: i32, chunk_y: i32) -> (r: bool)
        ensures
            r == spec_chunk_in_range(chunk_x as int, chunk_y as int),
    {
        chunk_x >= MIN_CHUNK_X && chunk_x <= MAX_CHUNK_X && chunk_y >= MIN_CHUNK_Y && chunk_y
            <= MAX_CHUNK_Y
    }

    /// Generate a deterministic chunk id from in-range coordinates: the
    /// same chunk always gets the same id.
    pub fn generate_chunk_id(chunk_x: i32, chunk_y: i32) -> (r: u64)
        requires
            spec_chunk_in_range(chunk_x as int, chunk_y as int),
        ensures
            r == spec_chunk_id(chunk_x as int, chunk_y as int),
    {
        let a: u64 = if chunk_x >= 0 {
            2 * (chunk_x as u64)
        } else {
            2 * ((-(chunk_x as i64)) as u64) - 1
        };
        let b: u64 = if chunk_y >= 0 {
            2 * (chunk_y as u64)
        } else {
            2 * ((-(chunk_y as i64)) as u64) - 1
        };
        proof {
            assert(a == spec_fold_nonneg(chunk_x as int) && 0 <= a <= 201);
            assert(b == spec_fold_nonneg(chunk_y as int) && 0 <= b <= 201);
            assert((a + b) * (a + b + 1) <= 403 * 404) by (nonlinear_arith)
                requires
                    0 <= a + b <= 402,
            ;
        }
        let s: u64 = a + b;
        (s * (s + 1)) / 2 + b
    }

    /// All chunk coordinates in a square radius around a center, row by
    /// row: the list has one entry for every offset pair (dx, dy) with
    /// both offsets between -radius and radius, in row-major order.
    pub fn get_chunks_in_radius(center_x: i32, center_y: i32, radius: i32) -> (chunks: Vec<
        (i32, i32),
    >)
        requires
            0 <= radius <= 1000,
            -1_000_000 <= center_x <= 1_000_000,
            -1_000_000 <= center_y <= 1_000_000,
        ensures
            chunks@.len() == (2 * radius + 1) * (2 * radius + 1),
            forall|i: int|
                0 <= i < chunks@.len() ==> #[trigger] chunks@[i] == (((center_x + i / (2 * radius
                    + 1) - radius) as i32), ((center_y + i % (2 * radius + 1) - radius) as i32)),
    {
        let mut chunks: Vec<(i32, i32)> = Vec::new();
        let side: i64 = 2 * (radius as i64) + 1;
        let ghost sd: int = 2 * radius + 1;
        let mut dx: i64 = -(radius as i64);
        while dx <= radius as i64
            invariant
                -radius <= dx <= radius + 1,
                side == sd,
                sd == 2 * radius + 1,
                0 <= radius <= 1000,
                -1_000_000 <= center_x <= 1_000_000,
                -1_000_000 <= center_y <= 1_000_000,
                chunks@.len() == (dx + radius) * sd,
                forall|i: int|
                    0 <= i < chunks@.len() ==> #[trigger] chunks@[i] == (((center_x + i / sd
                        - radius) as i32), ((center_y + i % sd - radius) as i32)),
            decreases radius + 1 - dx,
        {
            let mut dy: i64 = -(radius as i64);
            let ghost row_base: int = chunks@.len() as int;
            proof {
                assert((dx + radius) * sd >= 0 && (dx + radius) * sd <= 2000 * 2001)
                    by (nonlinear_arith)
                    requires
                        sd == 2 * radius + 1 && 0 <= radius <= 1000 && -radius <= dx <= radius,
                ;
            }
            while dy <= radius as i64
                invariant
                    -radius <= dx <= radius,
                    -radius <= dy <= radius + 1,
                    side == sd,
                    sd == 2 * radius + 1,
                    0 <= radius <= 1000,
                    -1_000_000 <= center_x <= 1_000_000,
                    -1_000_000 <= center_y <= 1_000_000,
                    row_base == (dx + radius) * sd,
                    0 <= row_base <= 2000 * 2001,
                    chunks@.len() == row_base + (dy + radius),
                    forall|i: int|
                        0 <= i < chunks@.len() ==> #[trigger] chunks@[i] == (((center_x + i / sd
                            - radius) as i32), ((center_y + i % sd - radius) as i32)),
                decreases radius + 1 - dy,
            {
                let cx = ((center_x as i64) + dx) as i32;
                let cy = ((center_y as i64) + dy) as i32;
                chunks.push((cx, cy));
                proof {
                    let n = chunks@.len() - 1;
                    assert(n == (dx + radius) * sd + (dy + radius));
                    assert(n / sd == dx + radius && n % sd == dy + radius) by (nonlinear_arith)
                        requires
                            n == (dx + radius) * sd + (dy + radius) && 0 <= dy + radius < sd && sd
                                > 0,
                    ;
                }
                dy = dy + 1;
            }
            proof {
                assert((dx + radius) * sd + sd == (dx + 1 + radius) * sd) by (nonlinear_arith);
            }
            dx = dx + 1;
        }
        proof {
            assert((radius + 1 + radius) * sd == (2 * radius + 1) * (2 * radius + 1))
                by (nonlinear_arith)
                requires
                    sd == 2 * radius + 1,
            ;
        }
        chunks
    }
}

} // verus!
