//! Coordinate types of the world grid and the floor-division arithmetic that
//! maps between them.
//!
//! A `WorldPos` is an integer world-space position (the host rounds its
//! floating-point camera position to whole world units before handing it to
//! this crate).  A `ChunkCoord` addresses one chunk in the infinite grid and
//! a `TileCoord` addresses one tile inside a chunk.
use vstd::prelude::*;

verus! {

use vstd::arithmetic::div_mod::lemma_fundamental_div_mod;
use vstd::arithmetic::div_mod::lemma_fundamental_div_mod_converse;
use vstd::arithmetic::div_mod::lemma_mod_bound;

/// Coordinate of a chunk in the infinite chunk grid.
#[derive(Clone, Copy, Debug, PartialEq, Eq, Structural, Hash)]
pub struct ChunkCoord {
    pub x: i64,
    pub y: i64,
}

/// Offset of a tile inside a chunk, bounded by the configured chunk size.
#[derive(Clone, Copy, Debug, PartialEq, Eq, Structural, Hash)]
pub struct TileCoord {
    pub x: u32,
    pub y: u32,
}

/// Integer world-space position of the viewer (camera).
#[derive(Clone, Copy, Debug, PartialEq, Eq, Structural, Hash)]
pub struct WorldPos {
    pub x: i32,
    pub y: i32,
}

/// Largest chunk-coordinate magnitude the world-space arithmetic supports
/// without overflow; every coordinate a tracker ever loads stays within it.
pub const CHUNK_COORD_LIMIT: i64 = 17179869184;

/// Whether both components of a chunk coordinate are small enough for
/// world-space products (origin, distances) to stay within `i64`/`i128`.
pub open spec fn in_coord_range(c: ChunkCoord) -> bool {
    &&& -CHUNK_COORD_LIMIT <= c.x <= CHUNK_COORD_LIMIT
    &&& -CHUNK_COORD_LIMIT <= c.y <= CHUNK_COORD_LIMIT
}

/// Bound on the numerators accepted by [`floor_div`].
pub const FLOOR_DIV_LIMIT: i64 = 0x4000000000000000;

/// Division rounding towards negative infinity.  In specifications this is
/// simply `/`, since Verus interprets `/` on `int` as Euclidean division,
/// which agrees with flooring for positive divisors.
pub fn floor_div(a: i64, b: i64) -> (q: i64)
    requires
        0 < b <= FLOOR_DIV_LIMIT,
        -FLOOR_DIV_LIMIT <= a <= FLOOR_DIV_LIMIT,
    ensures
        q == a as int / b as int,
{
    let bu: u64 = b as u64;
    if a >= 0 {
        let qu: u64 = (a as u64) / bu;
        proof {
            lemma_fundamental_div_mod(a as int, b as int);
            lemma_mod_bound(a as int, b as int);
        }
        qu as i64
    } else {
        // For a < 0, floor(a / b) == -ceil(-a / b) == -((-a + b - 1) / b).
        let m: u64 = (-a) as u64;
        let nq: u64 = (m + bu - 1) / bu;
        proof {
            let mi = m as int;
            let bi = b as int;
            let nqi = nq as int;
            lemma_fundamental_div_mod(mi + bi - 1, bi);
            lemma_mod_bound(mi + bi - 1, bi);
            let rr = (mi + bi - 1) % bi;
            // a == (-nq) * b + (b - 1 - rr), with the remainder in [0, b),
            // so -nq is the Euclidean quotient of a by b.
            assert(a as int == (-nqi) * bi + (bi - 1 - rr)) by (nonlinear_arith)
                requires
                    mi + bi - 1 == bi * nqi + rr,
                    a as int == -mi,
            ;
            lemma_fundamental_div_mod_converse(a as int, bi, -nqi, bi - 1 - rr);
        }
        -(nq as i64)
    }
}

/// Floor division followed by the matching remainder: returns `(q, r)` with
/// `a == q * b + r` and `0 <= r < b`.
pub fn floor_div_rem(a: i64, b: i64) -> (qr: (i64, i64))
    requires
        0 < b <= FLOOR_DIV_LIMIT,
        -FLOOR_DIV_LIMIT <= a <= FLOOR_DIV_LIMIT,
    ensures
        qr.0 == a as int / b as int,
        qr.1 == a as int % b as int,
        a == b * qr.0 + qr.1,
        0 <= qr.1 < b,
{
    let q: i64 = floor_div(a, b);
    proof {
        lemma_fundamental_div_mod(a as int, b as int);
        lemma_mod_bound(a as int, b as int);
    }
    let r: i64 = a - b * q;
    (q, r)
}

} // verus!
