//! Deterministic fixed-point noise field.
//!
//! Values are in millionths: `NOISE_ONE` stands for full scale (1.0).
//! Coordinates are in quarter-tile steps so that samples taken half a tile
//! away from a tile center stay on the integer lattice.
//!
//! One octave is lattice value noise: a seeded integer hash gives every
//! lattice cell corner a value in `[0, NOISE_ONE]`, and the sample is the
//! bilinear interpolation of the four corners of the containing cell.  A
//! full sample combines three octaves at coarse, medium and fine periods as
//! `min(coarse, min(medium, fine) + DETAIL_LIFT)`, which keeps large
//! low-frequency landmasses while letting higher frequencies carve detail.
use vstd::prelude::*;

verus! {

use vstd::arithmetic::div_mod::lemma_div_is_ordered;
use vstd::arithmetic::div_mod::lemma_div_multiples_vanish;
use vstd::wrapping::u64_specs;
use crate::coords::floor_div_rem;

/// Full scale of a noise value, in millionths.
pub const NOISE_ONE: u32 = 1000000;

/// Amount added to the finer octaves before the combining minimum
/// (one tenth of full scale).
pub const DETAIL_LIFT: u32 = 100000;

/// Lattice period of the coarse octave, in quarter-tile steps
/// (200 tiles).
pub const BASE_PERIOD: i64 = 800;

/// Lattice period of the medium octave (25 tiles).
pub const MID_PERIOD: i64 = 100;

/// Lattice period of the fine octave (six and a quarter tiles).
pub const FINE_PERIOD: i64 = 25;

/// Largest coordinate magnitude, in quarter-tile steps, the sampler
/// accepts without risking overflow in the lattice arithmetic.
pub const SAMPLE_LIMIT: i64 = 281474976710656;

/// Offset that shifts a lattice cell index into nonnegative range before
/// hashing.
pub const CELL_OFFSET: i64 = 2251799813685248;

/// 64-bit finalizing mixer: two rounds of xor-shift and wrapping
/// multiplication by odd constants, spreading every input bit over the
/// whole word.
#[verifier::opaque]
pub closed spec fn mix64_spec(z: u64) -> u64 {
    let a = u64_specs::wrapping_mul(z ^ (z >> 30), 0xBF58476D1CE4E5B9);
    let b = u64_specs::wrapping_mul(a ^ (a >> 27), 0x94D049BB133111EB);
    b ^ (b >> 31)
}

fn mix64(z: u64) -> (r: u64)
    ensures
        r == mix64_spec(z),
{
    proof {
        reveal(mix64_spec);
    }
    let a: u64 = (z ^ (z >> 30)).wrapping_mul(0xBF58476D1CE4E5B9);
    let b: u64 = (a ^ (a >> 27)).wrapping_mul(0x94D049BB133111EB);
    b ^ (b >> 31)
}

/// Pseudo-random corner value of the lattice point `(cx, cy)` under the
/// given seed, in `[0, NOISE_ONE]`.
#[verifier::opaque]
pub closed spec fn corner_value_spec(cx: int, cy: int, seed: u32) -> int {
    let kx = (cx + CELL_OFFSET) as u64;
    let ky = (cy + CELL_OFFSET) as u64;
    let h1 = mix64_spec(((seed as u64) << 32) ^ kx);
    let h2 = mix64_spec(h1 ^ ky);
    (h2 % (NOISE_ONE + 1) as u64) as int
}

fn corner_value(cx: i64, cy: i64, seed: u32) -> (r: u32)
    requires
        -CELL_OFFSET < cx < CELL_OFFSET,
        -CELL_OFFSET < cy < CELL_OFFSET,
    ensures
        r == corner_value_spec(cx as int, cy as int, seed),
        r <= NOISE_ONE,
{
    proof {
        reveal(corner_value_spec);
    }
    let kx: u64 = (cx + CELL_OFFSET) as u64;
    let ky: u64 = (cy + CELL_OFFSET) as u64;
    let h1: u64 = mix64(((seed as u64) << 32) ^ kx);
    let h2: u64 = mix64(h1 ^ ky);
    (h2 % (NOISE_ONE + 1) as u64) as u32
}

/// One octave of lattice value noise at period `p`: the bilinear
/// interpolation, over the fractional position inside the containing
/// lattice cell, of the four pseudo-random corner values.
#[verifier::opaque]
pub closed spec fn octave_value_spec(qx: int, qy: int, p: int, seed: u32) -> int {
    let cx = qx / p;
    let cy = qy / p;
    let fx = qx - cx * p;
    let fy = qy - cy * p;
    let v00 = corner_value_spec(cx, cy, seed);
    let v10 = corner_value_spec(cx + 1, cy, seed);
    let v01 = corner_value_spec(cx, cy + 1, seed);
    let v11 = corner_value_spec(cx + 1, cy + 1, seed);
    ((v00 * (p - fx) + v10 * fx) * (p - fy) + (v01 * (p - fx) + v11 * fx) * fy) / (p * p)
}

#[verifier::rlimit(80)]
fn octave_value(qx: i64, qy: i64, p: i64, seed: u32) -> (r: u32)
    requires
        1 <= p <= BASE_PERIOD,
        -SAMPLE_LIMIT <= qx <= SAMPLE_LIMIT,
        -SAMPLE_LIMIT <= qy <= SAMPLE_LIMIT,
    ensures
        r == octave_value_spec(qx as int, qy as int, p as int, seed),
        r <= NOISE_ONE,
{
    proof {
        reveal(octave_value_spec);
    }
    let (cx, fx) = floor_div_rem(qx, p);
    let (cy, fy) = floor_div_rem(qy, p);
    proof {
        // The quotients stay close to the inputs, so the +1 neighbors are
        // still inside the hashable cell range.
        assert(-CELL_OFFSET < cx < CELL_OFFSET && -CELL_OFFSET < cy < CELL_OFFSET)
            by (nonlinear_arith)
            requires
                qx == p * cx + fx,
                qy == p * cy + fy,
                0 <= fx < p,
                0 <= fy < p,
                1 <= p <= BASE_PERIOD,
                -SAMPLE_LIMIT <= qx <= SAMPLE_LIMIT,
                -SAMPLE_LIMIT <= qy <= SAMPLE_LIMIT,
        ;
    }
    let v00: u64 = corner_value(cx, cy, seed) as u64;
    let v10: u64 = corner_value(cx + 1, cy, seed) as u64;
    let v01: u64 = corner_value(cx, cy + 1, seed) as u64;
    let v11: u64 = corner_value(cx + 1, cy + 1, seed) as u64;
    let pu: u64 = p as u64;
    let fxu: u64 = fx as u64;
    let fyu: u64 = fy as u64;
    proof {
        lemma_lerp_bounded(v00 as int, v10 as int, pu as int, fxu as int);
        lemma_lerp_bounded(v01 as int, v11 as int, pu as int, fxu as int);
    }
    let top: u64 = v00 * (pu - fxu) + v10 * fxu;
    let bot: u64 = v01 * (pu - fxu) + v11 * fxu;
    proof {
        lemma_lerp_bounded2(top as int, bot as int, pu as int, fyu as int);
    }
    let num: u64 = top * (pu - fyu) + bot * fyu;
    let den: u64 = pu * pu;
    proof {
        lemma_div_is_ordered(num as int, NOISE_ONE * (pu * pu), pu as int * pu as int);
        lemma_div_multiples_vanish(NOISE_ONE as int, pu as int * pu as int);
    }
    let r64: u64 = num / den;
    proof {
        let qxi = qx as int;
        let qyi = qy as int;
        let pi = p as int;
        let cxi = qxi / pi;
        let cyi = qyi / pi;
        assert(cx as int == cxi);
        assert(cy as int == cyi);
        assert(cxi * pi == pi * cxi) by (nonlinear_arith);
        assert(cyi * pi == pi * cyi) by (nonlinear_arith);
        assert(fx as int == qxi - cxi * pi);
        assert(fy as int == qyi - cyi * pi);
        assert(r64 as int == octave_value_spec(qxi, qyi, pi, seed));
    }
    r64 as u32
}

/// A convex combination of two values in `[0, NOISE_ONE]` with weights
/// `w` and `p - w` is at most `NOISE_ONE * p`.
proof fn lemma_lerp_bounded(a: int, b: int, p: int, w: int)
    requires
        0 <= a <= NOISE_ONE,
        0 <= b <= NOISE_ONE,
        0 <= w < p,
        1 <= p <= BASE_PERIOD,
    ensures
        0 <= a * (p - w) <= NOISE_ONE * p,
        0 <= b * w <= NOISE_ONE * p,
        0 <= a * (p - w) + b * w <= NOISE_ONE * p,
{
    assert(0 <= a * (p - w) <= NOISE_ONE * p && 0 <= b * w <= NOISE_ONE * p && 0 <= a * (p - w)
        + b * w <= NOISE_ONE * p) by (nonlinear_arith)
        requires
            0 <= a <= NOISE_ONE,
            0 <= b <= NOISE_ONE,
            0 <= w < p,
            1 <= p,
    ;
}

/// A convex combination of two row interpolants bounded by
/// `NOISE_ONE * p` is at most `NOISE_ONE * p * p`.
proof fn lemma_lerp_bounded2(a: int, b: int, p: int, w: int)
    requires
        0 <= a <= NOISE_ONE * p,
        0 <= b <= NOISE_ONE * p,
        0 <= w < p,
        1 <= p <= BASE_PERIOD,
    ensures
        0 <= a * (p - w) <= NOISE_ONE * (p * p),
        0 <= b * w <= NOISE_ONE * (p * p),
        0 <= a * (p - w) + b * w <= NOISE_ONE * (p * p),
        1 <= p * p <= BASE_PERIOD * BASE_PERIOD,
{
    assert(0 <= a * (p - w) <= NOISE_ONE * (p * p) && 0 <= b * w <= NOISE_ONE * (p * p) && 0 <= a
        * (p - w) + b * w <= NOISE_ONE * (p * p) && 1 <= p * p <= BASE_PERIOD * BASE_PERIOD)
        by (nonlinear_arith)
        requires
            0 <= a <= NOISE_ONE * p,
            0 <= b <= NOISE_ONE * p,
            0 <= w < p,
            1 <= p <= BASE_PERIOD,
    ;
}

/// Minimum of two spec integers.
pub open spec fn min_spec(a: int, b: int) -> int {
    if a <= b {
        a
    } else {
        b
    }
}

/// Combined three-octave sample at `(qx, qy)`: the coarse octave bounded
/// above by the lifted minimum of the medium and fine octaves, which is
/// always in `[0, NOISE_ONE]`.
#[verifier::opaque]
pub closed spec fn sample_noise_spec(qx: int, qy: int, seed: u32) -> int {
    let e1 = octave_value_spec(qx, qy, BASE_PERIOD as int, (seed + 1) as u32);
    let e2 = octave_value_spec(qx, qy, MID_PERIOD as int, (seed + 2) as u32);
    let e3 = octave_value_spec(qx, qy, FINE_PERIOD as int, (seed + 3) as u32);
    min_spec(e1, min_spec(e2, e3) + DETAIL_LIFT)
}

/// Samples the combined noise field at `(qx, qy)` (quarter-tile steps)
/// for the given seed.  Pure and deterministic: equal arguments always
/// yield equal results.
pub fn sample_noise(qx: i64, qy: i64, seed: u32) -> (r: u32)
    requires
        seed + 3 <= u32::MAX,
        -SAMPLE_LIMIT <= qx <= SAMPLE_LIMIT,
        -SAMPLE_LIMIT <= qy <= SAMPLE_LIMIT,
    ensures
        r == sample_noise_spec(qx as int, qy as int, seed),
        r <= NOISE_ONE,
{
    proof {
        reveal(sample_noise_spec);
    }
    let e1: u32 = octave_value(qx, qy, BASE_PERIOD, seed + 1);
    let e2: u32 = octave_value(qx, qy, MID_PERIOD, seed + 2);
    let e3: u32 = octave_value(qx, qy, FINE_PERIOD, seed + 3);
    let fine_min: u32 = if e2 <= e3 {
        e2
    } else {
        e3
    };
    let detail: u32 = fine_min + DETAIL_LIFT;
    if e1 <= detail {
        e1
    } else {
        detail
    }
}

} // verus!
