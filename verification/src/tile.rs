//! Terrain types, the fixed-threshold classifier that maps noise values to
//! them, and the per-tile corner sampling.
use vstd::prelude::*;

verus! {

use crate::config::WorldConfig;
use crate::coords::ChunkCoord;
use crate::coords::TileCoord;
use crate::coords::in_coord_range;
use crate::noise::NOISE_ONE;
use crate::noise::SAMPLE_LIMIT;
use crate::noise::sample_noise;
use crate::noise::sample_noise_spec;

/// Closed set of terrain categories a tile can take.
#[derive(Clone, Copy, Debug, PartialEq, Eq, Structural, Hash)]
pub enum TileType {
    Grass,
    Dirt,
    Water,
}

/// One tile of a materialized chunk.
#[derive(Clone, Copy, Debug, PartialEq, Eq, Structural, Hash)]
pub struct Tile {
    pub tile_type: TileType,
}

/// Largest noise value classified as water, in millionths of full scale.
pub const WATER_MAX: u32 = 150000;

/// Largest noise value classified as dirt; everything above is grass.
pub const DIRT_MAX: u32 = 320000;

/// Threshold-band classification of a noise value: at most `WATER_MAX` is
/// water, at most `DIRT_MAX` is dirt, anything larger is grass.
pub open spec fn classify_spec(v: int) -> TileType {
    if v <= WATER_MAX {
        TileType::Water
    } else if v <= DIRT_MAX {
        TileType::Dirt
    } else {
        TileType::Grass
    }
}

/// Maps a sampled noise value (in millionths, see [`crate::noise`]) to its
/// terrain category using the fixed threshold bands.
pub fn classify(v: u32) -> (t: TileType)
    ensures
        t == classify_spec(v as int),
{
    if v <= WATER_MAX {
        TileType::Water
    } else if v <= DIRT_MAX {
        TileType::Dirt
    } else {
        TileType::Grass
    }
}

/// Terrain category of the noise field at a point given in quarter-tile
/// steps.
pub open spec fn sample_point_type(qx: int, qy: int, seed: u32) -> TileType {
    classify_spec(sample_noise_spec(qx, qy, seed))
}

/// Classifies the noise field at `(qx, qy)` (quarter-tile steps) under the
/// given seed.
pub fn sample_tile_type(qx: i64, qy: i64, seed: u32) -> (t: TileType)
    requires
        seed + 3 <= u32::MAX,
        -SAMPLE_LIMIT <= qx <= SAMPLE_LIMIT,
        -SAMPLE_LIMIT <= qy <= SAMPLE_LIMIT,
    ensures
        t == sample_point_type(qx as int, qy as int, seed),
{
    let e: u32 = sample_noise(qx, qy, seed);
    classify(e)
}

/// The four corner classifications of a tile, in the order upper-left,
/// upper-right, lower-left, lower-right, sampled half a tile away from the
/// tile's world position.
pub open spec fn corner_types_spec(chunk: ChunkCoord, tile: TileCoord, cfg: WorldConfig) -> Seq<
    TileType,
> {
    let qx = 4 * (chunk.x * cfg.chunk_size_x + tile.x);
    let qy = 4 * (chunk.y * cfg.chunk_size_y + tile.y);
    seq![
        sample_point_type(qx - 2, qy + 2, cfg.seed),
        sample_point_type(qx + 2, qy + 2, cfg.seed),
        sample_point_type(qx - 2, qy - 2, cfg.seed),
        sample_point_type(qx + 2, qy - 2, cfg.seed),
    ]
}

/// Samples and classifies the four corners of the tile at `tile` inside the
/// chunk at `chunk`.
pub fn classify_tile(chunk: ChunkCoord, tile: TileCoord, cfg: &WorldConfig) -> (r: [TileType; 4])
    requires
        cfg.valid(),
        in_coord_range(chunk),
        tile.x < cfg.chunk_size_x,
        tile.y < cfg.chunk_size_y,
    ensures
        r@ == corner_types_spec(chunk, tile, *cfg),
{
    proof {
        lemma_tile_sample_bounds(chunk.x as int, cfg.chunk_size_x as int, tile.x as int);
        lemma_tile_sample_bounds(chunk.y as int, cfg.chunk_size_y as int, tile.y as int);
    }
    let wx: i64 = chunk.x * (cfg.chunk_size_x as i64) + (tile.x as i64);
    let wy: i64 = chunk.y * (cfg.chunk_size_y as i64) + (tile.y as i64);
    let qx: i64 = 4 * wx;
    let qy: i64 = 4 * wy;
    let t0 = sample_tile_type(qx - 2, qy + 2, cfg.seed);
    let t1 = sample_tile_type(qx + 2, qy + 2, cfg.seed);
    let t2 = sample_tile_type(qx - 2, qy - 2, cfg.seed);
    let t3 = sample_tile_type(qx + 2, qy - 2, cfg.seed);
    let r = [t0, t1, t2, t3];
    proof {
        assert(r@ =~= corner_types_spec(chunk, tile, *cfg));
    }
    r
}

/// The quarter-tile position of any tile of an in-range chunk stays well
/// inside the sampler's coordinate limit.
proof fn lemma_tile_sample_bounds(c: int, dim: int, t: int)
    requires
        -crate::coords::CHUNK_COORD_LIMIT <= c <= crate::coords::CHUNK_COORD_LIMIT,
        1 <= dim <= crate::config::MAX_CHUNK_DIM,
        0 <= t < dim,
    ensures
        -SAMPLE_LIMIT <= 4 * (c * dim + t) - 2,
        4 * (c * dim + t) + 2 <= SAMPLE_LIMIT,
        -0x4000000000000000 <= c * dim + t <= 0x4000000000000000,
{
    assert(-SAMPLE_LIMIT <= 4 * (c * dim + t) - 2 && 4 * (c * dim + t) + 2 <= SAMPLE_LIMIT
        && -0x4000000000000000 <= c * dim + t <= 0x4000000000000000) by (nonlinear_arith)
        requires
            -crate::coords::CHUNK_COORD_LIMIT <= c <= crate::coords::CHUNK_COORD_LIMIT,
            1 <= dim <= crate::config::MAX_CHUNK_DIM,
            0 <= t < dim,
    ;
}

/// Number of occurrences of `t` in `s`.
pub open spec fn count_of(s: Seq<TileType>, t: TileType) -> nat {
    s.filter(|x: TileType| x == t).len()
}

/// Appending one element raises its own count by one and leaves every other
/// count unchanged.
proof fn lemma_count_push(s: Seq<TileType>, e: TileType, t: TileType)
    ensures
        e == t ==> count_of(s.push(e), t) == count_of(s, t) + 1,
        e != t ==> count_of(s.push(e), t) == count_of(s, t),
{
    reveal(Seq::filter);
    assert(s.push(e).drop_last() =~= s);
    assert(s.push(e).last() == e);
}

/// Counts how many of the four corner samples equal `t`.
fn count_matches(blocks: &[TileType; 4], t: TileType) -> (n: usize)
    ensures
        n == count_of(blocks@, t),
{
    let ghost pred = |x: TileType| x == t;
    let mut n: usize = 0;
    let mut i: usize = 0;
    proof {
        assert(blocks@.take(0) =~= Seq::<TileType>::empty());
        blocks@.take(0).lemma_all_neg_filter_empty(pred);
    }
    while i < 4
        invariant
            0 <= i <= 4,
            blocks@.len() == 4,
            n == count_of(blocks@.take(i as int), t),
            n <= i,
        decreases 4 - i,
    {
        proof {
            assert(blocks@.take(i + 1) =~= blocks@.take(i as int).push(blocks@[i as int]));
            lemma_count_push(blocks@.take(i as int), blocks@[i as int], t);
        }
        if blocks[i] == t {
            n = n + 1;
        }
        i = i + 1;
    }
    proof {
        assert(blocks@.take(4) =~= blocks@);
    }
    n
}

/// `j` indexes a predominant element of `s`: no element's count exceeds the
/// count at `j`, and every earlier element's count is strictly smaller.
pub open spec fn predominant_at(s: Seq<TileType>, j: int) -> bool {
    &&& 0 <= j < s.len()
    &&& forall|k: int| 0 <= k < s.len() ==> count_of(s, s[k]) <= count_of(s, #[trigger] s[j])
    &&& forall|k: int| 0 <= k < j ==> count_of(s, #[trigger] s[k]) < count_of(s, s[j])
}

/// At most one index of a sequence can be predominant: a later one would
/// need a strictly larger count than an earlier one and vice versa.
pub proof fn lemma_predominant_unique(s: Seq<TileType>, j1: int, j2: int)
    requires
        predominant_at(s, j1),
        predominant_at(s, j2),
    ensures
        j1 == j2,
{
    if j1 < j2 {
        assert(count_of(s, s[j1]) < count_of(s, s[j2]));
        assert(count_of(s, s[j2]) <= count_of(s, s[j1]));
    }
    if j2 < j1 {
        assert(count_of(s, s[j2]) < count_of(s, s[j1]));
        assert(count_of(s, s[j1]) <= count_of(s, s[j2]));
    }
}

/// The unique predominant index of `s` (meaningful whenever one exists).
pub open spec fn predominant_index(s: Seq<TileType>) -> int {
    choose|j: int| predominant_at(s, j)
}

/// The element at the predominant index: the most frequent element of `s`,
/// ties resolved in favor of the earliest first occurrence.
pub open spec fn predominant_spec(s: Seq<TileType>) -> TileType {
    s[predominant_index(s)]
}

/// Picks the most frequent of the four corner classifications; on a tie the
/// one whose first occurrence comes earliest wins.
pub fn determine_predominant_tile_type(blocks: &[TileType; 4]) -> (t: TileType)
    ensures
        t == predominant_spec(blocks@),
        exists|j: int| predominant_at(blocks@, j) && blocks@[j] == t,
        forall|u: TileType| count_of(blocks@, u) <= count_of(blocks@, t),
{
    let mut best: TileType = blocks[0];
    let mut best_j: usize = 0;
    let mut best_count: usize = count_matches(blocks, best);
    let mut i: usize = 1;
    while i < 4
        invariant
            1 <= i <= 4,
            blocks@.len() == 4,
            0 <= best_j < i,
            blocks@[best_j as int] == best,
            best_count == count_of(blocks@, best),
            forall|k: int| 0 <= k < i ==> count_of(blocks@, #[trigger] blocks@[k]) <= best_count,
            forall|k: int| 0 <= k < best_j ==> count_of(blocks@, #[trigger] blocks@[k])
                < best_count,
        decreases 4 - i,
    {
        let c: usize = count_matches(blocks, blocks[i]);
        if c > best_count {
            best = blocks[i];
            best_j = i;
            best_count = c;
        }
        i = i + 1;
    }
    proof {
        assert(predominant_at(blocks@, best_j as int));
        lemma_predominant_unique(blocks@, best_j as int, predominant_index(blocks@));
        assert forall|u: TileType| count_of(blocks@, u) <= count_of(blocks@, best) by {
            if blocks@.contains(u) {
                let k = choose|k: int| 0 <= k < blocks@.len() && blocks@[k] == u;
                assert(count_of(blocks@, blocks@[k]) <= best_count);
            } else {
                blocks@.lemma_all_neg_filter_empty(|x: TileType| x == u);
            }
        }
    }
    best
}

/// Texture-atlas index the host renderer uses for a terrain category.
pub fn tile_type_to_texture_index(tile_type: TileType) -> (idx: u32)
    ensures
        tile_type == TileType::Grass ==> idx == 63,
        tile_type == TileType::Dirt ==> idx == 83,
        tile_type == TileType::Water ==> idx == 247,
{
    match tile_type {
        TileType::Grass => 63,
        TileType::Dirt => 83,
        TileType::Water => 247,
    }
}

} // verus!
