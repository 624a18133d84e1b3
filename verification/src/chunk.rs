//! Materialized chunks and their deterministic construction.
//!
//! A chunk is a rectangular block of classified tiles stored row-major
//! (index `ty * chunk_size_x + tx`).  Building a chunk is a pure function
//! of its coordinate and the world configuration, which makes regeneration
//! reproducible.
use vstd::prelude::*;

verus! {

use vstd::arithmetic::div_mod::lemma_fundamental_div_mod_converse;
use crate::config::TilePolicy;
use crate::config::WorldConfig;
use crate::coords::ChunkCoord;
use crate::coords::TileCoord;
use crate::coords::in_coord_range;
use crate::tile::TileType;
use crate::tile::classify_tile;
use crate::tile::corner_types_spec;
use crate::tile::determine_predominant_tile_type;
use crate::tile::predominant_spec;

/// One materialized chunk: its grid coordinate and its tiles, row-major.
#[derive(Debug, PartialEq)]
pub struct Chunk {
    /// Coordinate of the chunk in the chunk grid.
    pub pos: ChunkCoord,
    /// Terrain of each tile, stored row-major: the tile at `(tx, ty)` is at
    /// index `ty * chunk_size_x + tx`.
    pub tiles: Vec<TileType>,
}

/// The terrain chosen for one tile from its corner samples, following the
/// configured selection policy.
pub open spec fn chunk_tile_spec(pos: ChunkCoord, tile: TileCoord, cfg: WorldConfig) -> TileType {
    let corners = corner_types_spec(pos, tile, cfg);
    match cfg.policy {
        TilePolicy::FirstCorner => corners[0],
        TilePolicy::Predominant => predominant_spec(corners),
    }
}

/// The tile coordinate stored at row-major index `i`.
pub open spec fn tile_coord_of_index(i: int, cfg: WorldConfig) -> TileCoord {
    TileCoord {
        x: (i % cfg.chunk_size_x as int) as u32,
        y: (i / cfg.chunk_size_x as int) as u32,
    }
}

/// The full row-major tile contents of the chunk at `pos`: a pure function
/// of the coordinate and the configuration (which carries the seed).
pub open spec fn chunk_tiles_spec(pos: ChunkCoord, cfg: WorldConfig) -> Seq<TileType> {
    Seq::new(cfg.area() as nat, |i: int| chunk_tile_spec(pos, tile_coord_of_index(i, cfg), cfg))
}

impl Chunk {
    /// Whether this chunk's tile storage matches the configured dimensions.
    pub open spec fn wf(&self, cfg: WorldConfig) -> bool {
        self.tiles@.len() == cfg.area()
    }

    /// The tile at `(tx, ty)`.
    pub fn tile_at(&self, cfg: &WorldConfig, tx: u32, ty: u32) -> (t: TileType)
        requires
            cfg.valid(),
            self.wf(*cfg),
            tx < cfg.chunk_size_x,
            ty < cfg.chunk_size_y,
        ensures
            t == self.tiles@[ty * cfg.chunk_size_x + tx],
    {
        proof {
            lemma_row_major_index_in_area(
                tx as int,
                ty as int,
                cfg.chunk_size_x as int,
                cfg.chunk_size_y as int,
            );
            cfg.lemma_dims_bounded();
        }
        let i: usize = (ty as usize) * (cfg.chunk_size_x as usize) + (tx as usize);
        self.tiles[i]
    }
}

/// A row-major index formed from in-range tile coordinates stays below the
/// chunk area.
proof fn lemma_row_major_index_in_area(tx: int, ty: int, w: int, h: int)
    requires
        0 <= tx < w,
        0 <= ty < h,
        1 <= w,
        1 <= h,
    ensures
        0 <= ty * w <= ty * w + tx < h * w,
{
    assert(0 <= ty * w <= ty * w + tx < h * w) by (nonlinear_arith)
        requires
            0 <= tx < w,
            0 <= ty < h,
            1 <= w,
            1 <= h,
    ;
}

/// World-space origin of the chunk at `pos`: its coordinate scaled by the
/// chunk span in world units.
pub fn world_origin(pos: ChunkCoord, cfg: &WorldConfig) -> (o: (i64, i64))
    requires
        cfg.valid(),
        in_coord_range(pos),
    ensures
        o.0 == pos.x * cfg.span_x(),
        o.1 == pos.y * cfg.span_y(),
{
    let sx: i64 = cfg.chunk_span_x() as i64;
    let sy: i64 = cfg.chunk_span_y() as i64;
    proof {
        cfg.lemma_dims_bounded();
        lemma_origin_in_i64(pos.x as int, sx as int);
        lemma_origin_in_i64(pos.y as int, sy as int);
    }
    (pos.x * sx, pos.y * sy)
}

/// The product of an in-range chunk coordinate and a chunk span fits `i64`.
proof fn lemma_origin_in_i64(c: int, s: int)
    requires
        -crate::coords::CHUNK_COORD_LIMIT <= c <= crate::coords::CHUNK_COORD_LIMIT,
        1 <= s <= crate::config::MAX_CHUNK_DIM * crate::config::MAX_TILE_DIM,
    ensures
        -0x7fffffffffffffff <= c * s <= 0x7fffffffffffffff,
{
    assert(-0x7fffffffffffffff <= c * s <= 0x7fffffffffffffff) by (nonlinear_arith)
        requires
            -crate::coords::CHUNK_COORD_LIMIT <= c <= crate::coords::CHUNK_COORD_LIMIT,
            1 <= s <= crate::config::MAX_CHUNK_DIM * crate::config::MAX_TILE_DIM,
    ;
}

/// Builds the chunk at `pos`: classifies every tile of the
/// `chunk_size_x x chunk_size_y` grid through the noise field and stores
/// the result row-major.  Deterministic: the result is pinned to
/// [`chunk_tiles_spec`], a pure function of `pos` and `cfg`.
pub fn build_chunk(pos: ChunkCoord, cfg: &WorldConfig) -> (c: Chunk)
    requires
        cfg.valid(),
        in_coord_range(pos),
    ensures
        c.pos == pos,
        c.wf(*cfg),
        c.tiles@ == chunk_tiles_spec(pos, *cfg),
{
    let w: u32 = cfg.chunk_size_x;
    let h: u32 = cfg.chunk_size_y;
    let mut tiles: Vec<TileType> = Vec::new();
    let mut ty: u32 = 0;
    proof {
        assert(tiles@ =~= chunk_tiles_spec(pos, *cfg).take(0));
    }
    while ty < h
        invariant
            cfg.valid(),
            in_coord_range(pos),
            w == cfg.chunk_size_x,
            h == cfg.chunk_size_y,
            0 <= ty <= h,
            tiles@.len() == ty * w,
            tiles@ == chunk_tiles_spec(pos, *cfg).take((ty * w) as int),
        decreases h - ty,
    {
        let mut tx: u32 = 0;
        proof {
            lemma_row_major_index_in_area(0, ty as int, w as int, h as int);
        }
        while tx < w
            invariant
                cfg.valid(),
                in_coord_range(pos),
                w == cfg.chunk_size_x,
                h == cfg.chunk_size_y,
                0 <= ty < h,
                0 <= tx <= w,
                tiles@.len() == ty * w + tx,
                tiles@ == chunk_tiles_spec(pos, *cfg).take((ty * w + tx) as int),
            decreases w - tx,
        {
            let corners: [TileType; 4] = classify_tile(
                pos,
                TileCoord { x: tx, y: ty },
                cfg,
            );
            let t: TileType = match cfg.policy {
                TilePolicy::FirstCorner => corners[0],
                TilePolicy::Predominant => determine_predominant_tile_type(&corners),
            };
            proof {
                let i = (ty * w + tx) as int;
                lemma_row_major_index_in_area(tx as int, ty as int, w as int, h as int);
                assert(cfg.area() == h * w) by (nonlinear_arith)
                    requires
                        w == cfg.chunk_size_x,
                        h == cfg.chunk_size_y,
                ;
                // Row-major index decomposition: i = w * ty + tx.
                lemma_fundamental_div_mod_converse(i, w as int, ty as int, tx as int);
                assert(tile_coord_of_index(i, *cfg) == TileCoord { x: tx, y: ty });
                assert(chunk_tiles_spec(pos, *cfg)[i] == chunk_tile_spec(
                    pos,
                    TileCoord { x: tx, y: ty },
                    *cfg,
                ));
                assert(t == chunk_tile_spec(pos, TileCoord { x: tx, y: ty }, *cfg));
                assert(chunk_tiles_spec(pos, *cfg).take(i + 1) =~= chunk_tiles_spec(
                    pos,
                    *cfg,
                ).take(i).push(chunk_tiles_spec(pos, *cfg)[i]));
            }
            tiles.push(t);
            tx = tx + 1;
        }
        proof {
            assert(ty * w + w == (ty + 1) * w) by (nonlinear_arith);
        }
        ty = ty + 1;
    }
    proof {
        assert((h * w) as int == cfg.area()) by (nonlinear_arith)
            requires
                w == cfg.chunk_size_x,
                h == cfg.chunk_size_y,
        ;
        assert(chunk_tiles_spec(pos, *cfg).take(cfg.area()) =~= chunk_tiles_spec(pos, *cfg));
    }
    Chunk { pos, tiles }
}

/// Chunk construction is deterministic: two chunks whose tiles both match
/// the pure tile function of the same coordinate and configuration are
/// tile-for-tile identical.
pub proof fn lemma_build_deterministic(c1: Chunk, c2: Chunk, pos: ChunkCoord, cfg: WorldConfig)
    requires
        c1.tiles@ == chunk_tiles_spec(pos, cfg),
        c2.tiles@ == chunk_tiles_spec(pos, cfg),
    ensures
        c1.tiles@ == c2.tiles@,
{
}

} // verus!
