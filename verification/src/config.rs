//! Static world configuration, validated once at startup.
//!
//! All dimensions are positive integers in world units; the upper limits
//! exist so that every product computed by the chunk arithmetic (chunk
//! spans, world origins, squared distances) provably fits the machine
//! integer types.
use vstd::prelude::*;

verus! {

/// How a tile's terrain category is chosen from its four corner samples.
#[derive(Clone, Copy, Debug, PartialEq, Eq, Structural, Hash)]
pub enum TilePolicy {
    /// Use the classification of the first corner sample.
    FirstCorner,
    /// Use the most frequent corner classification, earliest corner first on
    /// ties.
    Predominant,
}

/// Reason a configuration was rejected at startup.
#[derive(Clone, Copy, Debug, PartialEq, Eq, Structural, Hash)]
pub enum ConfigError {
    ChunkSizeOutOfRange,
    TileSizeOutOfRange,
    RadiusOutOfRange,
    EvictDistanceOutOfRange,
    SeedOutOfRange,
}

/// Largest accepted chunk dimension, in tiles.
pub const MAX_CHUNK_DIM: u32 = 1024;

/// Largest accepted tile dimension, in world units.
pub const MAX_TILE_DIM: u32 = 1024;

/// Largest accepted load radius, in chunks.
pub const MAX_RADIUS: u32 = 255;

/// Largest accepted eviction distance, in world units.
pub const MAX_EVICT_DISTANCE: u32 = 1073741824;

/// Largest accepted noise seed; three consecutive seeds above it must still
/// fit in `u32` for the octave generators.
pub const MAX_SEED: u32 = 4294967292;

/// Immutable configuration of a world: chunk and tile dimensions, load
/// radius, noise seed, eviction distance and the tile selection policy.
#[derive(Clone, Copy, Debug, PartialEq, Eq, Structural, Hash)]
pub struct WorldConfig {
    /// Width of a chunk, in tiles.
    pub chunk_size_x: u32,
    /// Height of a chunk, in tiles.
    pub chunk_size_y: u32,
    /// Width of a tile, in world units.
    pub tile_size_x: u32,
    /// Height of a tile, in world units.
    pub tile_size_y: u32,
    /// Half-width of the box of desired chunks around the viewer, in chunks.
    pub radius_x: u32,
    /// Half-height of the box of desired chunks around the viewer, in chunks.
    pub radius_y: u32,
    /// Seed of the deterministic noise field.
    pub seed: u32,
    /// A loaded chunk whose origin is farther than this from the viewer is
    /// evicted (compared by squared Euclidean distance).
    pub evict_distance: u32,
    /// How a tile's category is chosen from its corner samples.
    pub policy: TilePolicy,
}

impl WorldConfig {
    /// Whether every field is within the documented positive bounds.
    pub open spec fn valid(&self) -> bool {
        &&& 1 <= self.chunk_size_x <= MAX_CHUNK_DIM
        &&& 1 <= self.chunk_size_y <= MAX_CHUNK_DIM
        &&& 1 <= self.tile_size_x <= MAX_TILE_DIM
        &&& 1 <= self.tile_size_y <= MAX_TILE_DIM
        &&& 1 <= self.radius_x <= MAX_RADIUS
        &&& 1 <= self.radius_y <= MAX_RADIUS
        &&& 1 <= self.evict_distance <= MAX_EVICT_DISTANCE
        &&& self.seed <= MAX_SEED
    }

    /// Width of a chunk in world units.
    pub open spec fn span_x(&self) -> int {
        self.chunk_size_x * self.tile_size_x
    }

    /// Height of a chunk in world units.
    pub open spec fn span_y(&self) -> int {
        self.chunk_size_y * self.tile_size_y
    }

    /// Number of tiles in a chunk.
    pub open spec fn area(&self) -> int {
        self.chunk_size_x * self.chunk_size_y
    }

    /// Validates the given dimensions and assembles a configuration,
    /// reporting the first field group (chunk size, tile size, radius,
    /// eviction distance, seed, in that order) that is zero or above its
    /// limit.
    pub fn new(
        chunk_size_x: u32,
        chunk_size_y: u32,
        tile_size_x: u32,
        tile_size_y: u32,
        radius_x: u32,
        radius_y: u32,
        seed: u32,
        evict_distance: u32,
        policy: TilePolicy,
    ) -> (r: Result<WorldConfig, ConfigError>)
        ensures
            r matches Ok(c) ==> {
                &&& c.chunk_size_x == chunk_size_x
                &&& c.chunk_size_y == chunk_size_y
                &&& c.tile_size_x == tile_size_x
                &&& c.tile_size_y == tile_size_y
                &&& c.radius_x == radius_x
                &&& c.radius_y == radius_y
                &&& c.seed == seed
                &&& c.evict_distance == evict_distance
                &&& c.policy == policy
                &&& c.valid()
            },
            (r matches Err(e) && e == ConfigError::ChunkSizeOutOfRange) <==> !(1
                <= chunk_size_x <= MAX_CHUNK_DIM && 1 <= chunk_size_y <= MAX_CHUNK_DIM),
            (r matches Err(e) && e == ConfigError::TileSizeOutOfRange) <==> (1 <= chunk_size_x
                <= MAX_CHUNK_DIM && 1 <= chunk_size_y <= MAX_CHUNK_DIM && !(1 <= tile_size_x
                <= MAX_TILE_DIM && 1 <= tile_size_y <= MAX_TILE_DIM)),
            (r matches Err(e) && e == ConfigError::RadiusOutOfRange) <==> (1 <= chunk_size_x
                <= MAX_CHUNK_DIM && 1 <= chunk_size_y <= MAX_CHUNK_DIM && 1 <= tile_size_x
                <= MAX_TILE_DIM && 1 <= tile_size_y <= MAX_TILE_DIM && !(1 <= radius_x
                <= MAX_RADIUS && 1 <= radius_y <= MAX_RADIUS)),
            (r matches Err(e) && e == ConfigError::EvictDistanceOutOfRange) <==> (1
                <= chunk_size_x <= MAX_CHUNK_DIM && 1 <= chunk_size_y <= MAX_CHUNK_DIM && 1
                <= tile_size_x <= MAX_TILE_DIM && 1 <= tile_size_y <= MAX_TILE_DIM && 1
                <= radius_x <= MAX_RADIUS && 1 <= radius_y <= MAX_RADIUS && !(1
                <= evict_distance <= MAX_EVICT_DISTANCE)),
            (r matches Err(e) && e == ConfigError::SeedOutOfRange) <==> (1 <= chunk_size_x
                <= MAX_CHUNK_DIM && 1 <= chunk_size_y <= MAX_CHUNK_DIM && 1 <= tile_size_x
                <= MAX_TILE_DIM && 1 <= tile_size_y <= MAX_TILE_DIM && 1 <= radius_x
                <= MAX_RADIUS && 1 <= radius_y <= MAX_RADIUS && 1 <= evict_distance
                <= MAX_EVICT_DISTANCE && seed > MAX_SEED),
            r is Ok <==> (1 <= chunk_size_x <= MAX_CHUNK_DIM && 1 <= chunk_size_y
                <= MAX_CHUNK_DIM && 1 <= tile_size_x <= MAX_TILE_DIM && 1 <= tile_size_y
                <= MAX_TILE_DIM && 1 <= radius_x <= MAX_RADIUS && 1 <= radius_y <= MAX_RADIUS
                && 1 <= evict_distance <= MAX_EVICT_DISTANCE && seed <= MAX_SEED),
    {
        if chunk_size_x < 1 || chunk_size_x > MAX_CHUNK_DIM || chunk_size_y < 1 || chunk_size_y
            > MAX_CHUNK_DIM {
            Err(ConfigError::ChunkSizeOutOfRange)
        } else if tile_size_x < 1 || tile_size_x > MAX_TILE_DIM || tile_size_y < 1 || tile_size_y
            > MAX_TILE_DIM {
            Err(ConfigError::TileSizeOutOfRange)
        } else if radius_x < 1 || radius_x > MAX_RADIUS || radius_y < 1 || radius_y > MAX_RADIUS {
            Err(ConfigError::RadiusOutOfRange)
        } else if evict_distance < 1 || evict_distance > MAX_EVICT_DISTANCE {
            Err(ConfigError::EvictDistanceOutOfRange)
        } else if seed > MAX_SEED {
            Err(ConfigError::SeedOutOfRange)
        } else {
            Ok(
                WorldConfig {
                    chunk_size_x,
                    chunk_size_y,
                    tile_size_x,
                    tile_size_y,
                    radius_x,
                    radius_y,
                    seed,
                    evict_distance,
                    policy,
                },
            )
        }
    }

    /// The spans and area of a valid configuration are positive and small:
    /// products of two factors that are each between 1 and 1024.
    pub proof fn lemma_dims_bounded(&self)
        requires
            self.valid(),
        ensures
            1 <= self.span_x() <= MAX_CHUNK_DIM * MAX_TILE_DIM,
            1 <= self.span_y() <= MAX_CHUNK_DIM * MAX_TILE_DIM,
            1 <= self.area() <= MAX_CHUNK_DIM * MAX_CHUNK_DIM,
    {
        assert(1 <= self.chunk_size_x * self.tile_size_x <= MAX_CHUNK_DIM * MAX_TILE_DIM && 1
            <= self.chunk_size_y * self.tile_size_y <= MAX_CHUNK_DIM * MAX_TILE_DIM && 1
            <= self.chunk_size_x * self.chunk_size_y <= MAX_CHUNK_DIM * MAX_CHUNK_DIM)
            by (nonlinear_arith)
            requires
                1 <= self.chunk_size_x <= MAX_CHUNK_DIM,
                1 <= self.chunk_size_y <= MAX_CHUNK_DIM,
                1 <= self.tile_size_x <= MAX_TILE_DIM,
                1 <= self.tile_size_y <= MAX_TILE_DIM,
        ;
    }

    /// Width of a chunk in world units, as an executable value.
    pub fn chunk_span_x(&self) -> (r: u32)
        requires
            self.valid(),
        ensures
            r == self.span_x(),
    {
        proof {
            assert(self.chunk_size_x * self.tile_size_x <= MAX_CHUNK_DIM * MAX_TILE_DIM)
                by (nonlinear_arith)
                requires
                    1 <= self.chunk_size_x <= MAX_CHUNK_DIM,
                    1 <= self.tile_size_x <= MAX_TILE_DIM,
            ;
        }
        self.chunk_size_x * self.tile_size_x
    }

    /// Height of a chunk in world units, as an executable value.
    pub fn chunk_span_y(&self) -> (r: u32)
        requires
            self.valid(),
        ensures
            r == self.span_y(),
    {
        proof {
            assert(self.chunk_size_y * self.tile_size_y <= MAX_CHUNK_DIM * MAX_TILE_DIM)
                by (nonlinear_arith)
                requires
                    1 <= self.chunk_size_y <= MAX_CHUNK_DIM,
                    1 <= self.tile_size_y <= MAX_TILE_DIM,
            ;
        }
        self.chunk_size_y * self.tile_size_y
    }
}

} // verus!
