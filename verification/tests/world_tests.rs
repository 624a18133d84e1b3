use demo_core::chunk::build_chunk;
use demo_core::chunk::world_origin;
use demo_core::config::TilePolicy;
use demo_core::config::WorldConfig;
use demo_core::coords::ChunkCoord;
use demo_core::coords::WorldPos;
use demo_core::coords::floor_div;
use demo_core::tracker::ChunkManager;
use demo_core::tracker::camera_pos_to_chunk_pos;
use demo_core::tracker::desired_chunks;
use demo_core::tracker::is_out_of_range;

fn small_world(policy: TilePolicy) -> WorldConfig {
    WorldConfig::new(4, 4, 32, 32, 1, 1, 238432, 200, policy).unwrap()
}

fn has(v: &[ChunkCoord], x: i64, y: i64) -> bool {
    v.iter().any(|c| c.x == x && c.y == y)
}

#[test]
fn floor_div_rounds_toward_negative_infinity() {
    assert_eq!(floor_div(7, 2), 3);
    assert_eq!(floor_div(-7, 2), -4);
    assert_eq!(floor_div(-8, 2), -4);
    assert_eq!(floor_div(0, 128), 0);
    assert_eq!(floor_div(-1, 128), -1);
}

#[test]
fn viewer_position_maps_to_containing_chunk() {
    let cfg = small_world(TilePolicy::FirstCorner);
    let c = camera_pos_to_chunk_pos(WorldPos { x: 0, y: 0 }, &cfg);
    assert_eq!((c.x, c.y), (0, 0));
    let c = camera_pos_to_chunk_pos(WorldPos { x: 120, y: 0 }, &cfg);
    assert_eq!((c.x, c.y), (1, 0));
    let c = camera_pos_to_chunk_pos(WorldPos { x: -129, y: -129 }, &cfg);
    assert_eq!((c.x, c.y), (-1, -1));
    let c = camera_pos_to_chunk_pos(WorldPos { x: -145, y: 300 }, &cfg);
    assert_eq!((c.x, c.y), (-2, 2));
}

#[test]
fn desired_chunks_cover_radius_box_around_viewer() {
    let cfg = small_world(TilePolicy::FirstCorner);
    let d = desired_chunks(WorldPos { x: 0, y: 0 }, &cfg);
    assert_eq!(d.len(), 9);
    for x in -1..=1 {
        for y in -1..=1 {
            assert!(has(&d, x, y));
        }
    }
    assert!(!has(&d, 2, 0));
}

#[test]
fn desired_chunks_contain_viewer_chunk() {
    let cfg = small_world(TilePolicy::FirstCorner);
    for pos in [
        WorldPos { x: 0, y: 0 },
        WorldPos { x: 500, y: -713 },
        WorldPos { x: -2_000_000, y: 2_000_000 },
    ] {
        let center = camera_pos_to_chunk_pos(pos, &cfg);
        let d = desired_chunks(pos, &cfg);
        assert!(has(&d, center.x, center.y));
    }
}

#[test]
fn chunk_origin_scales_by_span() {
    let cfg = small_world(TilePolicy::FirstCorner);
    assert_eq!(world_origin(ChunkCoord { x: 2, y: -1 }, &cfg), (256, -128));
}

#[test]
fn out_of_range_compares_squared_distance_to_threshold() {
    let cfg = small_world(TilePolicy::FirstCorner);
    // Chunk (1, 1) has origin (128, 128): distance 0 from the viewer there.
    assert!(!is_out_of_range(ChunkCoord { x: 1, y: 1 }, WorldPos { x: 128, y: 128 }, &cfg));
    // Chunk (-1, -1) has origin (-128, -128): distance ~362 > 200.
    assert!(is_out_of_range(ChunkCoord { x: -1, y: -1 }, WorldPos { x: 128, y: 128 }, &cfg));
    // Corner of the desired box: distance ~181 <= 200.
    assert!(!is_out_of_range(ChunkCoord { x: 0, y: 0 }, WorldPos { x: 128, y: 128 }, &cfg));
}

#[test]
fn build_is_deterministic_for_fixed_seed() {
    let cfg = small_world(TilePolicy::FirstCorner);
    let a = build_chunk(ChunkCoord { x: 3, y: -2 }, &cfg);
    let b = build_chunk(ChunkCoord { x: 3, y: -2 }, &cfg);
    assert_eq!(a.tiles, b.tiles);
    assert_eq!(a.tiles.len(), 16);
    let cfg2 = small_world(TilePolicy::Predominant);
    let c = build_chunk(ChunkCoord { x: 3, y: -2 }, &cfg2);
    let d = build_chunk(ChunkCoord { x: 3, y: -2 }, &cfg2);
    assert_eq!(c.tiles, d.tiles);
}

#[test]
fn tile_accessor_reads_row_major_storage() {
    let cfg = small_world(TilePolicy::FirstCorner);
    let ch = build_chunk(ChunkCoord { x: 0, y: 0 }, &cfg);
    for ty in 0..4u32 {
        for tx in 0..4u32 {
            let i = (ty * 4 + tx) as usize;
            assert_eq!(ch.tile_at(&cfg, tx, ty), ch.tiles[i]);
        }
    }
}

#[test]
fn loaded_set_rejects_duplicates() {
    let cfg = small_world(TilePolicy::FirstCorner);
    let _ = cfg;
    let mut m = ChunkManager::new();
    let c = ChunkCoord { x: 5, y: 7 };
    assert_eq!(m.loaded_count(), 0);
    assert!(!m.is_loaded(c));
    m.mark_loaded(c);
    assert!(m.is_loaded(c));
    assert_eq!(m.loaded_count(), 1);
    m.mark_loaded(c);
    assert_eq!(m.loaded_count(), 1);
}

#[test]
fn unloaded_coordinate_stays_absent_until_reloaded() {
    let mut m = ChunkManager::new();
    let c = ChunkCoord { x: 5, y: 7 };
    let d = ChunkCoord { x: 6, y: 7 };
    m.mark_loaded(c);
    m.mark_unloaded(c);
    assert!(!m.is_loaded(c));
    m.mark_unloaded(c);
    assert!(!m.is_loaded(c));
    m.mark_loaded(d);
    assert!(!m.is_loaded(c));
    assert!(m.is_loaded(d));
    m.mark_loaded(c);
    assert!(m.is_loaded(c));
}

#[test]
fn diff_to_load_is_idempotent_without_intervening_loads() {
    let cfg = small_world(TilePolicy::FirstCorner);
    let mut m = ChunkManager::new();
    m.mark_loaded(ChunkCoord { x: 0, y: 0 });
    m.mark_loaded(ChunkCoord { x: 0, y: 1 });
    let desired = desired_chunks(WorldPos { x: 0, y: 0 }, &cfg);
    let first = m.diff_to_load(&desired);
    let second = m.diff_to_load(&desired);
    assert_eq!(first, second);
    assert_eq!(first.len(), 7);
    assert!(!has(&first, 0, 0));
    assert!(!has(&first, 0, 1));
}

#[test]
fn tick_scenario_shifts_window_by_one_chunk() {
    let cfg = small_world(TilePolicy::FirstCorner);
    let mut m = ChunkManager::new();

    let out = m.tick(WorldPos { x: 0, y: 0 }, &cfg);
    assert_eq!(out.created.len(), 9);
    assert_eq!(out.destroyed.len(), 0);
    assert_eq!(m.loaded_count(), 9);
    for x in -1..=1 {
        for y in -1..=1 {
            assert!(out.created.iter().any(|ch| ch.pos.x == x && ch.pos.y == y));
        }
    }

    // One chunk east and north: the 3x3 window shifts by (1, 1), so five
    // chunks are newly desired and the five left behind fall out of range.
    let out = m.tick(WorldPos { x: 128, y: 128 }, &cfg);
    assert_eq!(out.created.len(), 5);
    assert_eq!(out.destroyed.len(), 5);
    for (x, y) in [(0, 2), (1, 2), (2, 0), (2, 1), (2, 2)] {
        assert!(out.created.iter().any(|ch| ch.pos.x == x && ch.pos.y == y));
    }
    for (x, y) in [(-1, -1), (-1, 0), (-1, 1), (0, -1), (1, -1)] {
        assert!(has(&out.destroyed, x, y));
    }
    assert_eq!(m.loaded_count(), 9);
    let loaded = m.loaded_coords();
    for x in 0..=2 {
        for y in 0..=2 {
            assert!(has(&loaded, x, y));
        }
    }
}

#[test]
fn tick_rebuilds_identical_chunks_after_eviction() {
    let cfg = small_world(TilePolicy::FirstCorner);
    let mut m = ChunkManager::new();
    let first = m.tick(WorldPos { x: 0, y: 0 }, &cfg);
    // Walk far away so everything evicts, then come back.
    let _ = m.tick(WorldPos { x: 1_000_000, y: 1_000_000 }, &cfg);
    assert!(!m.is_loaded(ChunkCoord { x: 0, y: 0 }));
    let again = m.tick(WorldPos { x: 0, y: 0 }, &cfg);
    let find = |chunks: &Vec<demo_core::chunk::Chunk>, x: i64, y: i64| {
        chunks.iter().find(|ch| ch.pos.x == x && ch.pos.y == y).unwrap().tiles.clone()
    };
    for x in -1..=1 {
        for y in -1..=1 {
            assert_eq!(find(&first.created, x, y), find(&again.created, x, y));
        }
    }
}
