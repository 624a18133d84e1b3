use demo_core::tile::TileType;
use demo_core::tile::classify;
use demo_core::tile::determine_predominant_tile_type;
use demo_core::tile::tile_type_to_texture_index;

#[test]
fn classify_zero_is_water() {
    assert_eq!(classify(0), TileType::Water);
}

#[test]
fn classify_mid_band_is_dirt() {
    assert_eq!(classify(200_000), TileType::Dirt);
}

#[test]
fn classify_high_is_grass() {
    assert_eq!(classify(500_000), TileType::Grass);
    assert_eq!(classify(1_000_000), TileType::Grass);
}

#[test]
fn classify_boundaries_belong_to_lower_band() {
    assert_eq!(classify(150_000), TileType::Water);
    assert_eq!(classify(150_001), TileType::Dirt);
    assert_eq!(classify(320_000), TileType::Dirt);
    assert_eq!(classify(320_001), TileType::Grass);
}

#[test]
fn predominant_majority_wins() {
    let blocks = [TileType::Grass, TileType::Grass, TileType::Dirt, TileType::Water];
    assert_eq!(determine_predominant_tile_type(&blocks), TileType::Grass);
    let blocks = [TileType::Grass, TileType::Dirt, TileType::Dirt, TileType::Water];
    assert_eq!(determine_predominant_tile_type(&blocks), TileType::Dirt);
}

#[test]
fn predominant_tie_breaks_to_first_seen() {
    let blocks = [TileType::Grass, TileType::Grass, TileType::Dirt, TileType::Dirt];
    assert_eq!(determine_predominant_tile_type(&blocks), TileType::Grass);
    let blocks = [TileType::Dirt, TileType::Grass, TileType::Grass, TileType::Dirt];
    assert_eq!(determine_predominant_tile_type(&blocks), TileType::Dirt);
    let blocks = [TileType::Water, TileType::Dirt, TileType::Water, TileType::Dirt];
    assert_eq!(determine_predominant_tile_type(&blocks), TileType::Water);
}

#[test]
fn predominant_of_uniform_block() {
    let blocks = [TileType::Water; 4];
    assert_eq!(determine_predominant_tile_type(&blocks), TileType::Water);
}

#[test]
fn texture_indices_match_atlas() {
    assert_eq!(tile_type_to_texture_index(TileType::Grass), 63);
    assert_eq!(tile_type_to_texture_index(TileType::Dirt), 83);
    assert_eq!(tile_type_to_texture_index(TileType::Water), 247);
}
