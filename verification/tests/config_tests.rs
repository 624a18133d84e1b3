use demo_core::GameState;
use demo_core::config::ConfigError;
use demo_core::config::TilePolicy;
use demo_core::config::WorldConfig;
use demo_core::noise::sample_noise;
use demo_core::player::Attributes;
use demo_core::player::CostType;
use demo_core::player::Experience;
use demo_core::presence::ActivityState;
use demo_core::presence::DiscordPlugin;
use demo_core::version::CommitInfo;
use demo_core::version::VersionInfo;
use demo_core::version::version;

#[test]
fn valid_config_keeps_its_fields() {
    let cfg = WorldConfig::new(4, 4, 32, 32, 4, 4, 238432, 1449, TilePolicy::FirstCorner).unwrap();
    assert_eq!(cfg.chunk_size_x, 4);
    assert_eq!(cfg.tile_size_y, 32);
    assert_eq!(cfg.radius_x, 4);
    assert_eq!(cfg.seed, 238432);
    assert_eq!(cfg.evict_distance, 1449);
    assert_eq!(cfg.policy, TilePolicy::FirstCorner);
}

#[test]
fn zero_chunk_size_is_rejected() {
    let r = WorldConfig::new(0, 4, 32, 32, 1, 1, 1, 200, TilePolicy::FirstCorner);
    assert_eq!(r.unwrap_err(), ConfigError::ChunkSizeOutOfRange);
}

#[test]
fn zero_tile_size_is_rejected() {
    let r = WorldConfig::new(4, 4, 32, 0, 1, 1, 1, 200, TilePolicy::FirstCorner);
    assert_eq!(r.unwrap_err(), ConfigError::TileSizeOutOfRange);
}

#[test]
fn zero_radius_is_rejected() {
    let r = WorldConfig::new(4, 4, 32, 32, 0, 1, 1, 200, TilePolicy::FirstCorner);
    assert_eq!(r.unwrap_err(), ConfigError::RadiusOutOfRange);
}

#[test]
fn zero_evict_distance_is_rejected() {
    let r = WorldConfig::new(4, 4, 32, 32, 1, 1, 1, 0, TilePolicy::FirstCorner);
    assert_eq!(r.unwrap_err(), ConfigError::EvictDistanceOutOfRange);
}

#[test]
fn oversized_seed_is_rejected() {
    let r = WorldConfig::new(4, 4, 32, 32, 1, 1, u32::MAX, 200, TilePolicy::FirstCorner);
    assert_eq!(r.unwrap_err(), ConfigError::SeedOutOfRange);
}

#[test]
fn noise_is_deterministic_and_in_range() {
    for (x, y) in [(0, 0), (17, -42), (999, 999), (-100_000, 250_000)] {
        let a = sample_noise(x, y, 238432);
        let b = sample_noise(x, y, 238432);
        assert_eq!(a, b);
        assert!(a <= 1_000_000);
    }
}

#[test]
fn noise_field_is_not_constant() {
    let mut lowest = u32::MAX;
    let mut highest = 0;
    for i in 0..32i64 {
        let v = sample_noise(i * 157, i * 311, 238432);
        lowest = lowest.min(v);
        highest = highest.max(v);
    }
    assert!(lowest < highest);
}

#[test]
fn version_carries_placeholder_and_no_commit() {
    let v = version();
    assert_eq!(v.version, "0.0.0");
    assert!(v.commit_info.is_none());
    assert_eq!(v.display_string(), "v0.0.0");
}

#[test]
fn version_display_includes_commit_when_present() {
    let v = VersionInfo {
        version: "1.2.3",
        commit_info: Some(CommitInfo { hash: "deadbeef", short_hash: "dead", date: "2024-01-01" }),
    };
    assert_eq!(v.display_string(), "v1.2.3 (dead 2024-01-01)");
}

#[test]
fn presence_plugin_keeps_configuration() {
    let p = DiscordPlugin::new(424242, true);
    assert_eq!(p.config.app_id, 424242);
    assert!(p.config.show_time);
}

#[test]
fn menu_activity_reports_menu_details() {
    let a = ActivityState::menu_at(1_700_000_000);
    assert!(a.state.is_none());
    assert_eq!(a.details.as_deref(), Some("In Main Menu"));
    assert_eq!(a.start_seconds, Some(1_700_000_000));
    let b = a.with_details("In Game".to_string());
    assert_eq!(b.details.as_deref(), Some("In Game"));
    assert_eq!(b.start_seconds, Some(1_700_000_000));
}

#[test]
fn fresh_character_defaults() {
    let a = Attributes::default();
    assert_eq!((a.strength, a.vitality, a.energy), (10, 10, 15));
    let e = Experience::default();
    assert_eq!((e.current, e.remaining, e.level), (0, 100, 1));
    assert_eq!(CostType::default(), CostType::Free);
    assert_eq!(GameState::default(), GameState::Loading);
}
