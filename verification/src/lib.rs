//! Core logic of a tile-based infinite world: deterministic noise-driven
//! terrain classification, chunk construction, and tracking of which chunks
//! are materialized around a moving viewer.
//!
//! The crate is engine-agnostic: it consumes integer viewer positions and a
//! static world configuration, and produces per-tick batches of chunks to
//! create and chunk coordinates to destroy.  Rendering, input and asset
//! handling are left to the host application.
use vstd::prelude::*;

pub mod chunk;
pub mod config;
pub mod coords;
pub mod markers;
pub mod noise;
pub mod player;
pub mod presence;
pub mod tile;
pub mod tracker;
pub mod version;

verus! {

/// Top-level phase of the host application's lifecycle.
#[derive(Clone, Copy, Debug, PartialEq, Eq, Structural, Hash)]
pub enum GameState {
    Loading,
    Playing,
    Menu,
}

impl Default for GameState {
    /// The application starts in the asset-loading phase.
    fn default() -> (r: Self)
        ensures
            r == GameState::Loading,
    {
        GameState::Loading
    }
}

} // verus!
