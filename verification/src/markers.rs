//! Marker types.
//!
//! These carry no data: the host tags its entities and registers its
//! subsystems with them, and keys queries and wiring on the type alone.
//! They are part of the public surface so that the host and the library
//! agree on the same names for the same roles.
use vstd::prelude::*;

verus! {

/// Tags the camera entity whose position drives chunk loading.
#[derive(Clone, Copy, Debug, PartialEq, Eq, Structural, Hash)]
pub struct MainCamera;

/// Tags the root entity of the main menu screen.
#[derive(Clone, Copy, Debug, PartialEq, Eq, Structural, Hash)]
pub struct MainMenuScreen;

/// Tags the background entity of the main menu.
#[derive(Clone, Copy, Debug, PartialEq, Eq, Structural, Hash)]
pub struct MainMenuBg;

/// Handle of the world subsystem as a whole.
#[derive(Clone, Copy, Debug, PartialEq, Eq, Structural, Hash)]
pub struct WorldPlugin;

/// Handle of the chunk load/evict subsystem.
#[derive(Clone, Copy, Debug, PartialEq, Eq, Structural, Hash)]
pub struct ChunkPlugin;

/// Handle of the tile classification subsystem.
#[derive(Clone, Copy, Debug, PartialEq, Eq, Structural, Hash)]
pub struct TilePlugin;

/// Handle of the chunk generation subsystem.
#[derive(Clone, Copy, Debug, PartialEq, Eq, Structural, Hash)]
pub struct WorldGenPlugin;

} // verus!
