//! The painting core of a tileset editor: tile grids, the pixel under the
//! mouse, brush patterns, and the blits that paint a pattern into the tiles
//! it overlaps.
use vstd::prelude::*;

pub mod blit;
pub mod geometry;
pub mod layout;
pub mod painting;
pub mod pattern;
pub mod pixels;
pub mod selection;
pub mod tiles;

verus! {

/// Marker state of a tile or tileset that still needs initialising.
#[derive(Debug, Default, Clone, Copy)]
pub struct Uninitiated;

/// Marker state of the tileset that is currently viewed and edited.
#[derive(Debug, Default, Clone, Copy)]
pub struct CurrentlySelected;

/// Marker state of a tileset that was picked to be shown next.
#[derive(Debug, Default, Clone, Copy)]
pub struct NewlySelected;

} // verus!
