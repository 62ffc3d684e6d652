//! Tiling modes of the feature grid: which coordinate axes repeat, and how
//! many tiles there are along each.
use vstd::prelude::*;

verus! {

/// This hasher does not tile on any axis. Frequencies are not rounded to nearest integer.
#[derive(Clone, Copy, PartialEq, Eq, Debug, Structural)]
pub struct TileNone {}

/// This hasher tiles all coordinate axes.
/// Frequencies are rounded to the nearest positive integer.
#[derive(Clone, Copy, PartialEq, Eq, Debug, Structural)]
pub struct TileAll {
    pub sx: u32,
    pub sy: u32,
    pub sz: u32,
}

/// This hasher tiles X and Y coordinate axes.
/// Frequencies are rounded to the nearest positive integer.
#[derive(Clone, Copy, PartialEq, Eq, Debug, Structural)]
pub struct TileXY {
    pub sx: u32,
    pub sy: u32,
}

/// No tiling.
pub fn tile_none() -> (r: TileNone)
    ensures
        r == (TileNone {}),
{
    TileNone {}
}

/// Tiling of all axes with one tile each.
pub fn tile_all() -> (r: TileAll)
    ensures
        r == (TileAll { sx: 1, sy: 1, sz: 1 }),
{
    TileAll { sx: 1, sy: 1, sz: 1 }
}

/// Tiling of all axes with the given numbers of tiles.
pub fn tile_all_in(sx: u32, sy: u32, sz: u32) -> (r: TileAll)
    ensures
        r == (TileAll { sx, sy, sz }),
{
    TileAll { sx, sy, sz }
}

/// Tiling of the X and Y axes with one tile each.
pub fn tile_xy() -> (r: TileXY)
    ensures
        r == (TileXY { sx: 1, sy: 1 }),
{
    TileXY { sx: 1, sy: 1 }
}

/// Tiling of the X and Y axes with the given numbers of tiles.
pub fn tile_xy_in(sx: u32, sy: u32) -> (r: TileXY)
    ensures
        r == (TileXY { sx, sy }),
{
    TileXY { sx, sy }
}

} // verus!
