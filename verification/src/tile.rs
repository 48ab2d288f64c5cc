use vstd::prelude::*;

verus! {

/// The terrain classes, listed in the fixed ascending elevation order used
/// by classification: water lowest, snow highest.
#[derive(Clone, Copy, PartialEq, Eq, Structural, Debug)]
pub enum TileType {
    DeepWater,
    ShallowWater,
    Sand,
    Grass,
    Hill,
    Mountain,
    Snow,
}

/// The payload of a tile.  A tile carries at most one content value, and the
/// garbage stage never overwrites a tile that already holds one.
#[derive(Clone, Copy, PartialEq, Eq, Structural, Debug)]
pub enum Content {
    Empty,
    Garbage(usize),
}

/// One grid cell: terrain class, optional content, and an elevation scalar
/// (left at zero by this pipeline; a downstream step may fill it).
#[derive(Clone, Copy, PartialEq, Eq, Structural, Debug)]
pub struct Tile {
    pub tile_type: TileType,
    pub content: Content,
    pub elevation: usize,
}

/// The largest amount one tile's garbage content can represent.  Amounts
/// drawn above this are capped to it before being written.
pub const GARBAGE_CAPACITY: usize = 20;

/// Which terrain classes can hold garbage content: dry, traversable ground.
pub open spec fn spec_can_hold_garbage(t: TileType) -> bool {
    t == TileType::Sand || t == TileType::Grass || t == TileType::Hill
}

/// Executable test of `spec_can_hold_garbage`.
pub fn can_hold_garbage(t: TileType) -> (r: bool)
    ensures
        r == spec_can_hold_garbage(t),
{
    match t {
        TileType::Sand => true,
        TileType::Grass => true,
        TileType::Hill => true,
        _ => false,
    }
}

/// A grid (or field) is a square matrix with side `n`.
pub open spec fn spec_square<T>(g: Seq<Vec<T>>, n: int) -> bool {
    &&& g.len() == n
    &&& forall|y: int| 0 <= y < n ==> (#[trigger] g[y])@.len() == n
}

} // verus!
