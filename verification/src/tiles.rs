//! Tile grid state: per-tile terrain flags, display color, the exploration
//! flag, and the game state that owns the grid together with the event log.

use vstd::prelude::*;

verus! {

/// An RGB display color. The core never draws; it only records which color a
/// tile or entity should be rendered with.
#[derive(Clone, Copy, Debug, PartialEq, Eq, Structural)]
pub struct Color {
    pub r: u8,
    pub g: u8,
    pub b: u8,
}

/// One grid cell's terrain state. `explored` starts false and is monotonic:
/// once set it is never cleared again.
#[derive(Clone, Copy, Debug, PartialEq, Eq, Structural)]
pub struct Tile {
    pub blocked: bool,
    pub block_sight: bool,
    pub explored: bool,
    pub color: Color,
}

/// The background color of a floor tile that is not currently lit.
pub open spec fn spec_dark_ground() -> Color {
    Color { r: 50, g: 50, b: 150 }
}

/// The background color of a wall tile that is not currently lit.
pub open spec fn spec_dark_wall() -> Color {
    Color { r: 0, g: 0, b: 100 }
}

/// The canonical floor tile: passable and transparent, not yet explored.
pub open spec fn spec_floor_tile() -> Tile {
    Tile { blocked: false, block_sight: false, explored: false, color: spec_dark_ground() }
}

/// The canonical wall tile: impassable and sight-blocking, not yet explored.
pub open spec fn spec_wall_tile() -> Tile {
    Tile { blocked: true, block_sight: true, explored: false, color: spec_dark_wall() }
}

impl Tile {
    pub fn empty() -> (t: Tile)
        ensures
            t == spec_floor_tile(),
    {
        Tile {
            blocked: false,
            block_sight: false,
            explored: false,
            color: Color { r: 50, g: 50, b: 150 },
        }
    }

    pub fn wall() -> (t: Tile)
        ensures
            t == spec_wall_tile(),
    {
        Tile {
            blocked: true,
            block_sight: true,
            explored: false,
            color: Color { r: 0, g: 0, b: 100 },
        }
    }
}

/// The tile grid, indexed `[x][y]` with `x` in `[0, width)` and `y` in
/// `[0, height)`.
pub type TileGrid = Vec<Vec<Tile>>;

/// A column-of-rows vector as a mathematical sequence of sequences.
pub open spec fn grid<T>(map: Seq<Vec<T>>) -> Seq<Seq<T>> {
    Seq::new(map.len(), |i: int| map[i]@)
}

/// The largest grid dimension the core accepts; keeps every coordinate
/// computation comfortably inside `i32`.
pub const MAX_DIM: i32 = 4096;

/// A well-formed grid: rectangular, with both dimensions in `[3, MAX_DIM]`.
pub open spec fn map_wf(m: Seq<Seq<Tile>>) -> bool {
    &&& 3 <= m.len() <= MAX_DIM
    &&& 3 <= m[0].len() <= MAX_DIM
    &&& forall|x: int| 0 <= x < m.len() ==> #[trigger] m[x].len() == m[0].len()
}

/// Every tile on the outer border of the grid is a blocked wall, so nothing
/// standing on a passable tile can step out of bounds.
pub open spec fn map_walled(m: Seq<Seq<Tile>>) -> bool {
    forall|x: int, y: int|
        0 <= x < m.len() && 0 <= y < m[0].len() && (x == 0 || x == m.len() - 1 || y == 0 || y
            == m[0].len() - 1) ==> (#[trigger] m[x][y]).blocked
}

/// One structured entry of the event log. The surrounding program formats
/// these for display; the core only records what happened, in order.
#[derive(Clone, Debug)]
pub enum LogEvent {
    /// An attacker dealt positive damage to a target.
    Attack { attacker: String, target: String, damage: i32 },
    /// An attack whose damage was zero or negative; no state changed.
    NoEffect { attacker: String, target: String },
    /// The player's death: the terminal game state.
    PlayerDied,
    /// A monster's death, under the name it had while alive.
    MonsterDied { name: String },
}

/// The world state the turn engine mutates: the tile grid and the ordered
/// log of events for the presentation layer.
pub struct Game {
    pub map: TileGrid,
    pub messages: Vec<LogEvent>,
}

} // verus!
