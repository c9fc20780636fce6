//! Tunable constants for the generator, the visibility engine and the turn
//! engine, gathered in one immutable configuration value that is constructed
//! once at startup and passed into the core by reference.

use vstd::prelude::*;
use crate::tiles::MAX_DIM;

verus! {

/// The index of the player in the entity store; index 0 is always the player
/// and is never removed or reordered.
pub const PLAYER: usize = 0;

/// Tunable parameters of the simulation core.
#[derive(Clone, Copy, Debug, PartialEq, Eq, Structural)]
pub struct Config {
    /// Grid width in tiles.
    pub map_width: i32,
    /// Grid height in tiles.
    pub map_height: i32,
    /// Smallest side length of a generated room, walls included.
    pub room_min_size: i32,
    /// Largest side length of a generated room, walls included.
    pub room_max_size: i32,
    /// Number of room placement attempts after the first room.
    pub max_rooms: i32,
    /// Largest number of monsters placed per accepted room.
    pub max_room_monsters: i32,
    /// Field-of-view radius, in tiles.
    pub torch_radius: i32,
    /// Whether sight-blocking tiles themselves are included in the
    /// visible set.
    pub fov_light_walls: bool,
}

impl Config {
    /// Caller contract for the generator and the visibility engine: room
    /// sizes leave at least a one-tile wall border inside the grid, and all
    /// counts are non-negative and bounded.
    pub open spec fn wf(self) -> bool {
        &&& 2 <= self.room_min_size <= self.room_max_size
    &&& self.room_max_size <= self.map_width - 1
        &&& self.room_max_size <= self.map_height - 1
        &&& 3 <= self.map_width <= MAX_DIM
        &&& 3 <= self.map_height <= MAX_DIM
        &&& 0 <= self.max_rooms <= 100000
        &&& 0 <= self.max_room_monsters <= 10000
        &&& 0 <= self.torch_radius <= MAX_DIM
    }
}

/// The stock configuration: an 80 x 45 grid, rooms of side 6 to 10, up to 30
/// rooms with at most 3 monsters each, and a torch radius of 10 that lights
/// wall faces.
pub open spec fn spec_default_config() -> Config {
    Config {
        map_width: 80,
        map_height: 45,
        room_min_size: 6,
        room_max_size: 10,
        max_rooms: 30,
        max_room_monsters: 3,
        torch_radius: 10,
        fov_light_walls: true,
    }
}

impl Default for Config {
    fn default() -> (c: Config)
        ensures
            c == spec_default_config(),
            c.wf(),
    {
        Config {
            map_width: 80,
            map_height: 45,
            room_min_size: 6,
            room_max_size: 10,
            max_rooms: 30,
            max_room_monsters: 3,
            torch_radius: 10,
            fov_light_walls: true,
        }
    }
}

} // verus!
