//! The dungeon generator: a grid of walls into which rooms and L-shaped
//! corridors are carved, with monsters placed in each accepted room. Every
//! carve only ever turns wall into floor, so floor once carved stays floor
//! for the rest of generation.

use vstd::prelude::*;
use crate::config::Config;
use crate::geometry::Rect;
use crate::objects::{Ai, DeathCallback, Fighter, Object};
use crate::rng::{rand_bool, rand_range};
use crate::store::{is_blocked, obj_placed, objects_wf, spec_is_blocked, store_wf};
use crate::tiles::{
    grid, map_walled, map_wf, spec_floor_tile, spec_wall_tile, Color, Tile, TileGrid, MAX_DIM,
};

verus! {

/// A room that fits in a `w` by `h` grid with its walls on or inside the
/// border and a strict interior of at least one tile.
pub open spec fn room_in_bounds(r: Rect, w: int, h: int) -> bool {
    &&& 0 <= r.x1
    &&& r.x1 + 2 <= r.x2 <= w - 1
    &&& 0 <= r.y1
    &&& r.y1 + 2 <= r.y2 <= h - 1
}

/// Every tile of the horizontal segment from `(xa, y)` to `(xb, y)`
/// (inclusive, in either order) is floor.
pub open spec fn h_seg_floor(m: Seq<Seq<Tile>>, xa: int, xb: int, y: int) -> bool {
    forall|x: int|
        (if xa <= xb {
            xa
        } else {
            xb
        }) <= x <= (if xa <= xb {
            xb
        } else {
            xa
        }) ==> #[trigger] m[x][y] == spec_floor_tile()
}

/// Every tile of the vertical segment from `(x, ya)` to `(x, yb)`
/// (inclusive, in either order) is floor.
pub open spec fn v_seg_floor(m: Seq<Seq<Tile>>, ya: int, yb: int, x: int) -> bool {
    forall|y: int|
        (if ya <= yb {
            ya
        } else {
            yb
        }) <= y <= (if ya <= yb {
            yb
        } else {
            ya
        }) ==> #[trigger] m[x][y] == spec_floor_tile()
}

/// Two points are joined by a fully carved L-shaped corridor: a horizontal
/// and a vertical segment meeting at one of the two possible bend corners.
pub open spec fn corridor_connected(m: Seq<Seq<Tile>>, a: (int, int), b: (int, int)) -> bool {
    ||| (h_seg_floor(m, a.0, b.0, a.1) && v_seg_floor(m, a.1, b.1, b.0))
    ||| (v_seg_floor(m, a.1, b.1, a.0) && h_seg_floor(m, a.0, b.0, b.1))
}

/// Write one tile of the grid, leaving every other tile and all dimensions
/// unchanged.
pub(crate) fn set_tile(map: &mut TileGrid, x: usize, y: usize, t: Tile)
    requires
        x < grid(old(map)@).len(),
        y < grid(old(map)@)[x as int].len(),
    ensures
        grid(final(map)@).len() == grid(old(map)@).len(),
        forall|a: int|
            0 <= a < grid(old(map)@).len() ==> (#[trigger] grid(final(map)@)[a]).len() == grid(
                old(map)@,
            )[a].len(),
        forall|a: int, b: int|
            0 <= a < grid(old(map)@).len() && 0 <= b < grid(old(map)@)[a].len()
                ==> #[trigger] grid(final(map)@)[a][b] == if a == x && b == y {
                t
            } else {
                grid(old(map)@)[a][b]
            },
{
    proof {
        assert(grid(map@)[x as int] == map@[x as int]@);
    }
    map[x][y] = t;
    proof {
        assert forall|a: int| 0 <= a < grid(old(map)@).len() implies (#[trigger] grid(map@)[a]).len()
            == grid(old(map)@)[a].len() by {
            assert(grid(map@)[a] == map@[a]@);
            assert(grid(old(map)@)[a] == old(map)@[a]@);
        }
        assert forall|a: int, b: int|
            0 <= a < grid(old(map)@).len() && 0 <= b < grid(old(map)@)[a].len() implies (
        #[trigger] grid(map@)[a][b]) == if a == x && b == y {
            t
        } else {
            grid(old(map)@)[a][b]
        } by {
            assert(grid(map@)[a] == map@[a]@);
            assert(grid(old(map)@)[a] == old(map)@[a]@);
        }
    }
}

/// A grid of the given dimensions holding nothing but wall tiles.
fn wall_grid(width: i32, height: i32) -> (m: TileGrid)
    requires
        3 <= width <= MAX_DIM,
        3 <= height <= MAX_DIM,
    ensures
        grid(m@).len() == width,
        grid(m@)[0].len() == height,
        map_wf(grid(m@)),
        map_walled(grid(m@)),
        forall|x: int, y: int|
            0 <= x < width && 0 <= y < height ==> #[trigger] grid(m@)[x][y] == spec_wall_tile(),
{
    let mut m: Vec<Vec<Tile>> = Vec::new();
    let mut x: i32 = 0;
    while x < width
        invariant
            0 <= x <= width,
            3 <= height <= MAX_DIM,
            m@.len() == x,
            forall|i: int| 0 <= i < x ==> (#[trigger] m@[i]@).len() == height,
            forall|i: int, j: int|
                0 <= i < x && 0 <= j < height ==> #[trigger] m@[i]@[j] == spec_wall_tile(),
        decreases width - x,
    {
        let mut col: Vec<Tile> = Vec::new();
        let mut y: i32 = 0;
        while y < height
            invariant
                0 <= y <= height,
                col@.len() == y,
                forall|j: int| 0 <= j < y ==> #[trigger] col@[j] == spec_wall_tile(),
            decreases height - y,
        {
            col.push(Tile::wall());
            y = y + 1;
        }
        m.push(col);
        x = x + 1;
    }
    m
}

/// Carve the strict interior of `room` to floor; every other tile, the
/// room's own boundary included, is left exactly as it was.
pub fn create_room(room: Rect, map: &mut TileGrid)
    requires
        map_wf(grid(old(map)@)),
        room_in_bounds(room, grid(old(map)@).len() as int, grid(old(map)@)[0].len() as int),
    ensures
        grid(final(map)@).len() == grid(old(map)@).len(),
        forall|x: int|
            0 <= x < grid(old(map)@).len() ==> (#[trigger] grid(final(map)@)[x]).len() == grid(
                old(map)@,
            )[x].len(),
        forall|x: int, y: int|
            0 <= x < grid(old(map)@).len() && 0 <= y < grid(old(map)@)[0].len()
                ==> #[trigger] grid(final(map)@)[x][y] == if room.spec_contains(x, y) {
                spec_floor_tile()
            } else {
                grid(old(map)@)[x][y]
            },
{
    let mut x = room.x1 + 1;
    while x < room.x2
        invariant
            map_wf(grid(old(map)@)),
            room_in_bounds(room, grid(old(map)@).len() as int, grid(old(map)@)[0].len() as int),
            room.x1 + 1 <= x <= room.x2,
            grid(map@).len() == grid(old(map)@).len(),
            forall|a: int|
                0 <= a < grid(old(map)@).len() ==> (#[trigger] grid(map@)[a]).len() == grid(
                    old(map)@,
                )[a].len(),
            forall|a: int, b: int|
                0 <= a < grid(old(map)@).len() && 0 <= b < grid(old(map)@)[0].len()
                    ==> #[trigger] grid(map@)[a][b] == if room.spec_contains(a, b) && a < x {
                    spec_floor_tile()
                } else {
                    grid(old(map)@)[a][b]
                },
        decreases room.x2 - x,
    {
        let mut y = room.y1 + 1;
        while y < room.y2
            invariant
                map_wf(grid(old(map)@)),
                room_in_bounds(room, grid(old(map)@).len() as int, grid(old(map)@)[0].len() as int),
                room.x1 + 1 <= x < room.x2,
                room.y1 + 1 <= y <= room.y2,
                grid(map@).len() == grid(old(map)@).len(),
                forall|a: int|
                    0 <= a < grid(old(map)@).len() ==> (#[trigger] grid(map@)[a]).len() == grid(
                        old(map)@,
                    )[a].len(),
                forall|a: int, b: int|
                    0 <= a < grid(old(map)@).len() && 0 <= b < grid(old(map)@)[0].len()
                        ==> #[trigger] grid(map@)[a][b] == if room.spec_contains(a, b) && (a < x || (
                        a == x && b < y)) {
                        spec_floor_tile()
                    } else {
                        grid(old(map)@)[a][b]
                    },
            decreases room.y2 - y,
        {
            proof {
                assert(grid(old(map)@)[x as int].len() == grid(old(map)@)[0].len());
            }
            set_tile(map, x as usize, y as usize, Tile::empty());
            y = y + 1;
        }
        x = x + 1;
    }
}

/// Carve a horizontal tunnel at row `y` covering every column between `x1`
/// and `x2` inclusive, in either order; all other tiles are unchanged.
pub fn create_h_tunnel(x1: i32, x2: i32, y: i32, map: &mut TileGrid)
    requires
        map_wf(grid(old(map)@)),
        0 <= x1 < grid(old(map)@).len(),
        0 <= x2 < grid(old(map)@).len(),
        0 <= y < grid(old(map)@)[0].len(),
    ensures
        grid(final(map)@).len() == grid(old(map)@).len(),
        forall|a: int|
            0 <= a < grid(old(map)@).len() ==> (#[trigger] grid(final(map)@)[a]).len() == grid(
                old(map)@,
            )[a].len(),
        forall|a: int, b: int|
            0 <= a < grid(old(map)@).len() && 0 <= b < grid(old(map)@)[0].len()
                ==> #[trigger] grid(final(map)@)[a][b] == if b == y && (if x1 <= x2 {
                x1
            } else {
                x2
            }) <= a <= (if x1 <= x2 {
                x2
            } else {
                x1
            }) {
                spec_floor_tile()
            } else {
                grid(old(map)@)[a][b]
            },
{
    let lo = if x1 < x2 {
        x1
    } else {
        x2
    };
    let hi = if x1 < x2 {
        x2
    } else {
        x1
    };
    let mut x = lo;
    while x < hi + 1
        invariant
            map_wf(grid(old(map)@)),
            0 <= lo <= x <= hi + 1,
            hi < grid(old(map)@).len(),
            0 <= y < grid(old(map)@)[0].len(),
            grid(map@).len() == grid(old(map)@).len(),
            forall|a: int|
                0 <= a < grid(old(map)@).len() ==> (#[trigger] grid(map@)[a]).len() == grid(
                    old(map)@,
                )[a].len(),
            forall|a: int, b: int|
                0 <= a < grid(old(map)@).len() && 0 <= b < grid(old(map)@)[0].len()
                    ==> #[trigger] grid(map@)[a][b] == if b == y && lo <= a < x {
                    spec_floor_tile()
                } else {
                    grid(old(map)@)[a][b]
                },
        decreases hi + 1 - x,
    {
        proof {
            assert(grid(old(map)@)[x as int].len() == grid(old(map)@)[0].len());
        }
        set_tile(map, x as usize, y as usize, Tile::empty());
        x = x + 1;
    }
}

/// Carve a vertical tunnel at column `x` covering every row between `y1`
/// and `y2` inclusive, in either order; all other tiles are unchanged.
pub fn create_v_tunnel(y1: i32, y2: i32, x: i32, map: &mut TileGrid)
    requires
        map_wf(grid(old(map)@)),
        0 <= y1 < grid(old(map)@)[0].len(),
        0 <= y2 < grid(old(map)@)[0].len(),
        0 <= x < grid(old(map)@).len(),
    ensures
        grid(final(map)@).len() == grid(old(map)@).len(),
        forall|a: int|
            0 <= a < grid(old(map)@).len() ==> (#[trigger] grid(final(map)@)[a]).len() == grid(
                old(map)@,
            )[a].len(),
        forall|a: int, b: int|
            0 <= a < grid(old(map)@).len() && 0 <= b < grid(old(map)@)[0].len()
                ==> #[trigger] grid(final(map)@)[a][b] == if a == x && (if y1 <= y2 {
                y1
            } else {
                y2
            }) <= b <= (if y1 <= y2 {
                y2
            } else {
                y1
            }) {
                spec_floor_tile()
            } else {
                grid(old(map)@)[a][b]
            },
{
    let lo = if y1 < y2 {
        y1
    } else {
        y2
    };
    let hi = if y1 < y2 {
        y2
    } else {
        y1
    };
    let mut y = lo;
    while y < hi + 1
        invariant
            map_wf(grid(old(map)@)),
            0 <= lo <= y <= hi + 1,
            hi < grid(old(map)@)[0].len(),
            0 <= x < grid(old(map)@).len(),
            grid(map@).len() == grid(old(map)@).len(),
            forall|a: int|
                0 <= a < grid(old(map)@).len() ==> (#[trigger] grid(map@)[a]).len() == grid(
                    old(map)@,
                )[a].len(),
            forall|a: int, b: int|
                0 <= a < grid(old(map)@).len() && 0 <= b < grid(old(map)@)[0].len()
                    ==> #[trigger] grid(map@)[a][b] == if a == x && lo <= b < y {
                    spec_floor_tile()
                } else {
                    grid(old(map)@)[a][b]
                },
        decreases hi + 1 - y,
    {
        proof {
            assert(grid(old(map)@)[x as int].len() == grid(old(map)@)[0].len());
        }
        set_tile(map, x as usize, y as usize, Tile::empty());
        y = y + 1;
    }
}

/// A rectangle with random side lengths in the configured room-size range,
/// positioned uniformly so that it lies fully inside the grid with its far
/// edge on or inside the border.
pub fn create_random_room(width: i32, height: i32, cfg: &Config) -> (r: Rect)
    requires
        cfg.wf(),
        cfg.room_max_size <= width - 1,
        cfg.room_max_size <= height - 1,
        width <= MAX_DIM,
        height <= MAX_DIM,
    ensures
        room_in_bounds(r, width as int, height as int),
        cfg.room_min_size <= r.x2 - r.x1 <= cfg.room_max_size,
        cfg.room_min_size <= r.y2 - r.y1 <= cfg.room_max_size,
{
    let w = rand_range(cfg.room_min_size, cfg.room_max_size + 1);
    let h = rand_range(cfg.room_min_size, cfg.room_max_size + 1);
    let x = rand_range(0, width - w);
    let y = rand_range(0, height - h);
    Rect::new(x, y, w, h)
}

/// Bound on how often the generator re-samples the first room before it
/// falls back to a deterministic one; sampling succeeds almost surely long
/// before this, but the loop must provably terminate.
pub const FIRST_ROOM_TRIES: i32 = 10000;

/// A deterministic room of minimum size whose strict interior holds the
/// given start position; the fallback when sampling keeps missing it.
fn room_at(start_x: i32, start_y: i32, width: i32, height: i32, cfg: &Config) -> (r: Rect)
    requires
        cfg.wf(),
        cfg.room_max_size <= width - 1,
        cfg.room_max_size <= height - 1,
        width <= MAX_DIM,
        height <= MAX_DIM,
        1 <= start_x <= width - 2,
        1 <= start_y <= height - 2,
    ensures
        room_in_bounds(r, width as int, height as int),
        r.spec_contains(start_x as int, start_y as int),
        r.x2 - r.x1 == cfg.room_min_size,
        r.y2 - r.y1 == cfg.room_min_size,
{
    let w = cfg.room_min_size;
    let h = cfg.room_min_size;
    let x1 = if start_x + w <= width - 1 {
        start_x - 1
    } else {
        width - 1 - w
    };
    let y1 = if start_y + h <= height - 1 {
        start_y - 1
    } else {
        height - 1 - h
    };
    Rect::new(x1, y1, w, h)
}

/// A freshly spawned orc: the common, fast and weak monster kind.
pub open spec fn is_orc(o: Object) -> bool {
    &&& o.character == 'o'
    &&& o.name@ == "orc"@
    &&& o.color == (Color { r: 63, g: 127, b: 63 })
    &&& o.fighter == Some(
        Fighter { max_hp: 10, hp: 10, defense: 0, power: 3, on_death: DeathCallback::Monster },
    )
}

/// A freshly spawned troll: the rare, slow and strong monster kind.
pub open spec fn is_troll(o: Object) -> bool {
    &&& o.character == 'T'
    &&& o.name@ == "troll"@
    &&& o.color == (Color { r: 0, g: 127, b: 0 })
    &&& o.fighter == Some(
        Fighter { max_hp: 16, hp: 16, defense: 1, power: 4, on_death: DeathCallback::Monster },
    )
}

/// What holds of every monster the generator placed: one of the two kinds,
/// alive, blocking, driven by the basic behavior, and standing on a
/// passable tile of the grid.
pub open spec fn monster_ok(o: Object, m: Seq<Seq<Tile>>) -> bool {
    &&& is_orc(o) || is_troll(o)
    &&& o.blocks
    &&& o.alive
    &&& o.ai == Some(Ai::Basic)
    &&& obj_placed(m, o)
    &&& o.wf()
}

/// Appending an entity that stands on an unoccupied passable tile keeps the
/// store-wide entity invariant.
proof fn lemma_objects_wf_push(m: Seq<Seq<Tile>>, objs: Seq<Object>, o: Object)
    requires
        objects_wf(m, objs),
        obj_placed(m, o),
        o.wf(),
        !spec_is_blocked(m, objs, o.x as int, o.y as int),
    ensures
        objects_wf(m, objs.push(o)),
{
    let objs2 = objs.push(o);
    assert forall|i: int, j: int|
        0 <= i < j < objs2.len() && (#[trigger] objs2[i]).blocks && (#[trigger] objs2[j]).blocks
        implies !(objs2[i].x == objs2[j].x && objs2[i].y == objs2[j].y) by {
        if j == objs.len() {
            assert(!(objs[i].blocks && objs[i].x == o.x && objs[i].y == o.y));
        }
    }
}

/// Populate an accepted room: a random number of monsters, each dropped on
/// a sampled interior tile unless a wall or a blocking entity already
/// occupies it (occupied draws are skipped, not retried). Entities already
/// in the store are never touched.
pub fn place_objects(room: Rect, map: &TileGrid, objects: &mut Vec<Object>, cfg: &Config)
    requires
        cfg.wf(),
        map_wf(grid(map@)),
        room_in_bounds(room, grid(map@).len() as int, grid(map@)[0].len() as int),
        objects_wf(grid(map@), old(objects)@),
    ensures
        old(objects)@.len() <= final(objects)@.len() <= old(objects)@.len()
            + cfg.max_room_monsters,
        forall|i: int|
            0 <= i < old(objects)@.len() ==> #[trigger] final(objects)@[i] == old(objects)@[i],
        forall|k: int|
            old(objects)@.len() <= k < final(objects)@.len() ==> monster_ok(
                #[trigger] final(objects)@[k],
                grid(map@),
            ) && room.spec_contains(final(objects)@[k].x as int, final(objects)@[k].y as int),
        objects_wf(grid(map@), final(objects)@),
{
    let ghost m = grid(map@);
    let ghost objs0 = old(objects)@;
    let num_monsters = rand_range(0, cfg.max_room_monsters + 1);
    let mut n: i32 = 0;
    while n < num_monsters
        invariant
            cfg.wf(),
            map_wf(m),
            m == grid(map@),
            room_in_bounds(room, m.len() as int, m[0].len() as int),
            0 <= n <= num_monsters,
            num_monsters <= cfg.max_room_monsters,
            objs0.len() <= objects@.len() <= objs0.len() + n,
            forall|i: int| 0 <= i < objs0.len() ==> #[trigger] objects@[i] == objs0[i],
            forall|k: int|
                objs0.len() <= k < objects@.len() ==> monster_ok(#[trigger] objects@[k], m)
                    && room.spec_contains(objects@[k].x as int, objects@[k].y as int),
            objects_wf(m, objects@),
        decreases num_monsters - n,
    {
        let x = rand_range(room.x1 + 1, room.x2);
        let y = rand_range(room.y1 + 1, room.y2);
        if !is_blocked(x, y, map, objects) {
            let mut monster = if rand_range(0, 100) < 80 {
                let mut orc = Object::new(x, y, 'o', "orc", Color { r: 63, g: 127, b: 63 }, true);
                orc.fighter = Some(
                    Fighter {
                        max_hp: 10,
                        hp: 10,
                        defense: 0,
                        power: 3,
                        on_death: DeathCallback::Monster,
                    },
                );
                orc.ai = Some(Ai::Basic);
                orc
            } else {
                let mut troll = Object::new(x, y, 'T', "troll", Color { r: 0, g: 127, b: 0 }, true);
                troll.fighter = Some(
                    Fighter {
                        max_hp: 16,
                        hp: 16,
                        defense: 1,
                        power: 4,
                        on_death: DeathCallback::Monster,
                    },
                );
                troll.ai = Some(Ai::Basic);
                troll
            };
            monster.alive = true;
            proof {
                lemma_objects_wf_push(m, objects@, monster);
            }
            objects.push(monster);
        }
        n = n + 1;
    }
}

/// Every tile of the strict interior of `r` is floor.
pub open spec fn room_floor(m: Seq<Seq<Tile>>, r: Rect) -> bool {
    forall|x: int, y: int| r.spec_contains(x, y) ==> #[trigger] m[x][y] == spec_floor_tile()
}

/// One grid evolved from another by carving alone: same dimensions, and
/// every tile either unchanged or turned to floor. Floor never reverts.
pub open spec fn tiles_monotone(m0: Seq<Seq<Tile>>, m1: Seq<Seq<Tile>>) -> bool {
    &&& m1.len() == m0.len()
    &&& forall|a: int| 0 <= a < m0.len() ==> (#[trigger] m1[a]).len() == m0[a].len()
    &&& forall|a: int, b: int|
        0 <= a < m0.len() && 0 <= b < m0[0].len() ==> #[trigger] m1[a][b] == m0[a][b] || m1[a][b]
            == spec_floor_tile()
}

/// Carving preserves a room interior already carved to floor.
proof fn lemma_monotone_room_floor(m0: Seq<Seq<Tile>>, m1: Seq<Seq<Tile>>, r: Rect)
    requires
        tiles_monotone(m0, m1),
        room_floor(m0, r),
        room_in_bounds(r, m0.len() as int, m0[0].len() as int),
    ensures
        room_floor(m1, r),
{
    assert forall|x: int, y: int| r.spec_contains(x, y) implies #[trigger] m1[x][y]
        == spec_floor_tile() by {
        assert(m0[x][y] == spec_floor_tile());
    }
}

/// Carving preserves a corridor already carved to floor.
proof fn lemma_monotone_corridor(
    m0: Seq<Seq<Tile>>,
    m1: Seq<Seq<Tile>>,
    a: (int, int),
    b: (int, int),
)
    requires
        tiles_monotone(m0, m1),
        corridor_connected(m0, a, b),
        0 <= a.0 < m0.len(),
        0 <= b.0 < m0.len(),
        0 <= a.1 < m0[0].len(),
        0 <= b.1 < m0[0].len(),
    ensures
        corridor_connected(m1, a, b),
{
    if h_seg_floor(m0, a.0, b.0, a.1) && v_seg_floor(m0, a.1, b.1, b.0) {
        assert forall|x: int|
            (if a.0 <= b.0 {
                a.0
            } else {
                b.0
            }) <= x <= (if a.0 <= b.0 {
                b.0
            } else {
                a.0
            }) implies #[trigger] m1[x][a.1] == spec_floor_tile() by {
            assert(m0[x][a.1] == spec_floor_tile());
        }
        assert forall|y: int|
            (if a.1 <= b.1 {
                a.1
            } else {
                b.1
            }) <= y <= (if a.1 <= b.1 {
                b.1
            } else {
                a.1
            }) implies #[trigger] m1[b.0][y] == spec_floor_tile() by {
            assert(m0[b.0][y] == spec_floor_tile());
        }
        assert(h_seg_floor(m1, a.0, b.0, a.1) && v_seg_floor(m1, a.1, b.1, b.0));
    } else {
        assert forall|y: int|
            (if a.1 <= b.1 {
                a.1
            } else {
                b.1
            }) <= y <= (if a.1 <= b.1 {
                b.1
            } else {
                a.1
            }) implies #[trigger] m1[a.0][y] == spec_floor_tile() by {
            assert(m0[a.0][y] == spec_floor_tile());
        }
        assert forall|x: int|
            (if a.0 <= b.0 {
                a.0
            } else {
                b.0
            }) <= x <= (if a.0 <= b.0 {
                b.0
            } else {
                a.0
            }) implies #[trigger] m1[x][b.1] == spec_floor_tile() by {
            assert(m0[x][b.1] == spec_floor_tile());
        }
        assert(v_seg_floor(m1, a.1, b.1, a.0) && h_seg_floor(m1, a.0, b.0, b.1));
    }
}

/// Carving preserves the placement of every entity already on a passable
/// tile, and with it the whole store-wide entity invariant.
proof fn lemma_monotone_objects(m0: Seq<Seq<Tile>>, m1: Seq<Seq<Tile>>, objs: Seq<Object>)
    requires
        tiles_monotone(m0, m1),
        objects_wf(m0, objs),
    ensures
        objects_wf(m1, objs),
{
    assert forall|i: int| 0 <= i < objs.len() implies obj_placed(m1, #[trigger] objs[i]) by {
        let o = objs[i];
        assert(obj_placed(m0, o));
        assert(m1[o.x as int][o.y as int] == m0[o.x as int][o.y as int] || m1[o.x as int][o.y
            as int] == spec_floor_tile());
        assert(m1[0].len() == m0[0].len());
    }
}

/// The center of a room with a non-empty strict interior lies strictly
/// inside the room's walls.
proof fn lemma_center_bounds(r: Rect, w: int, h: int)
    requires
        room_in_bounds(r, w, h),
    ensures
        r.x1 + 1 <= r.spec_center().0 <= r.x2 - 1,
        r.y1 + 1 <= r.spec_center().1 <= r.y2 - 1,
        1 <= r.spec_center().0 <= w - 2,
        1 <= r.spec_center().1 <= h - 2,
{
    assert(r.x1 + 1 <= (r.x1 + r.x2) / 2 <= r.x2 - 1) by (nonlinear_arith)
        requires
            0 <= r.x1,
            r.x1 + 2 <= r.x2,
    {
    }
    assert(r.y1 + 1 <= (r.y1 + r.y2) / 2 <= r.y2 - 1) by (nonlinear_arith)
        requires
            0 <= r.y1,
            r.y1 + 2 <= r.y2,
    {
    }
}

/// Generate a dungeon: a walled grid carved with up to `max_rooms + 1`
/// non-overlapping rooms, each joined to the previous one by an L-shaped
/// corridor, the first carved around the fixed start position, and monsters
/// appended to the store for every accepted room. Returns the grid and the
/// accepted rooms in carve order.
#[verifier::rlimit(100)]
pub fn generate(
    width: i32,
    height: i32,
    start_x: i32,
    start_y: i32,
    objects: &mut Vec<Object>,
    cfg: &Config,
) -> (r: (TileGrid, Vec<Rect>))
    requires
        cfg.wf(),
        cfg.room_max_size <= width - 1,
        cfg.room_max_size <= height - 1,
        3 <= width <= MAX_DIM,
        3 <= height <= MAX_DIM,
        1 <= start_x <= width - 2,
        1 <= start_y <= height - 2,
        old(objects)@.len() == 1,
        old(objects)@[0].x == start_x,
        old(objects)@[0].y == start_y,
        old(objects)@[0].wf(),
        old(objects)@[0].ai is None,
        old(objects)@[0].fighter is Some ==> old(objects)@[0].fighter->0.on_death
            == DeathCallback::Player,
    ensures
        ({
            let m = grid(r.0@);
            let rs = r.1@;
            &&& m.len() == width
            &&& m[0].len() == height
            &&& map_wf(m)
            &&& map_walled(m)
            &&& 1 <= rs.len() <= cfg.max_rooms + 1
            &&& forall|i: int|
                0 <= i < rs.len() ==> room_in_bounds(#[trigger] rs[i], width as int, height as int)
            &&& forall|i: int|
                0 <= i < rs.len() ==> cfg.room_min_size <= (#[trigger] rs[i]).x2 - rs[i].x1
                    <= cfg.room_max_size && cfg.room_min_size <= rs[i].y2 - rs[i].y1
                    <= cfg.room_max_size
            &&& rs[0].spec_contains(start_x as int, start_y as int)
            &&& m[start_x as int][start_y as int] == spec_floor_tile()
            &&& forall|x: int, y: int|
                0 <= x < width && 0 <= y < height ==> #[trigger] m[x][y] == spec_wall_tile()
                    || m[x][y] == spec_floor_tile()
            &&& forall|i: int, j: int|
                0 <= i < j < rs.len() ==> !(#[trigger] rs[i]).spec_intersects(#[trigger] rs[j])
            &&& forall|i: int| 0 <= i < rs.len() ==> room_floor(m, #[trigger] rs[i])
            &&& forall|i: int|
                0 <= i < rs.len() - 1 ==> #[trigger] corridor_connected(
                    m,
                    rs[i].spec_center(),
                    rs[i + 1].spec_center(),
                )
            &&& final(objects)@.len() >= 1
            &&& final(objects)@[0] == old(objects)@[0]
            &&& forall|k: int|
                1 <= k < final(objects)@.len() ==> monster_ok(#[trigger] final(objects)@[k], m)
            &&& store_wf(m, final(objects)@)
        }),
{
    let mut map = wall_grid(width, height);

    // Re-sample until a room's strict interior holds the start position, so
    // the player always spawns inside the very first carved room.
    let mut first_room = create_random_room(width, height, cfg);
    let mut tries: i32 = 0;
    while !first_room.contains(start_x, start_y) && tries < FIRST_ROOM_TRIES
        invariant
            cfg.wf(),
            cfg.room_max_size <= width - 1,
            cfg.room_max_size <= height - 1,
            3 <= width <= MAX_DIM,
            3 <= height <= MAX_DIM,
            0 <= tries <= FIRST_ROOM_TRIES,
            room_in_bounds(first_room, width as int, height as int),
            cfg.room_min_size <= first_room.x2 - first_room.x1 <= cfg.room_max_size,
            cfg.room_min_size <= first_room.y2 - first_room.y1 <= cfg.room_max_size,
        decreases FIRST_ROOM_TRIES - tries,
    {
        first_room = create_random_room(width, height, cfg);
        tries = tries + 1;
    }
    if !first_room.contains(start_x, start_y) {
        first_room = room_at(start_x, start_y, width, height, cfg);
    }

    let ghost m0 = grid(map@);
    create_room(first_room, &mut map);
    proof {
        assert(tiles_monotone(m0, grid(map@)));
        assert(map_walled(grid(map@)));
        assert(grid(map@)[start_x as int][start_y as int] == spec_floor_tile());
        assert(objects_wf(grid(map@), objects@));
    }
    let mut rooms: Vec<Rect> = Vec::new();
    rooms.push(first_room);

    let mut attempt: i32 = 0;
    while attempt < cfg.max_rooms
        invariant
            cfg.wf(),
            cfg.room_max_size <= width - 1,
            cfg.room_max_size <= height - 1,
            3 <= width <= MAX_DIM,
            3 <= height <= MAX_DIM,
            1 <= start_x <= width - 2,
            1 <= start_y <= height - 2,
            0 <= attempt <= cfg.max_rooms,
            grid(map@).len() == width,
            grid(map@)[0].len() == height,
            map_wf(grid(map@)),
            map_walled(grid(map@)),
            1 <= rooms@.len() <= attempt + 1,
            forall|i: int|
                0 <= i < rooms@.len() ==> room_in_bounds(
                    #[trigger] rooms@[i],
                    width as int,
                    height as int,
                ),
            forall|i: int|
                0 <= i < rooms@.len() ==> cfg.room_min_size <= (#[trigger] rooms@[i]).x2
                    - rooms@[i].x1 <= cfg.room_max_size && cfg.room_min_size <= rooms@[i].y2
                    - rooms@[i].y1 <= cfg.room_max_size,
            rooms@[0].spec_contains(start_x as int, start_y as int),
            grid(map@)[start_x as int][start_y as int] == spec_floor_tile(),
            forall|x: int, y: int|
                0 <= x < width && 0 <= y < height ==> #[trigger] grid(map@)[x][y]
                    == spec_wall_tile() || grid(map@)[x][y] == spec_floor_tile(),
            forall|i: int, j: int|
                0 <= i < j < rooms@.len() ==> !(#[trigger] rooms@[i]).spec_intersects(
                    #[trigger] rooms@[j],
                ),
            forall|i: int| 0 <= i < rooms@.len() ==> room_floor(grid(map@), #[trigger] rooms@[i]),
            forall|i: int|
                0 <= i < rooms@.len() - 1 ==> #[trigger] corridor_connected(
                    grid(map@),
                    rooms@[i].spec_center(),
                    rooms@[i + 1].spec_center(),
                ),
            objects@.len() >= 1,
            objects@[0] == old(objects)@[0],
            forall|k: int|
                1 <= k < objects@.len() ==> monster_ok(#[trigger] objects@[k], grid(map@)),
            objects_wf(grid(map@), objects@),
        decreases cfg.max_rooms - attempt,
    {
        let new_room = create_random_room(width, height, cfg);

        let mut failed = false;
        let mut k: usize = 0;
        while k < rooms.len()
            invariant
                0 <= k <= rooms@.len(),
                !failed ==> forall|j: int|
                    0 <= j < k ==> !new_room.spec_intersects(#[trigger] rooms@[j]),
            decreases rooms@.len() - k,
        {
            if new_room.intersects_with(&rooms[k]) {
                failed = true;
            }
            k = k + 1;
        }

        if !failed {
            let ghost ma = grid(map@);
            let ghost rs = rooms@;
            let ghost objs = objects@;
            create_room(new_room, &mut map);
            proof {
                assert(tiles_monotone(ma, grid(map@)));
                assert(map_walled(grid(map@)));
                carve_preserves(ma, grid(map@), rs, objs, start_x as int, start_y as int);
            }

            let (new_x, new_y) = new_room.center();
            let prev = rooms[rooms.len() - 1];
            let (prev_x, prev_y) = prev.center();
            proof {
                lemma_center_bounds(prev, width as int, height as int);
                lemma_center_bounds(new_room, width as int, height as int);
            }

            let ghost mb = grid(map@);
            if rand_bool() {
                create_h_tunnel(prev_x, new_x, prev_y, &mut map);
                let ghost mc = grid(map@);
                proof {
                    assert(tiles_monotone(mb, mc));
                    assert(map_walled(mc));
                    carve_preserves(mb, mc, rs, objs, start_x as int, start_y as int);
                }
                create_v_tunnel(prev_y, new_y, new_x, &mut map);
                proof {
                    assert(tiles_monotone(mc, grid(map@)));
                    assert(map_walled(grid(map@)));
                    carve_preserves(mc, grid(map@), rs, objs, start_x as int, start_y as int);
                    assert(h_seg_floor(grid(map@), prev_x as int, new_x as int, prev_y as int));
                    assert(v_seg_floor(grid(map@), prev_y as int, new_y as int, new_x as int));
                    assert(corridor_connected(
                        grid(map@),
                        prev.spec_center(),
                        new_room.spec_center(),
                    ));
                }
            } else {
                create_v_tunnel(prev_y, new_y, prev_x, &mut map);
                let ghost mc = grid(map@);
                proof {
                    assert(tiles_monotone(mb, mc));
                    assert(map_walled(mc));
                    carve_preserves(mb, mc, rs, objs, start_x as int, start_y as int);
                }
                create_h_tunnel(prev_x, new_x, new_y, &mut map);
                proof {
                    assert(tiles_monotone(mc, grid(map@)));
                    assert(map_walled(grid(map@)));
                    carve_preserves(mc, grid(map@), rs, objs, start_x as int, start_y as int);
                    assert(v_seg_floor(grid(map@), prev_y as int, new_y as int, prev_x as int));
                    assert(h_seg_floor(grid(map@), prev_x as int, new_x as int, new_y as int));
                    assert(corridor_connected(
                        grid(map@),
                        prev.spec_center(),
                        new_room.spec_center(),
                    ));
                }
            }
            proof {
                lemma_monotone_room_floor(mb, grid(map@), new_room);
            }

            rooms.push(new_room);
            place_objects(new_room, &map, objects, cfg);
            proof {
                assert(rooms@ == rs.push(new_room));
                assert(rooms@[rooms@.len() - 2] == prev);
                assert(forall|i: int|
                    0 <= i < rooms@.len() - 2 ==> #[trigger] corridor_connected(
                        grid(map@),
                        rooms@[i].spec_center(),
                        rooms@[i + 1].spec_center(),
                    ));
            }
        }
        attempt = attempt + 1;
    }
    (map, rooms)
}

/// One carve step keeps every already-established floor region — the start
/// tile, room interiors, corridors — and the placement of every entity.
proof fn carve_preserves(
    m0: Seq<Seq<Tile>>,
    m1: Seq<Seq<Tile>>,
    rs: Seq<Rect>,
    objs: Seq<Object>,
    sx: int,
    sy: int,
)
    requires
        map_wf(m0),
        tiles_monotone(m0, m1),
        m1[0].len() == m0[0].len(),
        0 <= sx < m0.len(),
        0 <= sy < m0[0].len(),
        forall|i: int| 0 <= i < rs.len() ==> room_in_bounds(#[trigger] rs[i], m0.len() as int, m0[0].len() as int),
        forall|i: int| 0 <= i < rs.len() ==> room_floor(m0, #[trigger] rs[i]),
        forall|i: int|
            0 <= i < rs.len() - 1 ==> #[trigger] corridor_connected(
                m0,
                rs[i].spec_center(),
                rs[i + 1].spec_center(),
            ),
        objects_wf(m0, objs),
        m0[sx][sy] == spec_floor_tile(),
        forall|k: int| 1 <= k < objs.len() ==> monster_ok(#[trigger] objs[k], m0),
    ensures
        forall|i: int| 0 <= i < rs.len() ==> room_floor(m1, #[trigger] rs[i]),
        forall|i: int|
            0 <= i < rs.len() - 1 ==> #[trigger] corridor_connected(
                m1,
                rs[i].spec_center(),
                rs[i + 1].spec_center(),
            ),
        objects_wf(m1, objs),
        m1[sx][sy] == spec_floor_tile(),
        forall|k: int| 1 <= k < objs.len() ==> monster_ok(#[trigger] objs[k], m1),
{
    assert forall|i: int| 0 <= i < rs.len() implies room_floor(m1, #[trigger] rs[i]) by {
        lemma_monotone_room_floor(m0, m1, rs[i]);
    }
    assert forall|i: int| 0 <= i < rs.len() - 1 implies #[trigger] corridor_connected(
        m1,
        rs[i].spec_center(),
        rs[i + 1].spec_center(),
    ) by {
        lemma_center_bounds(rs[i], m0.len() as int, m0[0].len() as int);
        lemma_center_bounds(rs[i + 1], m0.len() as int, m0[0].len() as int);
        lemma_monotone_corridor(m0, m1, rs[i].spec_center(), rs[i + 1].spec_center());
    }
    lemma_monotone_objects(m0, m1, objs);
    assert forall|k: int| 1 <= k < objs.len() implies monster_ok(#[trigger] objs[k], m1) by {
        let o = objs[k];
        assert(obj_placed(m0, o));
        assert(m1[o.x as int][o.y as int] == m0[o.x as int][o.y as int] || m1[o.x as int][o.y
            as int] == spec_floor_tile());
    }
}

} // verus!
