//! The entity store and grid-aware movement: an ordered collection of
//! entities in which index 0 is always the player, kept consistent with the
//! tile grid (nobody stands in a wall, no two blocking entities share a
//! tile).

use vstd::prelude::*;
use crate::config::PLAYER;
use crate::objects::{attack_core, attack_post, DeathCallback, Object};
use crate::tiles::{grid, map_walled, map_wf, Game, LogEvent, Tile, TileGrid};

verus! {

/// A destination is blocked if its tile is a wall or some blocking entity
/// currently occupies it; queried before every proposed move or attack.
pub open spec fn spec_is_blocked(m: Seq<Seq<Tile>>, objs: Seq<Object>, x: int, y: int) -> bool {
    ||| m[x][y].blocked
    ||| exists|i: int|
        0 <= i < objs.len() && (#[trigger] objs[i]).blocks && objs[i].x == x && objs[i].y == y
}

/// An entity stands inside the grid on a passable tile.
pub open spec fn obj_placed(m: Seq<Seq<Tile>>, o: Object) -> bool {
    &&& 0 <= o.x < m.len()
    &&& 0 <= o.y < m[0].len()
    &&& !m[o.x as int][o.y as int].blocked
}

/// Store-wide entity invariant: every entity is well formed and placed on a
/// passable tile, and no two blocking entities share a tile.
pub open spec fn objects_wf(m: Seq<Seq<Tile>>, objs: Seq<Object>) -> bool {
    &&& forall|i: int| 0 <= i < objs.len() ==> obj_placed(m, #[trigger] objs[i])
    &&& forall|i: int| 0 <= i < objs.len() ==> (#[trigger] objs[i]).wf()
    &&& forall|i: int, j: int|
        0 <= i < j < objs.len() && (#[trigger] objs[i]).blocks && (#[trigger] objs[j]).blocks
            ==> !(objs[i].x == objs[j].x && objs[i].y == objs[j].y)
}

/// The world invariant the turn engine maintains: a walled, well-formed
/// grid; a non-empty store satisfying the entity invariant; and the player
/// convention at index 0 (no monster behavior tag, player death transition).
pub open spec fn store_wf(m: Seq<Seq<Tile>>, objs: Seq<Object>) -> bool {
    &&& map_wf(m)
    &&& map_walled(m)
    &&& objs.len() >= 1
    &&& objects_wf(m, objs)
    &&& objs[PLAYER as int].ai is None
    &&& (objs[PLAYER as int].fighter is Some ==> objs[PLAYER as int].fighter->0.on_death
        == DeathCallback::Player)
}

/// True if the tile at `(x, y)` is a wall or a blocking entity stands there.
pub fn is_blocked(x: i32, y: i32, map: &TileGrid, objects: &Vec<Object>) -> (b: bool)
    requires
        map_wf(grid(map@)),
        0 <= x < map@.len(),
        0 <= y < grid(map@)[0].len(),
    ensures
        b == spec_is_blocked(grid(map@), objects@, x as int, y as int),
{
    proof {
        let m = grid(map@);
        assert(m[x as int] == map@[x as int]@);
        assert(m[x as int].len() == m[0].len());
    }
    if map[x as usize][y as usize].blocked {
        return true;
    }
    let mut i: usize = 0;
    while i < objects.len()
        invariant
            0 <= i <= objects@.len(),
            forall|k: int|
                0 <= k < i ==> !((#[trigger] objects@[k]).blocks && objects@[k].x == x
                    && objects@[k].y == y),
        decreases objects@.len() - i,
    {
        if objects[i].blocks && objects[i].x == x && objects[i].y == y {
            return true;
        }
        i = i + 1;
    }
    false
}

/// An entity on a passable tile is strictly inside the walled border, so any
/// single step from it stays inside the grid.
pub proof fn lemma_placed_interior(m: Seq<Seq<Tile>>, o: Object)
    requires
        map_wf(m),
        map_walled(m),
        obj_placed(m, o),
    ensures
        1 <= o.x <= m.len() - 2,
        1 <= o.y <= m[0].len() - 2,
{
    assert(m[o.x as int][o.y as int].blocked || (1 <= o.x <= m.len() - 2 && 1 <= o.y <= m[0].len()
        - 2));
}

/// Move entity `id` by the given delta if the destination tile is free;
/// a blocked destination leaves every entity exactly where it was.
pub fn move_by(id: usize, dx: i32, dy: i32, game: &Game, objects: &mut Vec<Object>)
    requires
        store_wf(grid(game.map@), old(objects)@),
        id < old(objects)@.len(),
        -1 <= dx <= 1,
        -1 <= dy <= 1,
    ensures
        store_wf(grid(game.map@), final(objects)@),
        ({
            let m = grid(game.map@);
            let objs = old(objects)@;
            let o = objs[id as int];
            if spec_is_blocked(m, objs, o.x + dx, o.y + dy) {
                final(objects)@ == objs
            } else {
                final(objects)@ == objs.update(
                    id as int,
                    Object { x: (o.x + dx) as i32, y: (o.y + dy) as i32, ..o },
                )
            }
        }),
{
    proof {
        lemma_placed_interior(grid(game.map@), old(objects)@[id as int]);
    }
    let (x, y) = objects[id].pos();
    if !is_blocked(x + dx, y + dy, &game.map, objects) {
        objects[id].set_pos(x + dx, y + dy);
        proof {
            let m = grid(game.map@);
            let objs = old(objects)@;
            let o = objs[id as int];
            assert(objects@ == objs.update(
                id as int,
                Object { x: (o.x + dx) as i32, y: (o.y + dy) as i32, ..o },
            ));
            assert forall|i: int, j: int|
                0 <= i < j < objects@.len() && (#[trigger] objects@[i]).blocks && (
                #[trigger] objects@[j]).blocks implies !(objects@[i].x == objects@[j].x
                && objects@[i].y == objects@[j].y) by {
                if i == id {
                    assert(!(objs[j].blocks && objs[j].x == o.x + dx && objs[j].y == o.y + dy));
                } else if j == id {
                    assert(!(objs[i].blocks && objs[i].x == o.x + dx && objs[i].y == o.y + dy));
                }
            }
        }
    }
}

/// One step of `-1`, `0` or `+1` toward a target along one axis: the sign of
/// the difference `d`, unless rounding the normalized direction vector sends
/// this component to zero (which happens exactly when `3 * d * d` is below
/// the square of the other component).
pub open spec fn spec_step_toward(d: int, other: int) -> int {
    if 3 * d * d >= other * other {
        if d > 0 {
            1
        } else if d < 0 {
            -1
        } else {
            0
        }
    } else {
        0
    }
}

fn step_toward(d: i32, other: i32) -> (s: i32)
    requires
        -0x10000 <= d <= 0x10000,
        -0x10000 <= other <= 0x10000,
    ensures
        s == spec_step_toward(d as int, other as int),
        -1 <= s <= 1,
{
    let d64: i64 = d as i64;
    let o64: i64 = other as i64;
    proof {
        assert(0 <= d64 * d64 <= 0x1_0000_0000 && 0 <= o64 * o64 <= 0x1_0000_0000)
            by (nonlinear_arith)
            requires
                -0x10000 <= d64 <= 0x10000,
                -0x10000 <= o64 <= 0x10000,
        {
        }
    }
    let dsq: i64 = d64 * d64;
    let osq: i64 = o64 * o64;
    proof {
        assert(3 * (dsq as int) == 3 * (d as int) * (d as int)) by (nonlinear_arith)
            requires
                dsq == (d as int) * (d as int),
        {
        }
    }
    if 3 * dsq >= osq {
        if d > 0 {
            1
        } else if d < 0 {
            -1
        } else {
            0
        }
    } else {
        0
    }
}

/// Greedy motion: take the unit step whose direction is the rounded,
/// normalized vector toward the target, then move if that tile is free.
/// This is deliberately not pathfinding; it can stall against concave walls.
pub fn move_towards(id: usize, target_x: i32, target_y: i32, game: &Game, objects: &mut Vec<Object>)
    requires
        store_wf(grid(game.map@), old(objects)@),
        id < old(objects)@.len(),
        -MAX_STEP_TARGET <= target_x <= MAX_STEP_TARGET,
        -MAX_STEP_TARGET <= target_y <= MAX_STEP_TARGET,
    ensures
        store_wf(grid(game.map@), final(objects)@),
        ({
            let m = grid(game.map@);
            let objs = old(objects)@;
            let o = objs[id as int];
            let sx = spec_step_toward(target_x - o.x, target_y - o.y);
            let sy = spec_step_toward(target_y - o.y, target_x - o.x);
            if spec_is_blocked(m, objs, o.x + sx, o.y + sy) {
                final(objects)@ == objs
            } else {
                final(objects)@ == objs.update(
                    id as int,
                    Object { x: (o.x + sx) as i32, y: (o.y + sy) as i32, ..o },
                )
            }
        }),
{
    let dx = target_x - objects[id].x;
    let dy = target_y - objects[id].y;
    let sx = step_toward(dx, dy);
    let sy = step_toward(dy, dx);
    move_by(id, sx, sy, game, objects);
}

/// Bound on coordinates handed to `move_towards`; generously above any grid
/// dimension the core accepts.
pub const MAX_STEP_TARGET: i32 = 0x8000;

/// The first entity with combat statistics standing at `(x, y)`, scanning
/// the store in order from index `i`.
pub open spec fn first_fighter_at(objs: Seq<Object>, x: int, y: int, i: int) -> Option<int>
    decreases objs.len() - i
    when 0 <= i
{
    if i >= objs.len() {
        None
    } else if objs[i].fighter is Some && objs[i].x == x && objs[i].y == y {
        Some(i)
    } else {
        first_fighter_at(objs, x, y, i + 1)
    }
}

/// Exactly how the player's directional action relates the store and the
/// log before the action to the store and the log after it: an attack on
/// the first entity with combat statistics at the destination, else a move
/// onto the destination tile when it is free, else no change at all.
pub open spec fn player_phase_post(
    m: Seq<Seq<Tile>>,
    objs: Seq<Object>,
    msgs: Seq<LogEvent>,
    dx: int,
    dy: int,
    objs2: Seq<Object>,
    msgs2: Seq<LogEvent>,
) -> bool {
    let p = objs[PLAYER as int];
    match first_fighter_at(objs, p.x + dx, p.y + dy, 0) {
        Some(t) => {
            &&& objs2 == objs.update(t, objs2[t])
            &&& attack_post(p.name, p.fighter, objs[t], objs2[t], msgs, msgs2)
        },
        None => {
            &&& msgs2 == msgs
            &&& if spec_is_blocked(m, objs, p.x + dx, p.y + dy) {
                objs2 == objs
            } else {
                objs2 == objs.update(
                    PLAYER as int,
                    Object { x: (p.x + dx) as i32, y: (p.y + dy) as i32, ..p },
                )
            }
        },
    }
}

/// Resolve the player's directional action: if an entity with combat
/// statistics occupies the destination tile, attack it (melee and movement
/// are mutually exclusive); otherwise try to move there. Either way the
/// action consumes the turn, even a bump into a wall.
pub fn player_move_or_attack(dx: i32, dy: i32, game: &mut Game, objects: &mut Vec<Object>)
    requires
        store_wf(grid(old(game).map@), old(objects)@),
        -1 <= dx <= 1,
        -1 <= dy <= 1,
        !(dx == 0 && dy == 0),
    ensures
        final(game).map == old(game).map,
        store_wf(grid(final(game).map@), final(objects)@),
        final(objects)@.len() == old(objects)@.len(),
        player_phase_post(
            grid(old(game).map@),
            old(objects)@,
            old(game).messages@,
            dx as int,
            dy as int,
            final(objects)@,
            final(game).messages@,
        ),
{
    proof {
        lemma_placed_interior(grid(game.map@), old(objects)@[PLAYER as int]);
    }
    let x = objects[PLAYER].x + dx;
    let y = objects[PLAYER].y + dy;

    let ghost objs = objects@;
    let mut target_id: Option<usize> = None;
    let mut i: usize = 0;
    while i < objects.len()
        invariant
            0 <= i <= objs.len(),
            objects@ == objs,
            match target_id {
                Some(t) => t < objs.len() && first_fighter_at(objs, x as int, y as int, 0) == Some(
                    t as int,
                ),
                None => first_fighter_at(objs, x as int, y as int, 0) == first_fighter_at(
                    objs,
                    x as int,
                    y as int,
                    i as int,
                ),
            },
        decreases objs.len() - i,
    {
        if target_id.is_none() && objects[i].fighter.is_some() && objects[i].x == x && objects[i].y
            == y {
            proof {
                assert(first_fighter_at(objs, x as int, y as int, i as int) == Some(i as int));
            }
            target_id = Some(i);
        }
        i = i + 1;
    }

    match target_id {
        Some(tid) => {
            let attacker_name = objects[PLAYER].name.clone();
            let attacker_fighter = objects[PLAYER].fighter;
            attack_core(&attacker_name, attacker_fighter, &mut objects[tid], game);
            proof {
                let m = grid(game.map@);
                assert(objects@ == objs.update(tid as int, objects@[tid as int]));
                lemma_store_wf_after_hit(m, objs, objects@, tid as int);
            }
        },
        None => {
            proof {
                assert(first_fighter_at(objs, x as int, y as int, objs.len() as int) is None);
            }
            move_by(PLAYER, dx, dy, game, objects);
        },
    }
}

/// A blocked move is idempotent on the world: when the destination tile is
/// a wall (or otherwise blocked) and holds nothing to attack, the player's
/// directional action changes no entity and logs nothing — though the turn
/// is still consumed, as `handle_command` separately guarantees.
pub proof fn lemma_blocked_move_idempotent(
    m: Seq<Seq<Tile>>,
    objs: Seq<Object>,
    msgs: Seq<LogEvent>,
    dx: int,
    dy: int,
    objs2: Seq<Object>,
    msgs2: Seq<LogEvent>,
)
    requires
        objs.len() >= 1,
        player_phase_post(m, objs, msgs, dx, dy, objs2, msgs2),
        first_fighter_at(
            objs,
            objs[PLAYER as int].x + dx,
            objs[PLAYER as int].y + dy,
            0,
        ) is None,
        spec_is_blocked(m, objs, objs[PLAYER as int].x + dx, objs[PLAYER as int].y + dy),
    ensures
        objs2 == objs,
        msgs2 == msgs,
{
}

/// A melee hit never moves its target and can only clear (never set) the
/// target's blocking flag, so the store invariant survives any attack
/// outcome.
pub(crate) proof fn lemma_store_wf_after_hit(m: Seq<Seq<Tile>>, objs: Seq<Object>, objs2: Seq<Object>, t: int)
    requires
        store_wf(m, objs),
        0 <= t < objs.len(),
        objs2 == objs.update(t, objs2[t]),
        objs2[t].x == objs[t].x,
        objs2[t].y == objs[t].y,
        objs2[t].wf(),
        objs2[t].blocks ==> objs[t].blocks,
        objs2[t].ai is Some ==> objs2[t].ai == objs[t].ai,
        objs2[t].fighter is Some ==> objs2[t].fighter->0.on_death == objs[t].fighter->0.on_death
            && objs[t].fighter is Some,
    ensures
        store_wf(m, objs2),
{
    assert(obj_placed(m, objs2[t]));
    assert forall|i: int, j: int|
        0 <= i < j < objs2.len() && (#[trigger] objs2[i]).blocks && (#[trigger] objs2[j]).blocks
        implies !(objs2[i].x == objs2[j].x && objs2[i].y == objs2[j].y) by {
        assert(objs[i].blocks && objs[j].blocks);
    }
}

} // verus!