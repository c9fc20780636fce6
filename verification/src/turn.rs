//! The turn engine: one decoded player command resolves to at most one
//! player action, and — only if that action consumed the turn and the
//! player is still alive — one action per living monster, in store order,
//! deterministically. The transition of every phase is written out as a
//! spec-level function of the state, so a tick is a literal transcription
//! of the state machine.

use vstd::prelude::*;
use crate::config::PLAYER;
use crate::config::Config;
use crate::fov::{spec_explore_tile, spec_visible, update_explored, FovMap};
use crate::objects::{
    attack_core, spec_damaged, spec_dead_color, spec_melee_damage, Object,
};
use crate::store::{
    lemma_store_wf_after_hit, move_towards, player_move_or_attack, player_phase_post,
    spec_is_blocked, spec_step_toward, store_wf,
};
use crate::tiles::{grid, LogEvent, Game, Tile};

verus! {

/// The outcome of resolving one player command.
#[derive(Clone, Copy, Debug, PartialEq, Eq, Structural)]
pub enum PlayerAction {
    TookTurn,
    DidntTakeTurn,
    Exit,
}

/// A movement direction on the grid.
#[derive(Clone, Copy, Debug, PartialEq, Eq, Structural)]
pub enum Direction {
    Up,
    Down,
    Left,
    Right,
}

/// One already-decoded player command, handed in by the input collaborator.
#[derive(Clone, Copy, Debug, PartialEq, Eq, Structural)]
pub enum PlayerCommand {
    /// Move or melee-attack one step in a direction.
    Move(Direction),
    /// Toggle a display mode; the presentation layer acts on it, the world
    /// does not advance.
    ToggleDisplayMode,
    /// Leave the game loop.
    Quit,
    /// Any other input; the world does not advance.
    Idle,
}

/// The horizontal component of a direction.
pub open spec fn dir_dx(d: Direction) -> int {
    match d {
        Direction::Left => -1,
        Direction::Right => 1,
        _ => 0,
    }
}

/// The vertical component of a direction.
pub open spec fn dir_dy(d: Direction) -> int {
    match d {
        Direction::Up => -1,
        Direction::Down => 1,
        _ => 0,
    }
}

fn dir_delta(d: Direction) -> (r: (i32, i32))
    ensures
        r.0 == dir_dx(d),
        r.1 == dir_dy(d),
{
    match d {
        Direction::Up => (0, -1),
        Direction::Down => (0, 1),
        Direction::Left => (-1, 0),
        Direction::Right => (1, 0),
    }
}

/// Resolve one player command. A `Move` by a living player always consumes
/// the turn — even a bump into a wall costs time; every other command, and
/// a `Move` by a dead player, leaves the world untouched.
pub fn handle_command(cmd: PlayerCommand, game: &mut Game, objects: &mut Vec<Object>) -> (a:
    PlayerAction)
    requires
        store_wf(grid(old(game).map@), old(objects)@),
    ensures
        final(game).map == old(game).map,
        store_wf(grid(final(game).map@), final(objects)@),
        final(objects)@.len() == old(objects)@.len(),
        ({
            let m = grid(old(game).map@);
            let objs = old(objects)@;
            match cmd {
                PlayerCommand::Quit => a == PlayerAction::Exit && final(objects)@ == objs
                    && final(game).messages@ == old(game).messages@,
                PlayerCommand::Move(d) => {
                    if objs[PLAYER as int].alive {
                        &&& a == PlayerAction::TookTurn
                        &&& player_phase_post(
                            m,
                            objs,
                            old(game).messages@,
                            dir_dx(d),
                            dir_dy(d),
                            final(objects)@,
                            final(game).messages@,
                        )
                    } else {
                        &&& a == PlayerAction::DidntTakeTurn
                        &&& final(objects)@ == objs
                        &&& final(game).messages@ == old(game).messages@
                    }
                },
                _ => a == PlayerAction::DidntTakeTurn && final(objects)@ == objs
                    && final(game).messages@ == old(game).messages@,
            }
        }),
{
    match cmd {
        PlayerCommand::Quit => PlayerAction::Exit,
        PlayerCommand::ToggleDisplayMode => PlayerAction::DidntTakeTurn,
        PlayerCommand::Idle => PlayerAction::DidntTakeTurn,
        PlayerCommand::Move(d) => {
            if objects[PLAYER].alive {
                let (dx, dy) = dir_delta(d);
                player_move_or_attack(dx, dy, game, objects);
                PlayerAction::TookTurn
            } else {
                PlayerAction::DidntTakeTurn
            }
        },
    }
}

/// The melee blow an AI monster lands on the player, under the store
/// convention that the player's death-transition tag is `Player` (which
/// every caller requires through `store_wf`).
pub open spec fn spec_ai_attack_player(objs: Seq<Object>, msgs: Seq<LogEvent>, id: int) -> (
    Seq<Object>,
    Seq<LogEvent>,
) {
    let a = objs[id];
    let p = objs[PLAYER as int];
    let damage = spec_melee_damage(a.fighter, p.fighter);
    if damage > 0 {
        let msgs1 = msgs.push(
            LogEvent::Attack { attacker: a.name, target: p.name, damage: damage as i32 },
        );
        if p.alive && p.fighter is Some {
            let f2 = spec_damaged(p.fighter->0, damage);
            if f2.hp >= 1 {
                (objs.update(PLAYER as int, Object { fighter: Some(f2), ..p }), msgs1)
            } else {
                (
                    objs.update(
                        PLAYER as int,
                        Object {
                            alive: false,
                            character: '%',
                            color: spec_dead_color(),
                            fighter: Some(f2),
                            ..p
                        },
                    ),
                    msgs1.push(LogEvent::PlayerDied),
                )
            }
        } else {
            (objs, msgs1)
        }
    } else {
        (objs, msgs.push(LogEvent::NoEffect { attacker: a.name, target: p.name }))
    }
}

/// One monster's turn as a function of the state: outside the visible set
/// it holds still; in view and at least two tiles from the player it takes
/// one greedy step toward the player; adjacent, it attacks — but only while
/// the player still has positive hit points at that moment.
pub open spec fn ai_turn_spec(
    vis: Seq<Seq<bool>>,
    m: Seq<Seq<Tile>>,
    objs: Seq<Object>,
    msgs: Seq<LogEvent>,
    id: int,
) -> (Seq<Object>, Seq<LogEvent>) {
    let o = objs[id];
    let p = objs[PLAYER as int];
    if !vis[o.x as int][o.y as int] {
        (objs, msgs)
    } else {
        let d2 = (p.x - o.x) * (p.x - o.x) + (p.y - o.y) * (p.y - o.y);
        if d2 >= 4 {
            let sx = spec_step_toward(p.x - o.x, p.y - o.y);
            let sy = spec_step_toward(p.y - o.y, p.x - o.x);
            if spec_is_blocked(m, objs, o.x + sx, o.y + sy) {
                (objs, msgs)
            } else {
                (objs.update(id, Object { x: (o.x + sx) as i32, y: (o.y + sy) as i32, ..o }), msgs)
            }
        } else if p.fighter is Some && p.fighter->0.hp > 0 {
            spec_ai_attack_player(objs, msgs, id)
        } else {
            (objs, msgs)
        }
    }
}

/// One monster takes its basic turn: chase the player while far, strike
/// when adjacent. The store and the log afterward are exactly
/// `ai_turn_spec` of the store and the log before.
pub fn ai_take_turn(monster_id: usize, fov: &FovMap, game: &mut Game, objects: &mut Vec<Object>)
    requires
        store_wf(grid(old(game).map@), old(objects)@),
        monster_id < old(objects)@.len(),
        fov.wf(),
        fov.spec_width() == grid(old(game).map@).len(),
        fov.spec_height() == grid(old(game).map@)[0].len(),
    ensures
        final(game).map == old(game).map,
        store_wf(grid(final(game).map@), final(objects)@),
        final(objects)@.len() == old(objects)@.len(),
        (final(objects)@, final(game).messages@) == ai_turn_spec(
            grid(fov.visible@),
            grid(old(game).map@),
            old(objects)@,
            old(game).messages@,
            monster_id as int,
        ),
{
    let ghost objs = objects@;
    let ghost msgs = game.messages@;
    let ghost m = grid(game.map@);
    let ghost vis = grid(fov.visible@);

    let (monster_x, monster_y) = objects[monster_id].pos();
    if fov.is_in_fov(monster_x, monster_y) {
        let d = objects[monster_id].distance_to(&objects[PLAYER]);
        let ghost o = objs[monster_id as int];
        let ghost p = objs[PLAYER as int];
        let ghost d2 = (p.x - o.x) * (p.x - o.x) + (p.y - o.y) * (p.y - o.y);
        proof {
            if d >= 2 {
                assert(d * d >= 4) by (nonlinear_arith)
                    requires
                        d >= 2,
                {
                }
            } else {
                assert((d + 1) * (d + 1) <= 4) by (nonlinear_arith)
                    requires
                        0 <= d < 2,
                {
                }
            }
        }
        if d >= 2 {
            let (player_x, player_y) = objects[PLAYER].pos();
            move_towards(monster_id, player_x, player_y, game, objects);
            proof {
                assert((final(objects)@, game.messages@) =~~= ai_turn_spec(
                    vis,
                    m,
                    objs,
                    msgs,
                    monster_id as int,
                ));
            }
        } else {
            let player_has_hp = match objects[PLAYER].fighter {
                Some(f) => f.hp > 0,
                None => false,
            };
            if player_has_hp {
                let attacker_name = objects[monster_id].name.clone();
                let attacker_fighter = objects[monster_id].fighter;
                attack_core(&attacker_name, attacker_fighter, &mut objects[PLAYER], game);
                proof {
                    assert(objects@ == objs.update(PLAYER as int, objects@[PLAYER as int]));
                    lemma_store_wf_after_hit(m, objs, objects@, PLAYER as int);
                    assert((objects@, game.messages@) =~~= ai_turn_spec(
                        vis,
                        m,
                        objs,
                        msgs,
                        monster_id as int,
                    ));
                }
            }
        }
    }
}

/// The whole AI phase as a function of the state: each entity carrying a
/// behavior tag acts once, in store order, from index `i` on.
pub open spec fn ai_phase_spec(
    vis: Seq<Seq<bool>>,
    m: Seq<Seq<Tile>>,
    objs: Seq<Object>,
    msgs: Seq<LogEvent>,
    i: int,
) -> (Seq<Object>, Seq<LogEvent>)
    decreases objs.len() - i
    when 0 <= i
{
    if i >= objs.len() {
        (objs, msgs)
    } else {
        let stepped = if objs[i].ai is Some {
            ai_turn_spec(vis, m, objs, msgs, i)
        } else {
            (objs, msgs)
        };
        ai_phase_spec(vis, m, stepped.0, stepped.1, i + 1)
    }
}

/// One monster's turn never changes the store's length.
proof fn lemma_ai_turn_len(
    vis: Seq<Seq<bool>>,
    m: Seq<Seq<Tile>>,
    objs: Seq<Object>,
    msgs: Seq<LogEvent>,
    id: int,
)
    requires
        0 <= id < objs.len(),
    ensures
        ai_turn_spec(vis, m, objs, msgs, id).0.len() == objs.len(),
{
}

/// Run the AI phase: only after a turn-consuming player action, and only
/// while the player is alive, every entity with a behavior tag acts once,
/// in store order. Otherwise nothing in the world changes.
pub fn ai_phase(action: PlayerAction, fov: &FovMap, game: &mut Game, objects: &mut Vec<Object>)
    requires
        store_wf(grid(old(game).map@), old(objects)@),
        fov.wf(),
        fov.spec_width() == grid(old(game).map@).len(),
        fov.spec_height() == grid(old(game).map@)[0].len(),
    ensures
        final(game).map == old(game).map,
        store_wf(grid(final(game).map@), final(objects)@),
        final(objects)@.len() == old(objects)@.len(),
        if action == PlayerAction::TookTurn && old(objects)@[PLAYER as int].alive {
            (final(objects)@, final(game).messages@) == ai_phase_spec(
                grid(fov.visible@),
                grid(old(game).map@),
                old(objects)@,
                old(game).messages@,
                0,
            )
        } else {
            final(objects)@ == old(objects)@ && final(game).messages@ == old(game).messages@
        },
{
    let ghost objs0 = objects@;
    let ghost msgs0 = game.messages@;
    let ghost m = grid(game.map@);
    let ghost vis = grid(fov.visible@);

    if !(action == PlayerAction::TookTurn && objects[PLAYER].alive) {
        return ;
    }
    let mut id: usize = 0;
    let len = objects.len();
    while id < len
        invariant
            0 <= id <= len,
            len == objs0.len(),
            objects@.len() == len,
            m == grid(game.map@),
            game.map == old(game).map,
            store_wf(m, objects@),
            fov.wf(),
            vis == grid(fov.visible@),
            fov.spec_width() == m.len(),
            fov.spec_height() == m[0].len(),
            ai_phase_spec(vis, m, objs0, msgs0, 0) == ai_phase_spec(
                vis,
                m,
                objects@,
                game.messages@,
                id as int,
            ),
        decreases len - id,
    {
        let ghost objs_i = objects@;
        let ghost msgs_i = game.messages@;
        if objects[id].ai.is_some() {
            ai_take_turn(id, fov, game, objects);
        }
        proof {
            lemma_ai_turn_len(vis, m, objs_i, msgs_i, id as int);
            assert(ai_phase_spec(vis, m, objs_i, msgs_i, id as int) == ai_phase_spec(
                vis,
                m,
                objects@,
                game.messages@,
                id as int + 1,
            ));
        }
        id = id + 1;
    }
}

/// Recompute the field of view and the explored flags only when the player
/// actually moved since the last tick. This is a contract, not merely an
/// optimization: the visible-set computation is the most expensive per-tick
/// operation and must be skipped when the observer stood still.
pub fn refresh_fov(
    prev_pos: (i32, i32),
    cfg: &Config,
    fov: &mut FovMap,
    game: &mut Game,
    objects: &Vec<Object>,
)
    requires
        cfg.wf(),
        store_wf(grid(old(game).map@), objects@),
        old(fov).wf(),
        old(fov).spec_width() == grid(old(game).map@).len(),
        old(fov).spec_height() == grid(old(game).map@)[0].len(),
    ensures
        final(game).messages == old(game).messages,
        final(fov).wf(),
        final(fov).transparent == old(fov).transparent,
        grid(final(game).map@).len() == grid(old(game).map@).len(),
        forall|a: int|
            0 <= a < grid(old(game).map@).len() ==> (#[trigger] grid(final(game).map@)[a]).len()
                == grid(old(game).map@)[a].len(),
        ({
            let p = objects@[PLAYER as int];
            if (p.x, p.y) == prev_pos {
                final(fov).visible == old(fov).visible && final(game).map == old(game).map
            } else {
                &&& forall|x: int, y: int|
                    0 <= x < old(fov).spec_width() && 0 <= y < old(fov).spec_height()
                        ==> #[trigger] grid(final(fov).visible@)[x][y] == spec_visible(
                        grid(old(fov).transparent@),
                        p.x as int,
                        p.y as int,
                        x,
                        y,
                        cfg.torch_radius as int,
                        cfg.fov_light_walls,
                    )
                &&& forall|x: int, y: int|
                    0 <= x < grid(old(game).map@).len() && 0 <= y < grid(old(game).map@)[0].len()
                        ==> #[trigger] grid(final(game).map@)[x][y] == spec_explore_tile(
                        grid(old(game).map@)[x][y],
                        grid(final(fov).visible@)[x][y],
                    )
            }
        }),
{
    let (px, py) = objects[PLAYER].pos();
    if !(px == prev_pos.0 && py == prev_pos.1) {
        fov.compute_fov(px, py, cfg.torch_radius, cfg.fov_light_walls);
        update_explored(game, fov);
    }
}

} // verus!
