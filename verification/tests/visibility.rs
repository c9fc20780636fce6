use roguecore::config::Config;
use roguecore::fov::{init_fov_map, update_explored, FovMap};
use roguecore::objects::{Ai, DeathCallback, Fighter, Object};
use roguecore::render::{darken, display_color, draw_order, player_stats};
use roguecore::tiles::{Color, Game, LogEvent, Tile};
use roguecore::turn::{ai_phase, ai_take_turn, refresh_fov, PlayerAction};

fn walled_floor(width: usize, height: usize) -> Vec<Vec<Tile>> {
    let mut map = Vec::new();
    for x in 0..width {
        let mut col = Vec::new();
        for y in 0..height {
            if x == 0 || x == width - 1 || y == 0 || y == height - 1 {
                col.push(Tile::wall());
            } else {
                col.push(Tile::empty());
            }
        }
        map.push(col);
    }
    map
}

fn player_at(x: i32, y: i32) -> Object {
    let mut player = Object::new(x, y, '@', "player", Color { r: 255, g: 255, b: 255 }, false);
    player.alive = true;
    player.fighter = Some(Fighter {
        max_hp: 30,
        hp: 30,
        defense: 2,
        power: 5,
        on_death: DeathCallback::Player,
    });
    player
}

fn monster_at(x: i32, y: i32) -> Object {
    let mut m = Object::new(x, y, 'o', "orc", Color { r: 63, g: 127, b: 63 }, true);
    m.alive = true;
    m.ai = Some(Ai::Basic);
    m.fighter = Some(Fighter {
        max_hp: 10,
        hp: 10,
        defense: 0,
        power: 3,
        on_death: DeathCallback::Monster,
    });
    m
}

fn fov_for(game: &Game) -> FovMap {
    let width = game.map.len() as i32;
    let height = game.map[0].len() as i32;
    let mut fov = FovMap::new(width, height);
    init_fov_map(&mut fov, game);
    fov
}

#[test]
fn init_copies_sight_blocking() {
    let game = Game {
        map: walled_floor(9, 9),
        messages: Vec::new(),
    };
    let fov = fov_for(&game);
    // A wall blocks sight; open floor does not.
    assert!(!fov.transparent[0][0]);
    assert!(fov.transparent[4][4]);
}

#[test]
fn radius_limits_the_visible_set() {
    let game = Game {
        map: walled_floor(11, 11),
        messages: Vec::new(),
    };
    let mut fov = fov_for(&game);
    fov.compute_fov(5, 5, 2, true);
    assert!(fov.is_in_fov(5, 5));
    assert!(fov.is_in_fov(7, 5));
    assert!(fov.is_in_fov(6, 6));
    // Distance 3 exceeds radius 2.
    assert!(!fov.is_in_fov(8, 5));
    assert!(!fov.is_in_fov(5, 9));
}

#[test]
fn walls_block_sight_and_light_walls_gates_wall_faces() {
    let mut map = walled_floor(11, 11);
    // A full vertical wall at x = 5.
    for y in 0..11 {
        map[5][y] = Tile::wall();
    }
    let game = Game {
        map,
        messages: Vec::new(),
    };
    let mut fov = fov_for(&game);
    fov.compute_fov(2, 5, 8, true);
    // The far side of the wall stays dark, the wall face itself is lit.
    assert!(!fov.is_in_fov(7, 5));
    assert!(fov.is_in_fov(5, 5));
    assert!(fov.is_in_fov(4, 5));
    // Without wall lighting even the wall face stays dark.
    fov.compute_fov(2, 5, 8, false);
    assert!(!fov.is_in_fov(5, 5));
    assert!(fov.is_in_fov(4, 5));
}

#[test]
fn explored_is_monotonic_across_recomputations() {
    let mut game = Game {
        map: walled_floor(20, 9),
        messages: Vec::new(),
    };
    let mut fov = fov_for(&game);
    // Light the area around (3, 4), marking it explored.
    fov.compute_fov(3, 4, 2, true);
    update_explored(&mut game, &fov);
    assert!(game.map[3][4].explored);
    assert!(game.map[4][4].explored);
    // Move the observer far away: (3, 4) leaves the visible set...
    fov.compute_fov(16, 4, 2, true);
    update_explored(&mut game, &fov);
    assert!(!fov.is_in_fov(3, 4));
    // ...but stays explored, after any number of further recomputations.
    assert!(game.map[3][4].explored);
    assert!(game.map[4][4].explored);
    for _ in 0..3 {
        fov.compute_fov(16, 4, 2, true);
        update_explored(&mut game, &fov);
    }
    assert!(game.map[3][4].explored);
}

#[test]
fn refresh_skips_when_the_player_stood_still() {
    let cfg = Config::default();
    let mut game = Game {
        map: walled_floor(11, 11),
        messages: Vec::new(),
    };
    let mut fov = fov_for(&game);
    let objects = vec![player_at(5, 5)];
    // The player did not move: nothing is computed, nothing explored.
    refresh_fov((5, 5), &cfg, &mut fov, &mut game, &objects);
    assert!(!fov.is_in_fov(5, 5));
    assert!(!game.map[5][5].explored);
    // The player moved: the visible set and the explored flags update.
    refresh_fov((4, 5), &cfg, &mut fov, &mut game, &objects);
    assert!(fov.is_in_fov(5, 5));
    assert!(game.map[5][5].explored);
}

#[test]
fn darken_dims_toward_black() {
    let c = Color { r: 50, g: 50, b: 150 };
    assert_eq!(darken(c), Color { r: 30, g: 30, b: 90 });
    assert_eq!(darken(Color { r: 0, g: 0, b: 100 }), Color { r: 0, g: 0, b: 60 });
    assert_eq!(darken(Color { r: 255, g: 255, b: 255 }), Color { r: 153, g: 153, b: 153 });
}

#[test]
fn display_color_follows_visibility_and_exploration() {
    let mut tile = Tile::empty();
    // Undiscovered: never drawn.
    assert_eq!(display_color(tile, false), None);
    // Visible: base color.
    assert_eq!(display_color(tile, true), Some(Color { r: 50, g: 50, b: 150 }));
    // Explored but out of view: dimmed.
    tile.explored = true;
    assert_eq!(display_color(tile, false), Some(Color { r: 30, g: 30, b: 90 }));
}

#[test]
fn draw_order_puts_corpses_first_and_hides_the_unseen() {
    let game = Game {
        map: walled_floor(11, 11),
        messages: Vec::new(),
    };
    let mut fov = fov_for(&game);
    let mut corpse = monster_at(4, 5);
    corpse.blocks = false;
    let objects = vec![player_at(5, 5), monster_at(6, 5), corpse, monster_at(9, 9)];
    fov.compute_fov(5, 5, 2, true);
    let order = draw_order(&objects, &fov);
    // Non-blocking first (player, corpse), then the blocking monster;
    // the far monster at (9, 9) is out of view and not drawn at all.
    assert_eq!(order, vec![0, 2, 1]);
}

#[test]
fn player_stats_snapshot() {
    let objects = vec![player_at(5, 5)];
    assert_eq!(player_stats(&objects), Some((30, 30)));
    let mut bare = vec![Object::new(1, 1, '@', "ghost", Color { r: 1, g: 2, b: 3 }, false)];
    bare[0].alive = true;
    assert_eq!(player_stats(&bare), None);
}

#[test]
fn distance_is_truncated_euclidean() {
    let a = player_at(0, 0);
    assert_eq!(a.distance_to(&player_at(3, 4)), 5);
    assert_eq!(a.distance_to(&player_at(1, 1)), 1);
    assert_eq!(a.distance_to(&player_at(0, 0)), 0);
    assert_eq!(a.distance_to(&player_at(-2, 0)), 2);
    assert_eq!(a.distance_to(&player_at(2, 2)), 2);
}

#[test]
fn distant_monster_in_view_approaches_the_player() {
    let mut game = Game {
        map: walled_floor(11, 11),
        messages: Vec::new(),
    };
    let mut fov = fov_for(&game);
    let mut objects = vec![player_at(2, 5), monster_at(8, 5)];
    fov.compute_fov(2, 5, 10, true);
    ai_take_turn(1, &fov, &mut game, &mut objects);
    assert_eq!((objects[1].x, objects[1].y), (7, 5));
    assert_eq!(game.messages.len(), 0);
    // The greedy step is diagonal when the target is offset on both axes.
    let mut objects2 = vec![player_at(2, 2), monster_at(8, 8)];
    fov.compute_fov(2, 2, 10, true);
    ai_take_turn(1, &fov, &mut game, &mut objects2);
    assert_eq!((objects2[1].x, objects2[1].y), (7, 7));
}

#[test]
fn adjacent_monster_attacks_the_living_player() {
    let mut game = Game {
        map: walled_floor(11, 11),
        messages: Vec::new(),
    };
    let mut fov = fov_for(&game);
    let mut objects = vec![player_at(5, 5), monster_at(6, 5)];
    fov.compute_fov(5, 5, 10, true);
    ai_take_turn(1, &fov, &mut game, &mut objects);
    // Orc power 3 against player defense 2: one point of damage.
    assert_eq!(objects[0].fighter.unwrap().hp, 29);
    assert_eq!(game.messages.len(), 1);
    match &game.messages[0] {
        LogEvent::Attack { attacker, target, damage } => {
            assert_eq!(attacker, "orc");
            assert_eq!(target, "player");
            assert_eq!(*damage, 1);
        }
        other => panic!("expected an attack event, got {:?}", other),
    }
}

#[test]
fn monster_out_of_view_does_nothing() {
    let mut game = Game {
        map: walled_floor(11, 11),
        messages: Vec::new(),
    };
    let mut fov = fov_for(&game);
    let mut objects = vec![player_at(2, 5), monster_at(8, 5)];
    fov.compute_fov(2, 5, 2, true);
    ai_take_turn(1, &fov, &mut game, &mut objects);
    assert_eq!((objects[1].x, objects[1].y), (8, 5));
    assert_eq!(game.messages.len(), 0);
}

#[test]
fn ai_phase_runs_only_after_a_consumed_turn() {
    let mut game = Game {
        map: walled_floor(11, 11),
        messages: Vec::new(),
    };
    let mut fov = fov_for(&game);
    let mut objects = vec![player_at(5, 5), monster_at(6, 5)];
    fov.compute_fov(5, 5, 10, true);
    // No turn was consumed: the monster holds still.
    ai_phase(PlayerAction::DidntTakeTurn, &fov, &mut game, &mut objects);
    assert_eq!(game.messages.len(), 0);
    assert_eq!(objects[0].fighter.unwrap().hp, 30);
    // A consumed turn lets the adjacent monster strike once.
    ai_phase(PlayerAction::TookTurn, &fov, &mut game, &mut objects);
    assert_eq!(game.messages.len(), 1);
    assert_eq!(objects[0].fighter.unwrap().hp, 29);
}

#[test]
fn ai_phase_stops_attacking_a_just_killed_player() {
    let mut game = Game {
        map: walled_floor(11, 11),
        messages: Vec::new(),
    };
    let mut fov = fov_for(&game);
    // Two adjacent monsters; the player has one hit point left.
    let mut weak_player = player_at(5, 5);
    weak_player.fighter = Some(Fighter {
        max_hp: 30,
        hp: 1,
        defense: 0,
        power: 5,
        on_death: DeathCallback::Player,
    });
    let mut objects = vec![weak_player, monster_at(6, 5), monster_at(4, 5)];
    fov.compute_fov(5, 5, 10, true);
    ai_phase(PlayerAction::TookTurn, &fov, &mut game, &mut objects);
    // The first monster's hit kills the player (3 damage against 1 hp);
    // the second monster must not strike the corpse.
    assert!(!objects[0].alive);
    let attacks = game
        .messages
        .iter()
        .filter(|e| matches!(e, LogEvent::Attack { .. }))
        .count();
    assert_eq!(attacks, 1);
    assert!(game.messages.iter().any(|e| matches!(e, LogEvent::PlayerDied)));
}
