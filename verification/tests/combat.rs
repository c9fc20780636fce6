use roguecore::config::Config;
use roguecore::objects::{Ai, DeathCallback, Fighter, Object};
use roguecore::store::is_blocked;
use roguecore::tiles::{Color, Game, LogEvent, Tile};
use roguecore::turn::{handle_command, Direction, PlayerAction, PlayerCommand};

fn walled_floor(width: usize, height: usize) -> Vec<Vec<Tile>> {
    let mut map = Vec::new();
    for x in 0..width {
        let mut col = Vec::new();
        for y in 0..height {
            if x == 0 || x == width - 1 || y == 0 || y == height - 1 {
                col.push(Tile::wall());
            } else {
                col.push(Tile::empty());
            }
        }
        map.push(col);
    }
    map
}

fn player_at(x: i32, y: i32) -> Object {
    let mut player = Object::new(x, y, '@', "player", Color { r: 255, g: 255, b: 255 }, false);
    player.alive = true;
    player.fighter = Some(Fighter {
        max_hp: 30,
        hp: 30,
        defense: 2,
        power: 5,
        on_death: DeathCallback::Player,
    });
    player
}

fn monster_at(x: i32, y: i32, hp: i32, defense: i32, power: i32) -> Object {
    let mut m = Object::new(x, y, 'o', "orc", Color { r: 63, g: 127, b: 63 }, true);
    m.alive = true;
    m.ai = Some(Ai::Basic);
    m.fighter = Some(Fighter {
        max_hp: hp,
        hp,
        defense,
        power,
        on_death: DeathCallback::Monster,
    });
    m
}

#[test]
fn open_floor_move_consumes_turn_without_log() {
    // Scenario: player on an empty 80 x 43 floor moves right into open floor.
    let mut game = Game {
        map: walled_floor(80, 43),
        messages: Vec::new(),
    };
    let mut objects = vec![player_at(25, 23)];
    let action = handle_command(PlayerCommand::Move(Direction::Right), &mut game, &mut objects);
    assert_eq!(action, PlayerAction::TookTurn);
    assert_eq!(objects[0].x, 26);
    assert_eq!(objects[0].y, 23);
    assert_eq!(game.messages.len(), 0);
}

#[test]
fn blocked_move_is_idempotent_but_costs_the_turn() {
    let mut game = Game {
        map: walled_floor(10, 10),
        messages: Vec::new(),
    };
    // The player stands against the left wall; moving left targets a wall tile.
    let mut objects = vec![player_at(1, 5)];
    let action = handle_command(PlayerCommand::Move(Direction::Left), &mut game, &mut objects);
    assert_eq!(action, PlayerAction::TookTurn);
    assert_eq!(objects[0].x, 1);
    assert_eq!(objects[0].y, 5);
    assert_eq!(game.messages.len(), 0);
}

#[test]
fn high_defense_attack_has_no_effect() {
    // Scenario: a monster with defense 10 adjacent to a power-5 player.
    let mut game = Game {
        map: walled_floor(10, 10),
        messages: Vec::new(),
    };
    let mut objects = vec![player_at(4, 4), monster_at(5, 4, 20, 10, 0)];
    let action = handle_command(PlayerCommand::Move(Direction::Right), &mut game, &mut objects);
    assert_eq!(action, PlayerAction::TookTurn);
    // The player did not displace into the monster's tile.
    assert_eq!(objects[0].x, 4);
    // Damage 5 - 10 is negative: hit points unchanged, monster alive.
    assert_eq!(objects[1].fighter.unwrap().hp, 20);
    assert!(objects[1].alive);
    assert_eq!(game.messages.len(), 1);
    match &game.messages[0] {
        LogEvent::NoEffect { attacker, target } => {
            assert_eq!(attacker, "player");
            assert_eq!(target, "orc");
        }
        other => panic!("expected a no-effect event, got {:?}", other),
    }
}

#[test]
fn lethal_damage_turns_monster_into_walkable_corpse() {
    // Scenario: a monster with 3 hit points takes 5 damage.
    let mut game = Game {
        map: walled_floor(10, 10),
        messages: Vec::new(),
    };
    let mut objects = vec![player_at(4, 4), monster_at(5, 4, 3, 0, 0)];
    let attacker = player_at(4, 4);
    attacker.attack(&mut objects[1], &mut game);
    let corpse = &objects[1];
    assert!(!corpse.alive);
    assert_eq!(corpse.character, '%');
    assert_eq!(corpse.color, Color { r: 191, g: 0, b: 0 });
    assert_eq!(corpse.name, "remains of orc");
    assert!(!corpse.blocks);
    assert!(corpse.fighter.is_none());
    assert!(corpse.ai.is_none());
    // Two events: the hit for 5, then the death.
    assert_eq!(game.messages.len(), 2);
    match &game.messages[0] {
        LogEvent::Attack { attacker, target, damage } => {
            assert_eq!(attacker, "player");
            assert_eq!(target, "orc");
            assert_eq!(*damage, 5);
        }
        other => panic!("expected an attack event, got {:?}", other),
    }
    match &game.messages[1] {
        LogEvent::MonsterDied { name } => assert_eq!(name, "orc"),
        other => panic!("expected a death event, got {:?}", other),
    }
    // The corpse no longer blocks its tile (floor beneath).
    assert!(!is_blocked(5, 4, &game.map, &objects));
}

#[test]
fn combat_is_deterministic() {
    // Two identical attacks from identical state give identical results.
    let mut results = Vec::new();
    for _ in 0..2 {
        let mut game = Game {
            map: walled_floor(10, 10),
            messages: Vec::new(),
        };
        let mut target = monster_at(5, 4, 16, 1, 4);
        let attacker = player_at(4, 4);
        attacker.attack(&mut target, &mut game);
        results.push((target.fighter.unwrap().hp, target.alive, game.messages.len()));
    }
    assert_eq!(results[0], results[1]);
    // Damage 5 - 1 = 4: hit points drop from 16 to 12, one logged event.
    assert_eq!(results[0], (12, true, 1));
}

#[test]
fn dead_entity_never_retriggers_death() {
    let mut game = Game {
        map: walled_floor(10, 10),
        messages: Vec::new(),
    };
    // A dead player-like entity: alive already false, hit points below zero.
    let mut corpse = player_at(4, 4);
    corpse.alive = false;
    corpse.fighter = Some(Fighter {
        max_hp: 30,
        hp: -2,
        defense: 0,
        power: 5,
        on_death: DeathCallback::Player,
    });
    let glyph = corpse.character;
    corpse.take_damage(5, &mut game);
    // Nothing changed and no death event fired a second time.
    assert_eq!(corpse.fighter.unwrap().hp, -2);
    assert!(!corpse.alive);
    assert_eq!(corpse.character, glyph);
    assert_eq!(game.messages.len(), 0);
}

#[test]
fn zero_or_negative_damage_is_silent_to_state() {
    let mut game = Game {
        map: walled_floor(10, 10),
        messages: Vec::new(),
    };
    let mut target = monster_at(5, 4, 10, 0, 0);
    target.take_damage(0, &mut game);
    assert_eq!(target.fighter.unwrap().hp, 10);
    target.take_damage(-7, &mut game);
    assert_eq!(target.fighter.unwrap().hp, 10);
    assert!(target.alive);
    assert_eq!(game.messages.len(), 0);
}

#[test]
fn player_death_recolors_and_logs() {
    let mut game = Game {
        map: walled_floor(10, 10),
        messages: Vec::new(),
    };
    let mut player = player_at(4, 4);
    player.fighter = Some(Fighter {
        max_hp: 30,
        hp: 3,
        defense: 0,
        power: 5,
        on_death: DeathCallback::Player,
    });
    player.take_damage(5, &mut game);
    assert!(!player.alive);
    assert_eq!(player.character, '%');
    assert_eq!(player.color, Color { r: 191, g: 0, b: 0 });
    // The player keeps name and combat statistics, unlike a monster corpse.
    assert_eq!(player.name, "player");
    assert_eq!(player.fighter.unwrap().hp, -2);
    assert_eq!(game.messages.len(), 1);
    assert!(matches!(game.messages[0], LogEvent::PlayerDied));
}

#[test]
fn dead_player_cannot_move() {
    let mut game = Game {
        map: walled_floor(10, 10),
        messages: Vec::new(),
    };
    let mut player = player_at(4, 4);
    player.alive = false;
    let mut objects = vec![player];
    let action = handle_command(PlayerCommand::Move(Direction::Right), &mut game, &mut objects);
    assert_eq!(action, PlayerAction::DidntTakeTurn);
    assert_eq!(objects[0].x, 4);
}

#[test]
fn quit_toggle_and_idle_do_not_advance_the_world() {
    let mut game = Game {
        map: walled_floor(10, 10),
        messages: Vec::new(),
    };
    let mut objects = vec![player_at(4, 4)];
    assert_eq!(
        handle_command(PlayerCommand::Quit, &mut game, &mut objects),
        PlayerAction::Exit
    );
    assert_eq!(
        handle_command(PlayerCommand::ToggleDisplayMode, &mut game, &mut objects),
        PlayerAction::DidntTakeTurn
    );
    assert_eq!(
        handle_command(PlayerCommand::Idle, &mut game, &mut objects),
        PlayerAction::DidntTakeTurn
    );
    assert_eq!(objects[0].x, 4);
    assert_eq!(objects[0].y, 4);
    assert_eq!(game.messages.len(), 0);
}

#[test]
fn config_default_matches_stock_values() {
    let cfg = Config::default();
    assert_eq!(cfg.map_width, 80);
    assert_eq!(cfg.map_height, 45);
    assert_eq!(cfg.room_min_size, 6);
    assert_eq!(cfg.room_max_size, 10);
    assert_eq!(cfg.max_rooms, 30);
    assert_eq!(cfg.max_room_monsters, 3);
    assert_eq!(cfg.torch_radius, 10);
    assert!(cfg.fov_light_walls);
}
