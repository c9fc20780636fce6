use roguecore::config::Config;
use roguecore::geometry::Rect;
use roguecore::mapgen::{create_h_tunnel, create_room, create_v_tunnel, generate};
use roguecore::objects::{DeathCallback, Fighter, Object};
use roguecore::store::is_blocked;
use roguecore::tiles::{Color, Tile};

fn all_walls(width: usize, height: usize) -> Vec<Vec<Tile>> {
    let mut map = Vec::new();
    for _ in 0..width {
        let mut col = Vec::new();
        for _ in 0..height {
            col.push(Tile::wall());
        }
        map.push(col);
    }
    map
}

fn test_player(x: i32, y: i32) -> Object {
    let mut player = Object::new(x, y, '@', "player", Color { r: 255, g: 255, b: 255 }, false);
    player.alive = true;
    player.fighter = Some(Fighter {
        max_hp: 30,
        hp: 30,
        defense: 2,
        power: 5,
        on_death: DeathCallback::Player,
    });
    player
}

#[test]
fn rect_new_and_center() {
    let r = Rect::new(0, 0, 10, 10);
    assert_eq!((r.x1, r.y1, r.x2, r.y2), (0, 0, 10, 10));
    assert_eq!(r.center(), (5, 5));
    // Truncating division: a 2 x 8 room starting at (3, 1).
    let r2 = Rect::new(3, 1, 2, 8);
    assert_eq!(r2.center(), (4, 5));
}

#[test]
fn rect_contains_excludes_the_boundary() {
    let r = Rect::new(2, 2, 4, 4);
    assert!(r.contains(3, 3));
    assert!(r.contains(5, 5));
    assert!(!r.contains(2, 3));
    assert!(!r.contains(6, 3));
    assert!(!r.contains(3, 2));
    assert!(!r.contains(3, 6));
}

#[test]
fn rect_intersection_is_inclusive() {
    let a = Rect::new(0, 0, 5, 5);
    // Touching edge to edge counts as intersecting: a one-tile wall buffer
    // is enforced between rooms.
    let touching = Rect::new(5, 0, 5, 5);
    assert!(a.intersects_with(&touching));
    // One full tile of separation does not intersect.
    let apart = Rect::new(6, 0, 5, 5);
    assert!(!a.intersects_with(&apart));
    assert!(!apart.intersects_with(&a));
}

#[test]
fn carving_a_room_leaves_its_walls() {
    let mut map = all_walls(12, 12);
    let room = Rect::new(2, 2, 6, 6);
    create_room(room, &mut map);
    // Strict interior is floor.
    assert!(!map[3][3].blocked);
    assert!(!map[7][7].blocked);
    // The boundary lines stay wall.
    assert!(map[2][3].blocked);
    assert!(map[8][3].blocked);
    assert!(map[3][2].blocked);
    assert!(map[3][8].blocked);
}

#[test]
fn corridor_between_room_centers_is_floor() {
    // Two rooms whose centers are (5, 5) and (20, 5), joined by a tunnel.
    let mut map = all_walls(30, 12);
    let left = Rect::new(2, 2, 6, 6);
    let right = Rect::new(17, 2, 6, 6);
    assert_eq!(left.center(), (5, 5));
    assert_eq!(right.center(), (20, 5));
    create_room(left, &mut map);
    create_room(right, &mut map);
    create_h_tunnel(5, 20, 5, &mut map);
    for x in 5..=20 {
        assert!(!map[x as usize][5].blocked, "tile ({}, 5) should be floor", x);
    }
}

#[test]
fn tunnels_carve_inclusive_ranges_in_either_order() {
    let mut map = all_walls(12, 12);
    create_h_tunnel(8, 3, 4, &mut map);
    for x in 3..=8 {
        assert!(!map[x as usize][4].blocked);
    }
    assert!(map[2][4].blocked);
    assert!(map[9][4].blocked);
    let mut map2 = all_walls(12, 12);
    create_v_tunnel(9, 2, 6, &mut map2);
    for y in 2..=9 {
        assert!(!map2[6][y as usize].blocked);
    }
    assert!(map2[6][1].blocked);
    assert!(map2[6][10].blocked);
}

#[test]
fn generated_start_tile_is_floor_inside_first_room() {
    let cfg = Config::default();
    for _ in 0..5 {
        let mut objects = vec![test_player(25, 23)];
        let (map, rooms) = generate(80, 45, 25, 23, &mut objects, &cfg);
        assert!(!map[25][23].blocked, "the start tile must be carved floor");
        assert!(!rooms.is_empty());
        assert!(rooms[0].contains(25, 23), "the first room strictly contains the start");
    }
}

#[test]
fn generated_rooms_never_overlap() {
    let cfg = Config::default();
    let mut objects = vec![test_player(25, 23)];
    let (_map, rooms) = generate(80, 45, 25, 23, &mut objects, &cfg);
    for i in 0..rooms.len() {
        for j in 0..rooms.len() {
            if i != j {
                assert!(
                    !rooms[i].intersects_with(&rooms[j]),
                    "rooms {} and {} overlap",
                    i,
                    j
                );
            }
        }
    }
}

#[test]
fn generated_consecutive_rooms_are_connected() {
    let cfg = Config::default();
    let mut objects = vec![test_player(25, 23)];
    let (map, rooms) = generate(80, 45, 25, 23, &mut objects, &cfg);
    for w in rooms.windows(2) {
        let (ax, ay) = w[0].center();
        let (bx, by) = w[1].center();
        // One of the two L-shaped bend orders must be fully carved.
        let hv = h_floor(&map, ax, bx, ay) && v_floor(&map, ay, by, bx);
        let vh = v_floor(&map, ay, by, ax) && h_floor(&map, ax, bx, by);
        assert!(hv || vh, "no corridor between ({},{}) and ({},{})", ax, ay, bx, by);
    }
}

fn h_floor(map: &[Vec<Tile>], xa: i32, xb: i32, y: i32) -> bool {
    let (lo, hi) = if xa <= xb { (xa, xb) } else { (xb, xa) };
    (lo..=hi).all(|x| !map[x as usize][y as usize].blocked)
}

fn v_floor(map: &[Vec<Tile>], ya: i32, yb: i32, x: i32) -> bool {
    let (lo, hi) = if ya <= yb { (ya, yb) } else { (yb, ya) };
    (lo..=hi).all(|y| !map[x as usize][y as usize].blocked)
}

#[test]
fn generated_borders_stay_walled() {
    let cfg = Config::default();
    let mut objects = vec![test_player(25, 23)];
    let (map, _rooms) = generate(80, 45, 25, 23, &mut objects, &cfg);
    for x in 0..80usize {
        assert!(map[x][0].blocked);
        assert!(map[x][44].blocked);
    }
    for y in 0..45usize {
        assert!(map[0][y].blocked);
        assert!(map[79][y].blocked);
    }
}

#[test]
fn generated_room_count_and_sizes_stay_in_range() {
    let cfg = Config::default();
    for _ in 0..3 {
        let mut objects = vec![test_player(25, 23)];
        let (_map, rooms) = generate(80, 45, 25, 23, &mut objects, &cfg);
        // The first room plus at most one room per placement attempt.
        assert!(rooms.len() as i32 <= cfg.max_rooms + 1);
        for r in &rooms {
            assert!(r.x2 - r.x1 >= cfg.room_min_size && r.x2 - r.x1 <= cfg.room_max_size);
            assert!(r.y2 - r.y1 >= cfg.room_min_size && r.y2 - r.y1 <= cfg.room_max_size);
        }
        // Each accepted room holds at most the configured monster count.
        assert!(
            (objects.len() - 1) as i32 <= (rooms.len() as i32 - 1) * cfg.max_room_monsters
        );
    }
}

#[test]
fn generated_tiles_are_canonical_and_unexplored() {
    let cfg = Config::default();
    let mut objects = vec![test_player(25, 23)];
    let (map, _rooms) = generate(80, 45, 25, 23, &mut objects, &cfg);
    for col in &map {
        for t in col {
            assert!(*t == Tile::wall() || *t == Tile::empty());
            assert!(!t.explored);
        }
    }
}

#[test]
fn generated_monsters_are_valid_and_placed_on_floor() {
    let cfg = Config::default();
    let mut objects = vec![test_player(25, 23)];
    let (map, _rooms) = generate(80, 45, 25, 23, &mut objects, &cfg);
    assert_eq!(objects[0].name, "player");
    for k in 1..objects.len() {
        let m = &objects[k];
        assert!(m.alive);
        assert!(m.blocks);
        assert!(m.ai.is_some());
        let f = m.fighter.expect("a spawned monster has combat statistics");
        assert!(f.hp >= 1 && f.hp == f.max_hp);
        assert!(m.name == "orc" || m.name == "troll");
        if m.name == "orc" {
            assert_eq!((f.max_hp, f.defense, f.power), (10, 0, 3));
            assert_eq!(m.character, 'o');
        } else {
            assert_eq!((f.max_hp, f.defense, f.power), (16, 1, 4));
            assert_eq!(m.character, 'T');
        }
        assert!(!map[m.x as usize][m.y as usize].blocked);
        // No monster stands on another blocking entity.
        for j in 0..objects.len() {
            if j != k && objects[j].blocks {
                assert!(objects[j].x != m.x || objects[j].y != m.y);
            }
        }
    }
    // A blocking monster makes its tile blocked for movement.
    if objects.len() > 1 {
        let m = &objects[1];
        assert!(is_blocked(m.x, m.y, &map, &objects));
    }
}

#[test]
fn sampled_rooms_respect_the_configured_size_range() {
    let cfg = Config::default();
    for _ in 0..20 {
        let r = roguecore::mapgen::create_random_room(80, 45, &cfg);
        let w = r.x2 - r.x1;
        let h = r.y2 - r.y1;
        assert!(w >= cfg.room_min_size && w <= cfg.room_max_size);
        assert!(h >= cfg.room_min_size && h <= cfg.room_max_size);
        assert!(r.x1 >= 0 && r.x2 <= 79);
        assert!(r.y1 >= 0 && r.y2 <= 44);
    }
}
