use tile_rpg::encounter::{player_encounter_checking, EncounterTracker};
use tile_rpg::geometry::Vec2;
use tile_rpg::mode::{GameMode, TransitionRequest};
use tile_rpg::movement::{
    can_step, player_movement, step_for, touches_kind, velocity_for, wall_collision_check,
    DirectionInput, Player,
};
use tile_rpg::tilemap::{parse_map, TileKind};

fn v(x: i64, y: i64) -> Vec2 {
    Vec2 { x, y }
}

fn keys(up: bool, down: bool, left: bool, right: bool) -> DirectionInput {
    DirectionInput { up, down, left, right }
}

fn right() -> DirectionInput {
    keys(false, false, false, true)
}

fn player_at(x: i64, y: i64, speed: u32) -> Player {
    Player { position: v(x, y), speed, just_moved: false }
}

#[test]
fn step_is_speed_times_tile_times_time() {
    assert_eq!(step_for(1000, 1_000_000), 1000);
    assert_eq!(step_for(3000, 1_000_000), 3000);
    assert_eq!(step_for(3000, 16_667), 50);
    assert_eq!(step_for(3000, 16_666), 49);
    assert_eq!(step_for(1500, 1_000_000), 1500);
    assert_eq!(step_for(2750, 16_667), 45);
    assert_eq!(step_for(1, 1_000_000), 1);
    assert_eq!(step_for(1, 999_999), 0);
    assert_eq!(step_for(0, 1_000_000), 0);
    assert_eq!(step_for(5000, 0), 0);
    assert_eq!(step_for(1000, 999), 0);
    assert_eq!(step_for(1000, 1000), 1);
    assert_eq!(step_for(u32::MAX, u32::MAX), 18_446_744_065_119);
}

#[test]
fn velocity_follows_the_keys() {
    assert_eq!(velocity_for(keys(false, false, false, false), 50), v(0, 0));
    assert_eq!(velocity_for(keys(true, false, false, false), 50), v(0, 50));
    assert_eq!(velocity_for(keys(false, true, false, false), 50), v(0, -50));
    assert_eq!(velocity_for(keys(false, false, true, false), 50), v(-50, 0));
    assert_eq!(velocity_for(keys(false, false, false, true), 50), v(50, 0));
    assert_eq!(velocity_for(keys(true, false, false, true), 50), v(50, 50));
    assert_eq!(velocity_for(keys(false, true, true, false), 50), v(-50, -50));
    assert_eq!(velocity_for(keys(true, true, false, false), 50), v(0, 0));
    assert_eq!(velocity_for(keys(false, false, true, true), 50), v(0, 0));
    assert_eq!(velocity_for(keys(true, true, true, true), 50), v(0, 0));
    assert_eq!(velocity_for(keys(true, true, false, true), 50), v(50, 0));
    assert_eq!(velocity_for(keys(true, false, false, true), 0), v(0, 0));
}

#[test]
fn the_wall_test_uses_nine_tenths_of_a_tile() {
    assert!(wall_collision_check(v(0, 0), v(0, 0)));
    assert!(wall_collision_check(v(0, 0), v(949, 0)));
    assert!(!wall_collision_check(v(0, 0), v(950, 0)));
    assert!(wall_collision_check(v(0, 0), v(-949, 949)));
    assert!(!wall_collision_check(v(0, 0), v(0, -950)));
    assert!(!wall_collision_check(v(0, 0), v(1000, 0)));
    assert!(!wall_collision_check(v(2000, -1000), v(1000, -1000)));
    assert!(wall_collision_check(v(1951, -1000), v(1000, -1000)) == false);
    assert!(wall_collision_check(v(1949, -1000), v(1000, -1000)));
}

#[test]
fn an_actor_in_a_cell_does_not_touch_its_neighbours() {
    let map = parse_map("###\n#.#\n###").unwrap();
    assert!(!touches_kind(&map, TileKind::Blocking, v(1000, -1000)));
    assert!(touches_kind(&map, TileKind::Open, v(1000, -1000)));
    assert!(touches_kind(&map, TileKind::Blocking, v(1051, -1000)));
    assert!(!touches_kind(&map, TileKind::Blocking, v(1050, -1050)));
    assert!(touches_kind(&map, TileKind::Blocking, v(1000, -949)));
    assert!(!touches_kind(&map, TileKind::Encounter, v(1000, -1000)));
}

#[test]
fn touching_looks_at_the_kind_asked_for() {
    let map = parse_map("#~.").unwrap();
    assert!(touches_kind(&map, TileKind::Blocking, v(0, 0)));
    assert!(!touches_kind(&map, TileKind::Encounter, v(0, 0)));
    assert!(touches_kind(&map, TileKind::Encounter, v(1000, 0)));
    assert!(touches_kind(&map, TileKind::Encounter, v(500, 0)));
    assert!(touches_kind(&map, TileKind::Blocking, v(500, 0)));
    assert!(touches_kind(&map, TileKind::Open, v(2949, 949)));
    assert!(!touches_kind(&map, TileKind::Open, v(2950, 0)));
    let empty = parse_map("").unwrap();
    assert!(!touches_kind(&empty, TileKind::Blocking, v(0, 0)));
}

#[test]
fn a_blocked_move_leaves_the_player_in_place() {
    let map = parse_map("..#").unwrap();
    let mut player = player_at(1000, 0, 1000);
    player.just_moved = true;
    player_movement(&mut player, &map, right(), 1_000_000);
    assert_eq!(player, player_at(1000, 0, 1000));
    let mut near = player_at(1000, 0, 1000);
    player_movement(&mut near, &map, right(), 51_000);
    assert_eq!(near, player_at(1000, 0, 1000));
    assert!(!near.just_moved);
}

#[test]
fn a_move_is_all_or_nothing() {
    let map = parse_map("..#").unwrap();
    let mut player = player_at(1000, 0, 1000);
    player_movement(&mut player, &map, right(), 50_000);
    assert_eq!(player, Player { position: v(1050, 0), speed: 1000, just_moved: true });
    player_movement(&mut player, &map, right(), 50_000);
    assert_eq!(player, Player { position: v(1050, 0), speed: 1000, just_moved: false });
    player_movement(&mut player, &map, keys(true, false, false, true), 1_000_000);
    assert_eq!(player, Player { position: v(1050, 0), speed: 1000, just_moved: false });
}

#[test]
fn a_free_move_goes_at_most_one_step() {
    let map = parse_map("#").unwrap();
    let mut player = player_at(5000, -5000, 3000);
    player_movement(&mut player, &map, right(), 1_000_000);
    assert_eq!(player, Player { position: v(8000, -5000), speed: 3000, just_moved: true });
    player_movement(&mut player, &map, keys(true, false, true, false), 1_000_000);
    assert_eq!(player, Player { position: v(5879, -2879), speed: 3000, just_moved: true });
    let dx: i64 = 5879 - 8000;
    let dy: i64 = -2879 + 5000;
    assert!(dx * dx + dy * dy <= 3000 * 3000);
    player_movement(&mut player, &map, keys(false, true, false, false), 16_667);
    assert_eq!(player, Player { position: v(5879, -2929), speed: 3000, just_moved: true });
}

#[test]
fn diagonal_steps_are_no_longer_than_straight_ones() {
    let map = parse_map("").unwrap();
    for delta in [1u32, 999, 1000, 16_667, 333_333, 1_000_000, 7_654_321] {
        for speed in [1u32, 999, 1000, 1500, 3000, 10_000] {
            let step = step_for(speed, delta) as i64;
            for up in [false, true] {
                for down in [false, true] {
                    for left in [false, true] {
                        for right in [false, true] {
                            let mut player = player_at(0, 0, speed);
                            player_movement(&mut player, &map, keys(up, down, left, right), delta);
                            let p = player.position;
                            assert!(p.x * p.x + p.y * p.y <= step * step);
                            let raw = velocity_for(keys(up, down, left, right), step as u64);
                            assert_eq!(player.just_moved, raw != v(0, 0));
                            if raw.x == 0 || raw.y == 0 {
                                assert_eq!(p, raw);
                            }
                        }
                    }
                }
            }
        }
    }
}

#[test]
fn keys_that_cancel_do_not_move_the_player() {
    let map = parse_map("...").unwrap();
    let mut player = player_at(1000, 0, 3000);
    player.just_moved = true;
    player_movement(&mut player, &map, keys(true, true, true, true), 1_000_000);
    assert_eq!(player, player_at(1000, 0, 3000));
    player.just_moved = true;
    player_movement(&mut player, &map, keys(false, false, false, false), 1_000_000);
    assert_eq!(player, player_at(1000, 0, 3000));
    player.just_moved = true;
    player_movement(&mut player, &map, right(), 0);
    assert_eq!(player, player_at(1000, 0, 3000));
}

#[test]
fn only_the_target_is_tested_against_walls() {
    let map = parse_map("#.").unwrap();
    let mut player = player_at(0, 0, 1000);
    player_movement(&mut player, &map, right(), 1_000_000);
    assert_eq!(player, Player { position: v(1000, 0), speed: 1000, just_moved: true });
    let mut stuck = player_at(0, 0, 1000);
    player_movement(&mut stuck, &map, keys(false, false, false, false), 1_000_000);
    assert_eq!(stuck, player_at(0, 0, 1000));
}

#[test]
fn movement_at_the_edge_of_the_coordinates() {
    let map = parse_map("#").unwrap();
    let mut player = player_at(i64::MAX - 1000, i64::MIN + 1000, 1000);
    player_movement(&mut player, &map, keys(false, true, false, true), 1_000_000);
    assert_eq!(
        player,
        Player { position: v(i64::MAX - 1000 + 706, i64::MIN + 1000 - 706), speed: 1000, just_moved: true }
    );
    let mut straight = player_at(i64::MAX - 1000, 0, 1000);
    player_movement(&mut straight, &map, right(), 1_000_000);
    assert_eq!(straight.position, v(i64::MAX, 0));
}

#[test]
fn stepping_onto_an_encounter_tile_asks_for_combat_once() {
    let map = parse_map("##~##").unwrap();
    let mut player = player_at(1000, 0, 1000);
    let mut tracker = EncounterTracker { cooldown: 1_000_000, elapsed: 1_000_000 };
    let mut requests: Vec<TransitionRequest> = Vec::new();

    player_movement(&mut player, &map, right(), 1_000_000);
    assert_eq!(player, Player { position: v(2000, 0), speed: 1000, just_moved: true });
    if let Some(request) = player_encounter_checking(&player, &map, &mut tracker, 1_000_000) {
        requests.push(request);
    }
    assert_eq!(requests, vec![TransitionRequest { target_mode: GameMode::Combat }]);
    assert_eq!(tracker, EncounterTracker { cooldown: 1_000_000, elapsed: 0 });

    player_movement(&mut player, &map, keys(false, false, false, false), 1_000_000);
    assert!(!player.just_moved);
    if let Some(request) = player_encounter_checking(&player, &map, &mut tracker, 1_000_000) {
        requests.push(request);
    }
    assert_eq!(requests.len(), 1);
    assert_eq!(tracker, EncounterTracker { cooldown: 1_000_000, elapsed: 0 });
}

#[test]
fn a_step_fits_while_the_coordinates_can_hold_it() {
    assert!(can_step(v(0, 0), 0));
    assert!(can_step(v(0, 0), u64::MAX >> 1));
    assert!(!can_step(v(0, 0), (u64::MAX >> 1) + 2));
    assert!(!can_step(v(0, 0), u64::MAX));
    assert!(can_step(v(i64::MAX, i64::MIN), 0));
    assert!(!can_step(v(i64::MAX, 0), 1));
    assert!(!can_step(v(0, i64::MIN), 1));
    assert!(!can_step(v(i64::MIN, 0), 1));
    assert!(!can_step(v(0, i64::MAX), 1));
    assert!(can_step(v(i64::MAX - 1000, i64::MIN + 1000), 1000));
    assert!(!can_step(v(i64::MAX - 1000, i64::MIN + 1000), 1001));
    assert!(can_step(v(-1, 0), u64::MAX >> 1));
    assert!(!can_step(v(1, 0), u64::MAX >> 1));
}
