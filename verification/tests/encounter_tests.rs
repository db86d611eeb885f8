use tile_rpg::encounter::{player_encounter_checking, EncounterTracker, Tick};
use tile_rpg::geometry::Vec2;
use tile_rpg::mode::{GameMode, TransitionRequest};
use tile_rpg::movement::Player;
use tile_rpg::tilemap::parse_map;

fn tracker(cooldown: u64, elapsed: u64) -> EncounterTracker {
    EncounterTracker { cooldown, elapsed }
}

fn tick(moved: bool, delta_micros: u32, on_encounter: bool) -> Tick {
    Tick { moved, delta_micros, on_encounter }
}

fn standing(x: i64, y: i64, just_moved: bool) -> Player {
    Player { position: Vec2 { x, y }, speed: 3000, just_moved }
}

#[test]
fn a_new_tracker_has_counted_nothing() {
    let t = EncounterTracker::new(1_000_000);
    assert_eq!(t, tracker(1_000_000, 0));
    assert!(!t.armed());
    assert!(EncounterTracker::new(0).armed());
}

#[test]
fn ticking_counts_time() {
    let mut t = EncounterTracker::new(100);
    t.tick(40);
    assert_eq!(t, tracker(100, 40));
    assert!(!t.armed());
    t.tick(59);
    assert_eq!(t, tracker(100, 99));
    assert!(!t.armed());
    t.tick(0);
    assert_eq!(t, tracker(100, 99));
    t.tick(1);
    assert_eq!(t, tracker(100, 100));
    assert!(t.armed());
}

#[test]
fn counting_goes_on_past_the_cooldown() {
    let mut t = tracker(100, 99);
    t.tick(500);
    assert_eq!(t, tracker(100, 599));
    assert!(t.armed());
    t.tick(0);
    assert_eq!(t, tracker(100, 599));
    t.tick(u32::MAX);
    assert_eq!(t, tracker(100, 599 + u32::MAX as u64));
    assert!(t.armed());

    let mut over = tracker(100, 250);
    assert!(over.armed());
    over.tick(1);
    assert_eq!(over, tracker(100, 251));

    let mut none = EncounterTracker::new(0);
    assert!(none.armed());
    none.tick(7);
    assert_eq!(none, tracker(0, 7));
    assert!(none.armed());
}

#[test]
fn counting_stops_at_the_largest_number() {
    let mut t = tracker(u64::MAX, u64::MAX - 5);
    assert!(!t.armed());
    t.tick(4);
    assert_eq!(t, tracker(u64::MAX, u64::MAX - 1));
    assert!(!t.armed());
    t.tick(1);
    assert_eq!(t, tracker(u64::MAX, u64::MAX));
    assert!(t.armed());
    t.tick(1);
    assert_eq!(t, tracker(u64::MAX, u64::MAX));
    let mut u = tracker(u64::MAX, u64::MAX - 5);
    u.tick(u32::MAX);
    assert_eq!(u, tracker(u64::MAX, u64::MAX));
    let mut w = tracker(7, u64::MAX - u32::MAX as u64);
    w.tick(u32::MAX);
    assert_eq!(w, tracker(7, u64::MAX));
    w.tick(u32::MAX);
    assert_eq!(w, tracker(7, u64::MAX));
    assert!(w.armed());
}

#[test]
fn reset_starts_over() {
    let mut t = tracker(100, 250);
    t.reset();
    assert_eq!(t, tracker(100, 0));
    assert!(!t.armed());
}

#[test]
fn time_counts_only_while_moving() {
    let mut t = EncounterTracker::new(100);
    assert!(!t.check(tick(false, 1000, true)));
    assert_eq!(t, tracker(100, 0));
    assert!(!t.check(tick(true, 60, false)));
    assert_eq!(t, tracker(100, 60));
    assert!(!t.check(tick(false, 60, true)));
    assert_eq!(t, tracker(100, 60));
}

#[test]
fn an_armed_tracker_waits_for_an_encounter_tile() {
    let mut t = EncounterTracker::new(100);
    assert!(!t.check(tick(true, 150, false)));
    assert_eq!(t, tracker(100, 150));
    assert!(t.armed());
    assert!(!t.check(tick(true, 10, false)));
    assert_eq!(t, tracker(100, 160));
    assert!(!t.check(tick(false, 10, false)));
    assert_eq!(t, tracker(100, 160));
    assert!(t.check(tick(false, 10, true)));
    assert_eq!(t, tracker(100, 0));
    assert!(!t.check(tick(false, 10, true)));
    assert_eq!(t, tracker(100, 0));
}

#[test]
fn the_tick_that_arms_the_tracker_may_fire() {
    let mut t = tracker(100, 99);
    assert!(t.check(tick(true, 1, true)));
    assert_eq!(t, tracker(100, 0));
    let mut u = tracker(100, 98);
    assert!(!u.check(tick(true, 1, true)));
    assert_eq!(u, tracker(100, 99));
}

#[test]
fn encounters_are_at_least_a_cooldown_of_movement_apart() {
    let ticks = [
        tick(true, 400, true),
        tick(true, 700, true),
        tick(false, 5000, true),
        tick(true, 300, true),
        tick(true, 300, false),
        tick(true, 300, true),
        tick(true, 500, true),
        tick(false, 500, true),
        tick(true, 999, true),
        tick(true, 1, true),
        tick(true, 1000, true),
        tick(true, 2500, true),
        tick(true, 1, true),
    ];
    let mut t = EncounterTracker::new(1000);
    let mut fired: Vec<usize> = Vec::new();
    for (i, tk) in ticks.iter().enumerate() {
        if t.check(*tk) {
            fired.push(i);
        }
    }
    assert_eq!(fired, vec![1, 6, 9, 10, 11]);
    for pair in fired.windows(2) {
        let mut moving: u64 = 0;
        for k in (pair[0] + 1)..=pair[1] {
            if ticks[k].moved {
                moving += ticks[k].delta_micros as u64;
            }
        }
        assert!(moving >= 1000);
    }
}

#[test]
fn checking_looks_at_where_the_player_stands() {
    let map = parse_map(".~.").unwrap();
    let mut t = tracker(100, 100);
    let req = player_encounter_checking(&standing(2000, 0, true), &map, &mut t, 10);
    assert_eq!(req, None);
    assert_eq!(t, tracker(100, 110));
    let req = player_encounter_checking(&standing(1950, 0, false), &map, &mut t, 10);
    assert_eq!(req, None);
    assert_eq!(t, tracker(100, 110));
    let req = player_encounter_checking(&standing(1949, 0, false), &map, &mut t, 10);
    assert_eq!(req, Some(TransitionRequest { target_mode: GameMode::Combat }));
    assert_eq!(t, tracker(100, 0));
    let req = player_encounter_checking(&standing(1000, 0, true), &map, &mut t, 99);
    assert_eq!(req, None);
    assert_eq!(t, tracker(100, 99));
    let req = player_encounter_checking(&standing(1000, 0, true), &map, &mut t, 1);
    assert_eq!(req, Some(TransitionRequest { target_mode: GameMode::Combat }));
    assert_eq!(t, tracker(100, 0));
}

#[test]
fn standing_still_on_an_encounter_tile_never_fires_again() {
    let map = parse_map("~").unwrap();
    let mut t = tracker(100, 100);
    let first = player_encounter_checking(&standing(0, 0, false), &map, &mut t, 50);
    assert_eq!(first, Some(TransitionRequest { target_mode: GameMode::Combat }));
    for _ in 0..100 {
        let again = player_encounter_checking(&standing(0, 0, false), &map, &mut t, 1_000_000);
        assert_eq!(again, None);
        assert_eq!(t, tracker(100, 0));
    }
}

#[test]
fn a_cooldown_that_passed_off_an_encounter_tile_is_kept_as_counted() {
    let map = parse_map("~").unwrap();
    let mut t = tracker(1_000_000, 900_000);
    let req = player_encounter_checking(&standing(1000, 0, true), &map, &mut t, 200_000);
    assert_eq!(req, None);
    assert_eq!(t, tracker(1_000_000, 1_100_000));
    assert!(t.armed());

    let req = player_encounter_checking(&standing(1000, 0, true), &map, &mut t, 200_000);
    assert_eq!(req, None);
    assert_eq!(t, tracker(1_000_000, 1_300_000));

    let req = player_encounter_checking(&standing(949, 0, false), &map, &mut t, 200_000);
    assert_eq!(req, Some(TransitionRequest { target_mode: GameMode::Combat }));
    assert_eq!(t, tracker(1_000_000, 0));
}

#[test]
fn several_encounter_tiles_under_the_player_ask_once() {
    let map = parse_map("~~\n~~").unwrap();
    let mut t = tracker(10, 10);
    let req = player_encounter_checking(&standing(500, -500, false), &map, &mut t, 1);
    assert_eq!(req, Some(TransitionRequest { target_mode: GameMode::Combat }));
    assert_eq!(t, tracker(10, 0));
}
