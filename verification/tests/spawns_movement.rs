use rustyhack::components::{MonsterDetails, PlayerDetails, Position};
use rustyhack::movement::{
    check_if_outside_spawn_range, decide_monster_movement, get_all_players_nearby, get_nearest_target, move_randomly,
    move_towards, move_towards_target, steer_towards_target, update_monster_velocities, update_player_positions_resource,
};
use rustyhack::spawns::{
    count_alive_monsters, count_monsters_needing_respawn, get_all_spawns_positions, get_default_spawn_counts,
    initial_spawn_positions, initialise_all_spawn_definitions, lookup_count, respawn_monsters, respawns_for_rolls, roll_hits,
    should_respawn_this_tick, spawn_monsters, spawn_position_at, spawn_single_monster_positions, AllSpawnCounts,
    MonsterSpawnPositions, PositionWithoutMap, Spawns,
};

fn at(map: &str, x: u32, y: u32) -> Position {
    Position { update_available: false, pos_x: x, pos_y: y, current_map: map.to_string(), velocity_x: 0, velocity_y: 0 }
}

fn same(a: &Position, b: &Position) -> bool {
    a.update_available == b.update_available
        && a.pos_x == b.pos_x
        && a.pos_y == b.pos_y
        && a.current_map == b.current_map
        && a.velocity_x == b.velocity_x
        && a.velocity_y == b.velocity_y
}

fn monster(kind: &str, map: &str, x: u32, y: u32) -> MonsterDetails {
    MonsterDetails { id: 99, monster_type: kind.to_string(), spawn_position: at(map, x, y), current_target: None }
}

fn points(list: &[(u32, u32)]) -> Vec<PositionWithoutMap> {
    list.iter().map(|&(x, y)| PositionWithoutMap { x, y }).collect()
}

fn home_spawns() -> Spawns {
    Spawns {
        monsters: vec![
            MonsterSpawnPositions { monster_type: "Rat".to_string(), spawn_positions: points(&[(1, 1), (2, 2)]) },
            MonsterSpawnPositions { monster_type: "Bat".to_string(), spawn_positions: points(&[(5, 5)]) },
        ],
    }
}

fn counts(entries: &[(&str, &[(&str, u32)])]) -> AllSpawnCounts {
    entries
        .iter()
        .map(|(map, inner)| (map.to_string(), inner.iter().map(|(m, c)| (m.to_string(), *c)).collect()))
        .collect()
}

#[test]
fn default_counts_are_the_numbers_of_spawn_points() {
    let all = vec![("Home".to_string(), home_spawns())];
    let defaults = get_default_spawn_counts(&all);
    assert_eq!(lookup_count(&defaults, &"Home".to_string(), &"Rat".to_string()), 2);
    assert_eq!(lookup_count(&defaults, &"Home".to_string(), &"Bat".to_string()), 1);
    assert_eq!(lookup_count(&defaults, &"Home".to_string(), &"Orc".to_string()), 0);
    assert_eq!(lookup_count(&defaults, &"Cave".to_string(), &"Rat".to_string()), 0);
}

#[test]
fn counting_a_living_monster_adds_one() {
    let counts0: AllSpawnCounts = Vec::new();
    let counts1 = count_alive_monsters(counts0, &monster("Rat", "Home", 0, 0), &at("Home", 3, 3));
    let counts2 = count_alive_monsters(counts1, &monster("Rat", "Home", 0, 0), &at("Home", 4, 3));
    let counts3 = count_alive_monsters(counts2, &monster("Bat", "Home", 0, 0), &at("Cave", 4, 3));
    assert_eq!(lookup_count(&counts3, &"Home".to_string(), &"Rat".to_string()), 2);
    assert_eq!(lookup_count(&counts3, &"Cave".to_string(), &"Bat".to_string()), 1);
    assert_eq!(lookup_count(&counts3, &"Home".to_string(), &"Bat".to_string()), 0);
}

#[test]
fn shortfall_is_the_full_population_less_the_living() {
    let defaults = counts(&[("Home", &[("Rat", 3), ("Bat", 1)])]);
    let current = counts(&[("Home", &[("Rat", 1), ("Bat", 1)])]);
    let needing = count_monsters_needing_respawn(&current, &defaults);
    assert_eq!(lookup_count(&needing, &"Home".to_string(), &"Rat".to_string()), 2);
    assert_eq!(lookup_count(&needing, &"Home".to_string(), &"Bat".to_string()), 0);
}

#[test]
fn a_full_population_needs_nothing() {
    let defaults = counts(&[("Home", &[("Rat", 3)]), ("Cave", &[("Bat", 2)])]);
    let needing = count_monsters_needing_respawn(&defaults, &defaults);
    assert_eq!(needing, counts(&[("Home", &[("Rat", 0)]), ("Cave", &[("Bat", 0)])]));
}

#[test]
fn with_no_monster_alive_everything_is_missing() {
    let defaults = counts(&[("Home", &[("Rat", 3)])]);
    let needing = count_monsters_needing_respawn(&Vec::new(), &defaults);
    assert_eq!(needing, defaults);
}

#[test]
fn a_roll_of_five_or_less_brings_a_missing_monster_back() {
    let needing = counts(&[("Home", &[("Rat", 2), ("Bat", 0), ("Orc", 1)])]);
    let requests = respawns_for_rolls(&needing, &vec![vec![5, 0, 6]]);
    assert_eq!(requests, vec![("Home".to_string(), "Rat".to_string())]);
    let none = respawns_for_rolls(&needing, &vec![vec![6, 0, 100]]);
    assert!(none.is_empty());
}

#[test]
fn nothing_missing_nothing_respawns() {
    let needing = counts(&[("Home", &[("Rat", 0)]), ("Cave", &[("Bat", 0)])]);
    for _ in 0..50 {
        assert!(respawn_monsters(&needing).is_empty());
    }
}

#[test]
fn respawns_name_missing_monsters_only() {
    let needing = counts(&[("Home", &[("Rat", 2), ("Bat", 0)])]);
    for _ in 0..50 {
        for (map, kind) in respawn_monsters(&needing) {
            assert_eq!(map, "Home");
            assert_eq!(kind, "Rat");
        }
    }
}

#[test]
fn spawn_monsters_only_asks_for_missing_monsters() {
    let defaults = counts(&[("Home", &[("Rat", 1), ("Bat", 2)])]);
    let alive = vec![(monster("Rat", "Home", 0, 0), at("Home", 1, 1))];
    for _ in 0..50 {
        for (map, kind) in spawn_monsters(&alive, &defaults) {
            assert_eq!(map, "Home");
            assert_eq!(kind, "Bat");
        }
    }
}

#[test]
fn a_spawned_monster_stands_at_rest_on_its_point() {
    let position = spawn_position_at(&"Home".to_string(), PositionWithoutMap { x: 4, y: 9 });
    assert!(same(&position, &at("Home", 4, 9)));
}

#[test]
fn single_monster_positions_come_from_its_spawn_points() {
    let spawns = home_spawns();
    for _ in 0..20 {
        let positions = spawn_single_monster_positions(&spawns, &"Home".to_string(), &"Rat".to_string());
        assert_eq!(positions.len(), 1);
        assert!(same(&positions[0], &at("Home", 1, 1)) || same(&positions[0], &at("Home", 2, 2)));
    }
}

#[test]
fn initial_spawns_fill_every_point() {
    let all = vec![("Home".to_string(), home_spawns())];
    let spawned = initial_spawn_positions(&all);
    let expected = [("Rat", at("Home", 1, 1)), ("Rat", at("Home", 2, 2)), ("Bat", at("Home", 5, 5))];
    assert_eq!(spawned.len(), expected.len());
    for ((kind, position), (expected_kind, expected_position)) in spawned.iter().zip(expected.iter()) {
        assert_eq!(kind, expected_kind);
        assert!(same(position, expected_position));
    }
}

#[test]
fn spawn_definitions_are_keyed_by_map_name() {
    let all = get_all_spawns_positions(vec![
        ("Home.json".to_string(), home_spawns()),
        ("Cave.json".to_string(), Spawns { monsters: vec![] }),
    ]);
    assert_eq!(all.len(), 2);
    assert_eq!(all[0].0, "Home");
    assert_eq!(all[1].0, "Cave");
    let (defaults, all_spawns) = initialise_all_spawn_definitions(vec![("Home.json".to_string(), home_spawns())]);
    assert_eq!(all_spawns[0].0, "Home");
    assert_eq!(lookup_count(&defaults, &"Home".to_string(), &"Rat".to_string()), 2);
}

#[test]
fn straying_further_than_ten_is_outside_spawn_range() {
    assert!(!check_if_outside_spawn_range(&at("Home", 10, 10), &at("Home", 20, 10)));
    assert!(check_if_outside_spawn_range(&at("Home", 10, 10), &at("Home", 21, 10)));
    assert!(check_if_outside_spawn_range(&at("Home", 10, 30), &at("Home", 10, 19)));
}

#[test]
fn a_step_goes_against_the_difference() {
    assert_eq!(move_towards(3, 10), 9);
    assert_eq!(move_towards(-3, 10), 11);
    assert_eq!(move_towards(0, 10), 11);
}

#[test]
fn steering_towards_a_target() {
    let target = at("Home", 10, 10);
    // diagonal: the coin picks the axis
    let mut m = at("Home", 12, 13);
    steer_towards_target(&mut m, &target, true, 3, false);
    assert_eq!((m.velocity_x, m.velocity_y), (-1, 0));
    let mut m = at("Home", 12, 13);
    steer_towards_target(&mut m, &target, false, 3, false);
    assert_eq!((m.velocity_x, m.velocity_y), (0, -1));
    // in line and far: straight on unless the die shows 1
    let mut m = at("Home", 5, 10);
    steer_towards_target(&mut m, &target, true, 2, false);
    assert_eq!((m.velocity_x, m.velocity_y), (1, 0));
    let mut m = at("Home", 5, 10);
    steer_towards_target(&mut m, &target, true, 1, true);
    assert_eq!((m.velocity_x, m.velocity_y), (0, -1));
    let mut m = at("Home", 5, 10);
    steer_towards_target(&mut m, &target, true, 1, false);
    assert_eq!((m.velocity_x, m.velocity_y), (0, 1));
    // one step away: onto the target
    let mut m = at("Home", 10, 11);
    steer_towards_target(&mut m, &target, true, 1, true);
    assert_eq!((m.velocity_x, m.velocity_y), (0, -1));
}

#[test]
fn random_steps_are_single_unit_steps() {
    for _ in 0..50 {
        let mut m = at("Home", 20, 20);
        move_randomly(&mut m);
        assert_eq!(m.velocity_x.abs() + m.velocity_y.abs(), 1);
        let mut m = at("Home", 20, 20);
        move_towards_target(&mut m, &at("Home", 25, 27));
        assert_eq!(m.velocity_x.abs() + m.velocity_y.abs(), 1);
    }
}

#[test]
fn nearby_players_lie_within_the_activation_window() {
    let players = vec![(1u128, at("Home", 15, 15)), (2, at("Home", 25, 15)), (3, at("Cave", 15, 15)), (4, at("Home", 5, 6))];
    let nearby = get_all_players_nearby(&players, &at("Home", 15, 16));
    let ids: Vec<u128> = nearby.iter().map(|(id, _)| *id).collect();
    assert_eq!(ids, vec![1, 4]);
}

#[test]
fn the_nearest_target_is_the_first_at_the_smallest_axis_distance() {
    let players = vec![(1u128, at("Home", 10, 18)), (2, at("Home", 13, 20)), (3, at("Home", 19, 11))];
    assert_eq!(get_nearest_target(&players, &at("Home", 10, 10)), 1);
    let tie = vec![(7u128, at("Home", 12, 12)), (8, at("Home", 12, 12))];
    assert_eq!(get_nearest_target(&tie, &at("Home", 10, 10)), 7);
}

#[test]
fn a_monster_chases_the_nearest_player() {
    let mut m = monster("Rat", "Home", 10, 10);
    let mut position = at("Home", 10, 10);
    let players = vec![(5u128, at("Home", 13, 10))];
    decide_monster_movement(&mut m, &mut position, &players, true, 4, false, 1);
    assert_eq!(m.current_target, Some(5));
    assert_eq!((position.velocity_x, position.velocity_y), (1, 0));
}

#[test]
fn a_stray_monster_heads_home_and_forgets_its_target() {
    let mut m = monster("Rat", "Home", 10, 10);
    m.current_target = Some(5);
    let mut position = at("Home", 30, 10);
    decide_monster_movement(&mut m, &mut position, &Vec::new(), true, 4, false, 1);
    assert_eq!(m.current_target, None);
    assert_eq!((position.velocity_x, position.velocity_y), (-1, 0));
}

#[test]
fn a_lone_monster_wanders() {
    let mut m = monster("Rat", "Home", 10, 10);
    let mut position = at("Home", 10, 10);
    decide_monster_movement(&mut m, &mut position, &Vec::new(), true, 4, false, 3);
    assert_eq!(m.current_target, None);
    assert_eq!((position.velocity_x, position.velocity_y), (0, 1));
    let mut position = at("Home", 10, 10);
    update_monster_velocities(&mut m, &mut position, &Vec::new());
    assert_eq!(position.velocity_x.abs() + position.velocity_y.abs(), 1);
}

#[test]
fn monsters_chase_online_players_only() {
    let online = PlayerDetails { id: 1, player_name: "a".to_string(), client_addr: "x".to_string(), currently_online: true };
    let offline = PlayerDetails { id: 2, player_name: "b".to_string(), client_addr: "".to_string(), currently_online: false };
    let resource = update_player_positions_resource(&vec![(online, at("Home", 1, 2)), (offline, at("Home", 3, 4))]);
    assert_eq!(resource.len(), 1);
    assert_eq!(resource[0].0, 1);
    assert!(same(&resource[0].1, &at("Home", 1, 2)));
}

#[test]
fn each_missing_type_comes_back_at_most_once_per_tick() {
    let needing = counts(&[("Home", &[("Rat", 3), ("Bat", 2)]), ("Cave", &[("Rat", 1), ("Bat", 0)])]);
    let requests = respawns_for_rolls(&needing, &vec![vec![0, 1], vec![2, 3]]);
    assert_eq!(
        requests,
        vec![
            ("Home".to_string(), "Rat".to_string()),
            ("Home".to_string(), "Bat".to_string()),
            ("Cave".to_string(), "Rat".to_string()),
        ]
    );
}

#[test]
fn rolls_up_to_five_of_zero_to_a_hundred_and_one_respawn() {
    let hits = (0..=101u32).filter(|&roll| roll_hits(roll)).count();
    assert_eq!(hits, 6);
    assert!(roll_hits(0) && roll_hits(5));
    assert!(!roll_hits(6) && !roll_hits(101));
    let mut seen_hit = false;
    let mut seen_miss = false;
    for _ in 0..2000 {
        if should_respawn_this_tick() {
            seen_hit = true;
        } else {
            seen_miss = true;
        }
    }
    assert!(seen_hit && seen_miss);
}
