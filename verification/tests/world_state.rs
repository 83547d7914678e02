use rustyhack::background_map::{initialise_all_maps, BackgroundMap};
use rustyhack::broadcast::{
    broadcast_entity_updates, collate_item_position, collate_monster_position, collate_player_position,
    insert_entity_entry, record_monster_death, send_marked_update, send_player_position_updates, Delivery, EntityEntry,
    EntityPositionMap,
};
use rustyhack::components::{
    Colour, Dead, DisplayDetails, ItemDetails, MonsterDetails, PlayerDetails, Position, DEFAULT_MONSTER_COLOUR,
};
use rustyhack::map_state::{
    add_entity_to_map_state, check_for_combat, clear_all_entities, get_attacker_id, get_current_map_states,
    initialise_all_map_states, insert_entity_at, is_blocking, is_colliding, is_colliding_with_entity, Defender, Occupant,
    OccupantKind,
};
use rustyhack::position::{check_for_tile_collision, get_current_map, update_entities_position};
use rustyhack::progression::{cumulative_exp_at, level_up, respawn_player, Progress};
use rustyhack::schedule::tick_step;

fn at(map: &str, x: u32, y: u32) -> Position {
    Position { update_available: false, pos_x: x, pos_y: y, current_map: map.to_string(), velocity_x: 0, velocity_y: 0 }
}

fn moving(map: &str, x: u32, y: u32, vx: i32, vy: i32) -> Position {
    Position { velocity_x: vx, velocity_y: vy, ..at(map, x, y) }
}

fn online(id: u128, name: &str) -> PlayerDetails {
    PlayerDetails { id, player_name: name.to_string(), client_addr: "127.0.0.1:1".to_string(), currently_online: true }
}

fn offline(id: u128, name: &str) -> PlayerDetails {
    PlayerDetails { id, player_name: name.to_string(), client_addr: "".to_string(), currently_online: false }
}

fn monster(id: u128, kind: &str) -> MonsterDetails {
    MonsterDetails { id, monster_type: kind.to_string(), spawn_position: at("Home", 0, 0), current_target: None }
}

fn monster_display() -> DisplayDetails {
    DisplayDetails { icon: 'x', colour: DEFAULT_MONSTER_COLOUR, visible: true, collidable: true }
}

fn occupant(kind: OccupantKind, id: u128, name: &str, addr: &str, online: bool, collidable: bool) -> Occupant {
    Occupant { kind, id, name: name.to_string(), client_addr: addr.to_string(), currently_online: online, collidable }
}

fn world_maps() -> Vec<(String, BackgroundMap)> {
    initialise_all_maps(vec![
        ("Home.txt".to_string(), "#####\n#  +#\n# / #\n#####\n%".to_string()),
        ("Cave.txt".to_string(), "   \n   \n%".to_string()),
    ])
}

#[test]
fn blocked_steps_are_stopped() {
    let maps = world_maps();
    let mut p = moving("Home", 1, 1, -1, 0);
    check_for_tile_collision(&mut p, &maps);
    assert_eq!((p.velocity_x, p.velocity_y), (0, 0));
    update_entities_position(&mut p);
    assert_eq!((p.pos_x, p.pos_y), (1, 1));
    assert!(!p.update_available);
    // closed door
    let mut p = moving("Home", 2, 1, 1, 0);
    check_for_tile_collision(&mut p, &maps);
    assert_eq!(p.velocity_x, 0);
}

#[test]
fn free_steps_are_taken() {
    let maps = world_maps();
    // open door
    let mut p = moving("Home", 1, 2, 1, 0);
    check_for_tile_collision(&mut p, &maps);
    assert_eq!(p.velocity_x, 1);
    update_entities_position(&mut p);
    assert_eq!((p.pos_x, p.pos_y, p.velocity_x), (2, 2, 0));
    assert!(p.update_available);
}

#[test]
fn an_unknown_map_falls_back_to_the_default_map() {
    let maps = world_maps();
    assert!(std::ptr::eq(get_current_map(&maps, &"Nowhere".to_string()), &maps[0].1));
    assert!(std::ptr::eq(get_current_map(&maps, &"Cave".to_string()), &maps[1].1));
    let mut p = moving("Nowhere", 1, 1, 0, -1);
    check_for_tile_collision(&mut p, &maps);
    assert_eq!(p.velocity_y, 0);
}

#[test]
fn a_step_below_zero_lands_on_zero() {
    let mut p = moving("Cave", 0, 1, -1, 0);
    update_entities_position(&mut p);
    assert_eq!((p.pos_x, p.pos_y), (0, 1));
}

#[test]
fn map_states_start_empty_with_the_maps_shapes() {
    let maps = world_maps();
    let states = initialise_all_map_states(&maps);
    assert_eq!(states.len(), 2);
    assert_eq!(states[0].0, "Home");
    assert!(!is_colliding_with_entity(1, 1, &states[0].1).0);
}

#[test]
fn blocking_entities_are_found() {
    let maps = world_maps();
    let mut states = initialise_all_map_states(&maps);
    add_entity_to_map_state(&mut states, &"Home".to_string(), 2, 1, occupant(OccupantKind::Monster, 7, "Rat", "", true, true));
    let (colliding, defender) = is_colliding_with_entity(2, 1, &states[0].1);
    assert!(colliding);
    assert_eq!(defender.id, 7);
    assert_eq!(defender.name, "Rat");
    assert_eq!(defender.client_addr, "");
    assert!(defender.currently_online && !defender.is_player);
    assert!(!is_colliding_with_entity(2, 1, &states[1].1).0);
}

#[test]
fn offline_or_passable_entities_do_not_block() {
    let maps = world_maps();
    let mut states = initialise_all_map_states(&maps);
    insert_entity_at(&mut states[0].1, occupant(OccupantKind::Player, 1, "ann", "", false, true), 1, 1);
    insert_entity_at(&mut states[0].1, occupant(OccupantKind::Monster, 2, "Rat", "", true, false), 1, 1);
    assert!(!is_colliding_with_entity(1, 1, &states[0].1).0);
    insert_entity_at(&mut states[0].1, occupant(OccupantKind::Player, 3, "bob", "b", true, true), 1, 1);
    let (colliding, defender) = is_colliding_with_entity(1, 1, &states[0].1);
    assert!(colliding);
    assert_eq!((defender.id, defender.name.as_str(), defender.client_addr.as_str()), (3, "bob", "b"));
    assert!(defender.is_player);
    assert!(!is_blocking(&occupant(OccupantKind::Player, 1, "ann", "", false, true)));
}

#[test]
fn row_zero_and_outside_spots_never_collide() {
    let maps = world_maps();
    let mut states = initialise_all_map_states(&maps);
    insert_entity_at(&mut states[0].1, occupant(OccupantKind::Monster, 7, "Rat", "", true, true), 1, 0);
    assert!(!is_colliding_with_entity(1, 0, &states[0].1).0);
    insert_entity_at(&mut states[0].1, occupant(OccupantKind::Monster, 8, "Rat", "", true, true), 50, 50);
    assert!(!is_colliding_with_entity(50, 50, &states[0].1).0);
    let none = Defender::default();
    assert!(none.name.is_empty() && !none.is_player && !none.currently_online);
}

#[test]
fn clearing_empties_every_spot() {
    let maps = world_maps();
    let mut states = initialise_all_map_states(&maps);
    add_entity_to_map_state(&mut states, &"Cave".to_string(), 1, 1, occupant(OccupantKind::Monster, 7, "Rat", "", true, true));
    assert!(is_colliding_with_entity(1, 1, get_current_map_states(&states, &"Cave".to_string())).0);
    clear_all_entities(&mut states);
    assert!(!is_colliding_with_entity(1, 1, get_current_map_states(&states, &"Cave".to_string())).0);
}

#[test]
fn moving_into_a_blocking_entity_is_an_attack() {
    let maps = world_maps();
    let mut states = initialise_all_map_states(&maps);
    add_entity_to_map_state(&mut states, &"Home".to_string(), 2, 2, occupant(OccupantKind::Monster, 7, "Rat", "", true, true));
    let mut p = moving("Home", 1, 2, 1, 0);
    let defender = check_for_combat(&mut p, &states).expect("a defender");
    assert_eq!(defender.id, 7);
    assert_eq!((p.velocity_x, p.velocity_y), (0, 0));
    let mut q = moving("Home", 1, 1, 1, 0);
    assert!(check_for_combat(&mut q, &states).is_none());
    assert_eq!(q.velocity_x, 1);
}

#[test]
fn attackers_are_identified() {
    let p = online(4, "ann");
    let m = monster(9, "Rat");
    assert_eq!(get_attacker_id(Some(&p), Some(&m)), 4);
    assert_eq!(get_attacker_id(None, Some(&m)), 9);
}

#[test]
fn entries_are_keyed_by_id() {
    let mut map: EntityPositionMap = Vec::new();
    insert_entity_entry(&mut map, EntityEntry { id: 1, position: at("Home", 1, 1), display_details: monster_display(), name: "a".to_string() });
    insert_entity_entry(&mut map, EntityEntry { id: 2, position: at("Home", 2, 2), display_details: monster_display(), name: "b".to_string() });
    insert_entity_entry(&mut map, EntityEntry { id: 1, position: at("Home", 3, 3), display_details: monster_display(), name: "c".to_string() });
    assert_eq!(map.len(), 2);
    assert_eq!((map[0].id, map[0].name.as_str(), map[0].position.pos_x), (1, "c", 3));
}

#[test]
fn collated_entities() {
    let mut map: EntityPositionMap = Vec::new();
    collate_player_position(&mut map, &online(1, "ann"), &at("Home", 1, 1), &DisplayDetails::default());
    collate_player_position(&mut map, &offline(2, "bob"), &at("Home", 1, 1), &DisplayDetails::default());
    collate_monster_position(&mut map, &monster(3, "Rat"), &at("Home", 2, 2), &monster_display());
    let picked = collate_item_position(&mut map, &ItemDetails { id: 4, has_been_picked_up: true }, &"Sword".to_string(), &at("Home", 5, 5), &monster_display());
    let lying = collate_item_position(&mut map, &ItemDetails { id: 5, has_been_picked_up: false }, &"Shirt".to_string(), &at("Home", 6, 6), &monster_display());
    record_monster_death(&mut map, &monster(6, "Bat"), &at("Cave", 1, 2));
    assert!(picked && !lying);
    let names: Vec<&str> = map.iter().map(|e| e.name.as_str()).collect();
    assert_eq!(names, vec!["ann", "Rat", "picked_up_item", "Shirt", "dead_monster"]);
    assert_eq!(map[2].position.current_map, "HomeDead");
    assert_eq!((map[2].position.pos_x, map[2].position.pos_y), (0, 0));
    assert_eq!(map[4].position.current_map, "CaveDead");
    assert_eq!(map[4].display_details, DisplayDetails::dead());
    assert!(!map[4].display_details.visible);
}

#[test]
fn players_hear_about_their_map_all_players_and_the_dead() {
    let mut map: EntityPositionMap = Vec::new();
    collate_player_position(&mut map, &online(1, "ann"), &at("Cave", 1, 1), &DisplayDetails::default());
    collate_monster_position(&mut map, &monster(3, "Rat"), &at("Home", 2, 2), &monster_display());
    collate_monster_position(&mut map, &monster(4, "Bat"), &at("Cave", 2, 2), &monster_display());
    record_monster_death(&mut map, &monster(5, "Orc"), &at("Home", 1, 2));
    record_monster_death(&mut map, &monster(6, "Elf"), &at("Cave", 1, 2));
    let sends = broadcast_entity_updates(&online(9, "me"), &at("Home", 0, 0), &map);
    assert_eq!(sends, vec![(0, Delivery::Unreliable), (1, Delivery::Unreliable), (3, Delivery::Reliable)]);
    assert!(broadcast_entity_updates(&offline(9, "me"), &at("Home", 0, 0), &map).is_empty());
}

#[test]
fn changes_are_sent_once_to_online_players() {
    let mut p = at("Home", 1, 1);
    p.update_available = true;
    assert!(!send_player_position_updates(&offline(1, "a"), &mut p));
    assert!(p.update_available);
    assert!(send_player_position_updates(&online(1, "a"), &mut p));
    assert!(!p.update_available);
    assert!(!send_player_position_updates(&online(1, "a"), &mut p));
    let mut flag = true;
    assert!(send_marked_update(&online(1, "a"), &mut flag));
    assert!(!flag);
}

#[test]
fn experience_table() {
    assert_eq!(cumulative_exp_at(1), 1000);
    assert_eq!(cumulative_exp_at(2), 5000);
    assert_eq!(cumulative_exp_at(3), 14000);
    assert_eq!(cumulative_exp_at(10), 385000);
    assert_eq!(cumulative_exp_at(99), 328350000);
    assert_eq!(cumulative_exp_at(100), 338350000);
}

#[test]
fn levelling_up() {
    let mut p = Progress { level: 1, exp: 1000, exp_next: 1000, stat_points: 0 };
    assert!(level_up(&mut p));
    assert_eq!(p, Progress { level: 2, exp: 1000, exp_next: 5000, stat_points: 2 });
    assert!(!level_up(&mut p));
    let mut top = Progress { level: 99, exp: 400000000, exp_next: 328350000, stat_points: 4 };
    assert!(level_up(&mut top));
    assert_eq!(top, Progress { level: 100, exp: 400000000, exp_next: 0, stat_points: 6 });
    assert!(!level_up(&mut top));
}

#[test]
fn dying_costs_five_percent_of_experience() {
    let mut p = Progress { level: 3, exp: 2000, exp_next: 14000, stat_points: 0 };
    let mut position = at("Cave", 3, 3);
    assert_eq!(respawn_player(&mut p, &mut position), 100);
    assert_eq!(p.exp, 1900);
    assert_eq!((position.current_map.as_str(), position.pos_x, position.pos_y), ("Home", 16, 6));
    assert!(position.update_available);
    let mut low = Progress { level: 1, exp: 100, exp_next: 1000, stat_points: 0 };
    assert_eq!(respawn_player(&mut low, &mut position), 0);
    assert_eq!(low.exp, 100);
    let mut odd = Progress { level: 1, exp: 119, exp_next: 1000, stat_points: 0 };
    assert_eq!(respawn_player(&mut odd, &mut position), 5);
    assert_eq!(odd.exp, 114);
    let _ = Colour::Reset;
    let _ = Position::dead();
}

#[test]
fn the_last_entity_on_a_spot_decides_a_plain_collision() {
    let maps = world_maps();
    let mut states = initialise_all_map_states(&maps);
    assert!(!is_colliding(1, 1, &states[0].1));
    insert_entity_at(&mut states[0].1, occupant(OccupantKind::Monster, 2, "Rat", "", true, true), 1, 1);
    assert!(is_colliding(1, 1, &states[0].1));
    insert_entity_at(&mut states[0].1, occupant(OccupantKind::Player, 1, "ann", "", false, true), 1, 1);
    assert!(!is_colliding(1, 1, &states[0].1));
    assert!(is_colliding_with_entity(1, 1, &states[0].1).0);
}

#[test]
fn health_regenerates_every_second_tick() {
    assert_eq!(tick_step(0), (1, false));
    assert_eq!(tick_step(1), (0, true));
    let mut count = 0;
    let mut regens = 0;
    for _ in 0..10 {
        let (next, regen) = tick_step(count);
        count = next;
        if regen {
            regens += 1;
        }
    }
    assert_eq!(regens, 5);
}
