use rustyhack::components::{DisplayDetails, ItemDetails, PlayerDetails, Position, DEFAULT_ITEM_COLOUR};
use rustyhack::exits::{initialise_all_map_exit_definitions, MapExitPositions, MapExits};
use rustyhack::inventory::{drop_item, drop_monster_inventory, pickup_item, DropOutcome, ItemEntity, Pickup};
use rustyhack::messages::{ClientDetails, PlayerRequest, PositionMessage, Velocity};
use rustyhack::players::{
    broadcast_player_logged_out, change_map_request, create_player, create_player_details, find_player_named, join_player,
    logout_all_players, set_player_disconnected, set_player_logged_out, set_player_velocity, update_player_input,
    ChangeMapOutcome,
    JoinOutcome, PlayerEntity,
};
use rustyhack::requests::{match_received_message, GameWorld, RequestOutcome};

fn at(map: &str, x: u32, y: u32) -> Position {
    Position { update_available: false, pos_x: x, pos_y: y, current_map: map.to_string(), velocity_x: 0, velocity_y: 0 }
}

fn player(id: u128, name: &str, addr: &str, online: bool, position: Position) -> PlayerEntity<String> {
    PlayerEntity {
        player_details: PlayerDetails {
            id,
            player_name: name.to_string(),
            client_addr: addr.to_string(),
            currently_online: online,
        },
        display_details: DisplayDetails { visible: online, collidable: online, ..DisplayDetails::default() },
        position,
        carried: Vec::new(),
        inventory_updated: false,
    }
}

fn message(name: &str, position: Position) -> PositionMessage {
    PositionMessage { player_name: name.to_string(), position }
}

fn item(id: u128, name: &str, position: Position) -> ItemEntity<String> {
    ItemEntity { item_details: ItemDetails { id, has_been_picked_up: false }, position, item: name.to_string() }
}

fn exits() -> Vec<(String, Vec<MapExitPositions>)> {
    initialise_all_map_exit_definitions(vec![(
        "Home.json".to_string(),
        MapExits {
            map_exits: vec![MapExitPositions { x: 3, y: 4, new_map: "Cave".to_string(), new_x: 7, new_y: 8 }],
        },
    )])
}

#[test]
fn players_are_found_by_name() {
    let players = vec![player(1, "ann", "a", true, at("Home", 0, 0)), player(2, "bob", "b", true, at("Home", 0, 0))];
    assert_eq!(find_player_named(&players, &"bob".to_string()), Some(1));
    assert_eq!(find_player_named(&players, &"cat".to_string()), None);
}

#[test]
fn an_offline_player_rejoins_from_the_new_address() {
    let mut players = vec![player(1, "ann", "", false, at("Home", 2, 3))];
    let outcome = join_player(&mut players, &"ann".to_string(), &"10.0.0.1:5".to_string());
    assert_eq!(outcome, JoinOutcome::Rejoined(0));
    assert!(players[0].player_details.currently_online);
    assert_eq!(players[0].player_details.client_addr, "10.0.0.1:5");
    assert!(players[0].display_details.visible && players[0].display_details.collidable);
    assert_eq!((players[0].position.pos_x, players[0].position.pos_y), (2, 3));
}

#[test]
fn an_online_player_cannot_join_twice() {
    let mut players = vec![player(1, "ann", "a", true, at("Home", 2, 3))];
    assert_eq!(join_player(&mut players, &"ann".to_string(), &"b".to_string()), JoinOutcome::AlreadyOnline(0));
    assert_eq!(players[0].player_details.client_addr, "a");
}

#[test]
fn an_unknown_name_makes_a_new_player() {
    let mut players = vec![player(1, "ann", "a", true, at("Home", 2, 3))];
    assert_eq!(join_player(&mut players, &"bob".to_string(), &"b".to_string()), JoinOutcome::CreateNew);
    assert_eq!(players.len(), 2);
    let bob = &players[1];
    assert_eq!(bob.player_details.player_name, "bob");
    assert_eq!(bob.player_details.client_addr, "b");
    assert!(bob.player_details.currently_online);
    assert_ne!(bob.player_details.id, players[0].player_details.id);
    assert_eq!(bob.display_details, DisplayDetails::default());
    assert_eq!((bob.position.pos_x, bob.position.pos_y, bob.position.current_map.as_str()), (16, 6, "Home"));
    assert!(bob.carried.is_empty() && !bob.inventory_updated);
    assert_eq!(players[0].player_details.player_name, "ann");
    let details = create_player_details(&"bob".to_string(), "b".to_string());
    assert_eq!(details.player_name, "bob");
    assert_eq!(details.client_addr, "b");
    assert!(details.currently_online);
}

#[test]
fn logging_out_hides_the_player_and_reports_its_map() {
    let mut players = vec![player(1, "ann", "a", true, at("Home", 0, 0)), player(2, "bob", "b", true, at("Cave", 0, 0))];
    let (id, map) = set_player_logged_out(&mut players, &"b".to_string(), &"bob".to_string());
    assert_eq!((id, map.as_str()), (2, "Cave"));
    assert!(!players[1].player_details.currently_online);
    assert_eq!(players[1].player_details.client_addr, "");
    assert!(!players[1].display_details.visible && !players[1].display_details.collidable);
    assert!(players[0].player_details.currently_online);
}

#[test]
fn logging_out_from_the_wrong_address_changes_nothing() {
    let mut players = vec![player(1, "ann", "a", true, at("Home", 0, 0))];
    let (_, map) = set_player_logged_out(&mut players, &"b".to_string(), &"ann".to_string());
    assert_eq!(map, "");
    assert!(players[0].player_details.currently_online);
}

#[test]
fn a_timeout_disconnects_the_player_at_that_address() {
    let mut players = vec![player(1, "ann", "a", true, at("Home", 0, 0)), player(2, "bob", "b", true, at("Cave", 0, 0))];
    let (id, map) = set_player_disconnected(&mut players, &"a".to_string());
    assert_eq!((id, map.as_str()), (1, "Home"));
    assert!(!players[0].player_details.currently_online);
    let (_, map) = set_player_disconnected(&mut players, &"zzz".to_string());
    assert_eq!(map, "");
}

#[test]
fn logouts_are_told_to_online_players_on_the_same_map() {
    let players = vec![
        player(1, "ann", "a", true, at("Home", 0, 0)),
        player(2, "bob", "b", false, at("Home", 0, 0)),
        player(3, "cat", "c", true, at("Cave", 0, 0)),
        player(4, "dan", "d", true, at("Home", 1, 0)),
    ];
    assert_eq!(broadcast_player_logged_out(&players, &"Home".to_string()), vec!["a".to_string(), "d".to_string()]);
}

#[test]
fn logging_everyone_out() {
    let mut players = vec![player(1, "ann", "a", true, at("Home", 0, 0)), player(2, "bob", "b", true, at("Home", 0, 0))];
    logout_all_players(&mut players);
    for p in &players {
        assert!(!p.player_details.currently_online);
        assert_eq!(p.player_details.client_addr, "");
        assert!(p.display_details.visible);
    }
}

#[test]
fn velocities_go_to_the_named_player() {
    let mut players = vec![player(1, "ann", "a", true, at("Home", 0, 0)), player(2, "bob", "b", true, at("Home", 0, 0))];
    let mut wanted = at("Elsewhere", 50, 50);
    wanted.velocity_x = -1;
    wanted.velocity_y = 1;
    set_player_velocity(&mut players, &message("bob", wanted));
    assert_eq!((players[1].position.velocity_x, players[1].position.velocity_y), (-1, 1));
    assert_eq!((players[1].position.pos_x, players[1].position.current_map.as_str()), (0, "Home"));
    assert_eq!((players[0].position.velocity_x, players[0].position.velocity_y), (0, 0));
}

#[test]
fn an_exit_moves_the_player_to_its_target() {
    let mut players = vec![player(1, "ann", "a", true, at("Home", 3, 4))];
    let outcome = change_map_request(&mut players, &exits(), &message("ann", at("Home", 3, 4)));
    assert_eq!(outcome, ChangeMapOutcome::ChangedMap(0));
    let p = &players[0].position;
    assert_eq!((p.current_map.as_str(), p.pos_x, p.pos_y), ("Cave", 7, 8));
    assert!(p.update_available);
}

#[test]
fn no_exit_here_no_move() {
    let mut players = vec![player(1, "ann", "a", true, at("Home", 3, 5))];
    assert_eq!(change_map_request(&mut players, &exits(), &message("ann", at("Home", 3, 5))), ChangeMapOutcome::NoExitHere(0));
    assert_eq!(change_map_request(&mut players, &exits(), &message("ann", at("Cave", 3, 4))), ChangeMapOutcome::NoExitHere(0));
    assert_eq!(players[0].position.current_map, "Home");
    assert_eq!(change_map_request(&mut players, &exits(), &message("bob", at("Home", 3, 4))), ChangeMapOutcome::NoSuchPlayer);
    let mut offline = vec![player(1, "ann", "", false, at("Home", 3, 4))];
    assert_eq!(change_map_request(&mut offline, &exits(), &message("ann", at("Home", 3, 4))), ChangeMapOutcome::NoSuchPlayer);
}

#[test]
fn picking_up_takes_the_item_at_the_spot() {
    let mut items = vec![item(10, "Cloth Shirt", at("Home", 1, 1)), item(11, "Wooden Sword", at("Home", 2, 2))];
    let mut players = vec![player(1, "ann", "a", true, at("Home", 2, 2))];
    let pickup = pickup_item(&mut items, &mut players, &message("ann", at("Home", 2, 2)));
    assert_eq!(pickup, Pickup { item: Some(1), player: Some(0) });
    assert!(items[1].item_details.has_been_picked_up);
    assert!(!items[0].item_details.has_been_picked_up);
    assert_eq!(players[0].carried, vec!["Wooden Sword".to_string()]);
    assert!(players[0].inventory_updated);
}

#[test]
fn nothing_to_pick_up() {
    let mut items = vec![item(10, "Cloth Shirt", at("Home", 1, 1))];
    let mut players = vec![player(1, "ann", "a", true, at("Home", 2, 2))];
    let pickup = pickup_item(&mut items, &mut players, &message("ann", at("Home", 2, 2)));
    assert_eq!(pickup, Pickup { item: None, player: Some(0) });
    assert!(players[0].carried.is_empty());
    assert!(!players[0].inventory_updated);
}

#[test]
fn dropping_puts_the_item_where_the_player_stands() {
    let mut players = vec![player(1, "ann", "a", true, at("Home", 4, 5))];
    players[0].carried = vec!["Gold".to_string(), "Trinket".to_string()];
    match drop_item(&mut players, 1, &message("ann", at("Home", 0, 0))) {
        DropOutcome::Dropped(i, dropped) => {
            assert_eq!(i, 0);
            assert_eq!(dropped.item, "Trinket");
            assert!(!dropped.item_details.has_been_picked_up);
            assert_eq!(dropped.display_details.icon, ',');
            assert_eq!(dropped.display_details.colour, DEFAULT_ITEM_COLOUR);
            assert!(dropped.display_details.visible && !dropped.display_details.collidable);
            assert_eq!((dropped.position.pos_x, dropped.position.pos_y, dropped.position.current_map.as_str()), (4, 5, "Home"));
            assert!(dropped.position.update_available);
        },
        _ => panic!("expected a drop"),
    }
    assert_eq!(players[0].carried, vec!["Gold".to_string()]);
    assert!(players[0].inventory_updated);
}

#[test]
fn dropping_with_empty_hands_or_no_player() {
    let mut players = vec![player(1, "ann", "a", true, at("Home", 4, 5))];
    assert!(matches!(drop_item(&mut players, 0, &message("ann", at("Home", 0, 0))), DropOutcome::NothingCarried(0)));
    assert!(matches!(drop_item(&mut players, 0, &message("bob", at("Home", 0, 0))), DropOutcome::NoSuchPlayer));
}

#[test]
fn pick_up_then_drop_gives_the_item_back() {
    let mut items = vec![item(10, "Cloth Shirt", at("Home", 1, 1))];
    let mut players = vec![player(1, "ann", "a", true, at("Home", 1, 1))];
    players[0].carried = vec!["Gold".to_string()];
    pickup_item(&mut items, &mut players, &message("ann", at("Home", 1, 1)));
    let last = (players[0].carried.len() - 1) as u16;
    match drop_item(&mut players, last, &message("ann", at("Home", 1, 1))) {
        DropOutcome::Dropped(_, dropped) => assert_eq!(dropped.item, "Cloth Shirt"),
        _ => panic!("expected a drop"),
    }
    assert_eq!(players[0].carried, vec!["Gold".to_string()]);
}

#[test]
fn a_dead_monster_drops_everything_it_carried() {
    let dropped = drop_monster_inventory(&vec!["Club".to_string(), "Gold".to_string()], &at("Cave", 9, 9));
    assert_eq!(dropped.len(), 2);
    assert_eq!(dropped[0].item, "Club");
    assert_eq!(dropped[1].item, "Gold");
    assert_ne!(dropped[0].item_details.id, dropped[1].item_details.id);
    for d in &dropped {
        assert_eq!((d.position.pos_x, d.position.pos_y, d.position.current_map.as_str()), (9, 9, "Cave"));
    }
}

#[test]
fn requests_are_dispatched() {
    let mut world = GameWorld { players: vec![player(1, "ann", "a", true, at("Home", 3, 4))], items: Vec::new() };
    let exits = exits();
    let joined = match_received_message(
        &mut world,
        &exits,
        PlayerRequest::PlayerJoin(ClientDetails { client_addr: "b".to_string(), player_name: "bob".to_string() }),
    );
    assert!(matches!(joined, RequestOutcome::Joined(JoinOutcome::CreateNew)));
    assert_eq!(world.players.len(), 2);
    assert_eq!(world.players[1].player_details.player_name, "bob");
    assert_eq!((world.players[1].position.pos_x, world.players[1].position.pos_y), (16, 6));
    assert_eq!(world.players[1].position.current_map, "Home");
    let changed = match_received_message(&mut world, &exits, PlayerRequest::ChangeMap(message("ann", at("Home", 3, 4))));
    assert!(matches!(changed, RequestOutcome::MapChanged(ChangeMapOutcome::ChangedMap(0))));
    let stat = match_received_message(&mut world, &exits, PlayerRequest::StatUp(("Str".to_string(), "ann".to_string())));
    match stat {
        RequestOutcome::StatIncrease(s, n) => assert_eq!((s.as_str(), n.as_str()), ("Str", "ann")),
        _ => panic!("expected a stat increase"),
    }
    let out = match_received_message(
        &mut world,
        &exits,
        PlayerRequest::PlayerLogout(ClientDetails { client_addr: "a".to_string(), player_name: "ann".to_string() }),
    );
    match out {
        RequestOutcome::LoggedOut(id, map, recipients) => {
            assert_eq!(id, 1);
            assert_eq!(map, "Cave");
            assert!(recipients.is_empty());
        },
        _ => panic!("expected a logout"),
    }
    let rejoined = match_received_message(
        &mut world,
        &exits,
        PlayerRequest::PlayerJoin(ClientDetails { client_addr: "c".to_string(), player_name: "ann".to_string() }),
    );
    assert!(matches!(rejoined, RequestOutcome::Joined(JoinOutcome::Rejoined(0))));
    assert_eq!(world.players[0].player_details.client_addr, "c");
    assert!(matches!(match_received_message(&mut world, &exits, PlayerRequest::GetAllMaps), RequestOutcome::Unknown));
    assert!(matches!(match_received_message(&mut world, &exits, PlayerRequest::Undefined), RequestOutcome::Unknown));
}

#[test]
fn the_last_velocity_update_for_a_player_wins() {
    let details = PlayerDetails { id: 1, player_name: "ann".to_string(), client_addr: "a".to_string(), currently_online: true };
    let mut velocity = Velocity { x: 0, y: 0 };
    let updates = vec![
        ("ann".to_string(), Velocity { x: 1, y: 0 }),
        ("bob".to_string(), Velocity { x: 0, y: 1 }),
        ("ann".to_string(), Velocity { x: -1, y: 0 }),
    ];
    update_player_input(&details, &mut velocity, &updates);
    assert_eq!(velocity, Velocity { x: -1, y: 0 });
    let mut kept = Velocity { x: 0, y: 1 };
    update_player_input(&details, &mut kept, &vec![("bob".to_string(), Velocity { x: 1, y: 1 })]);
    assert_eq!(kept, Velocity { x: 0, y: 1 });
}

#[test]
fn joining_twice_under_one_name_makes_one_player() {
    let mut world: GameWorld<String> = GameWorld { players: Vec::new(), items: Vec::new() };
    let exits = exits();
    for addr in ["a", "b", "c"] {
        match_received_message(
            &mut world,
            &exits,
            PlayerRequest::PlayerJoin(ClientDetails { client_addr: addr.to_string(), player_name: "ann".to_string() }),
        );
    }
    assert_eq!(world.players.len(), 1);
    assert_eq!(world.players[0].player_details.client_addr, "a");
}

#[test]
fn every_kind_of_request_reaches_its_handler() {
    let mut world = GameWorld {
        players: vec![player(1, "ann", "a", true, at("Home", 1, 1)), player(2, "bob", "b", true, at("Home", 5, 5))],
        items: vec![item(10, "Cloth Shirt", at("Home", 1, 1))],
    };
    let exits = exits();
    let mut step = at("Home", 1, 1);
    step.velocity_x = 1;
    assert!(matches!(
        match_received_message(&mut world, &exits, PlayerRequest::UpdateVelocity(message("ann", step))),
        RequestOutcome::VelocityUpdated
    ));
    assert_eq!(world.players[0].position.velocity_x, 1);
    match match_received_message(&mut world, &exits, PlayerRequest::PickupItem(message("ann", at("Home", 1, 1)))) {
        RequestOutcome::PickedUp(p) => assert_eq!(p, Pickup { item: Some(0), player: Some(0) }),
        _ => panic!("expected a pickup"),
    }
    match match_received_message(&mut world, &exits, PlayerRequest::DropItem((0, message("ann", at("Home", 1, 1))))) {
        RequestOutcome::Dropped(DropOutcome::Dropped(0, dropped)) => assert_eq!(dropped.item, "Cloth Shirt"),
        _ => panic!("expected a drop"),
    }
    match match_received_message(&mut world, &exits, PlayerRequest::Timeout("b".to_string())) {
        RequestOutcome::LoggedOut(id, map, recipients) => {
            assert_eq!((id, map.as_str()), (2, "Home"));
            assert_eq!(recipients, vec!["a".to_string()]);
        },
        _ => panic!("expected a timeout"),
    }
    assert!(!world.players[1].player_details.currently_online);
}

#[test]
fn a_created_player_joins_the_end_of_the_list() {
    let mut players = vec![player(1, "ann", "a", true, at("Home", 2, 3))];
    create_player(&mut players, &"cat".to_string(), &"c".to_string());
    assert_eq!(players.len(), 2);
    assert_eq!(players[1].player_details.player_name, "cat");
    assert_eq!(players[1].player_details.client_addr, "c");
    assert!(players[1].player_details.currently_online);
}
