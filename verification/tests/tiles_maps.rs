use rustyhack::background_map::{initialise_all_maps, pad_all_rows, process_map_data, vec_to_array, BackgroundMap};
use rustyhack::keyed::{collect_named, map_name_from_file_name};
use rustyhack::math_utils::{i32_from, i32_from_usize, u32_from, usize_from_i32};
use rustyhack::tiles::{
    entity_is_colliding_with_tile, map_character_to_tile, Collidable, Door, OpenState, Tile, TilePosition, Wall,
};

fn map_named<'a>(maps: &'a [(String, BackgroundMap)], name: &str) -> &'a BackgroundMap {
    &maps.iter().find(|(n, _)| n == name).expect("map present").1
}

#[test]
fn map_characters_become_tiles() {
    assert_eq!(map_character_to_tile(0, 0, '\n'), Tile::NewLine);
    assert_eq!(map_character_to_tile(0, 0, '\r'), Tile::CarriageReturn);
    assert_eq!(map_character_to_tile(0, 0, '%'), Tile::EndOfFile);
    assert_eq!(map_character_to_tile(0, 0, '#'), Tile::Boundary);
    assert_eq!(map_character_to_tile(0, 0, '^'), Tile::UpLadder);
    assert_eq!(map_character_to_tile(0, 0, 'v'), Tile::DownLadder);
    assert_eq!(map_character_to_tile(0, 0, ' '), Tile::EmptySpace);
    assert_eq!(map_character_to_tile(0, 0, 'q'), Tile::EmptySpace);
    assert_eq!(map_character_to_tile(3, 4, '+'), Tile::Door(Door::new(3, 4, OpenState::Closed)));
    assert_eq!(map_character_to_tile(3, 4, '/'), Tile::Door(Door::new(3, 4, OpenState::Open)));
    for c in ['|', '*', '-', ','] {
        assert_eq!(map_character_to_tile(7, 2, c), Tile::Wall(Wall::new(7, 2, c)));
    }
}

#[test]
fn doors_and_walls_are_built_as_described() {
    let closed = Door::new(1, 2, OpenState::Closed);
    assert_eq!(closed.tile_position, TilePosition { x: 1, y: 2 });
    assert_eq!(closed.character_icon, '+');
    assert_eq!(closed.collidable, Collidable::True);
    let open = Door::new(5, 6, OpenState::Open);
    assert_eq!(open.character_icon, '/');
    assert_eq!(open.collidable, Collidable::False);
    assert_eq!(open.open_state, OpenState::Open);
    let wall = Wall::new(9, 8, '|');
    assert_eq!(wall.tile_position, TilePosition { x: 9, y: 8 });
    assert_eq!(wall.character_icon, '|');
    assert_eq!(wall.collidable, Collidable::True);
}

#[test]
fn tiles_have_their_characters() {
    assert_eq!(Tile::UpLadder.character(), '<');
    assert_eq!(Tile::DownLadder.character(), '>');
    assert_eq!(Tile::Boundary.character(), '#');
    assert_eq!(Tile::EmptySpace.character(), ' ');
    assert_eq!(Tile::NewLine.character(), ' ');
    assert_eq!(Tile::Door(Door::new(0, 0, OpenState::Closed)).character(), '+');
    assert_eq!(Tile::Wall(Wall::new(0, 0, '*')).character(), '*');
}

#[test]
fn only_closed_doors_walls_and_boundaries_block() {
    assert!(entity_is_colliding_with_tile(&Tile::Boundary));
    assert!(entity_is_colliding_with_tile(&Tile::Wall(Wall::new(0, 0, '-'))));
    assert!(entity_is_colliding_with_tile(&Tile::Door(Door::new(0, 0, OpenState::Closed))));
    assert!(!entity_is_colliding_with_tile(&Tile::Door(Door::new(0, 0, OpenState::Open))));
    assert!(!entity_is_colliding_with_tile(&Tile::EmptySpace));
    assert!(!entity_is_colliding_with_tile(&Tile::UpLadder));
    assert!(!entity_is_colliding_with_tile(&Tile::DownLadder));
}

#[test]
fn conversions_fall_back_to_zero() {
    assert_eq!(i32_from(5), 5);
    assert_eq!(i32_from(u32::MAX), 0);
    assert_eq!(i32_from(2147483647), i32::MAX);
    assert_eq!(i32_from(2147483648), 0);
    assert_eq!(i32_from_usize(12), 12);
    assert_eq!(i32_from_usize(usize::MAX), 0);
    assert_eq!(usize_from_i32(-1), 0);
    assert_eq!(usize_from_i32(42), 42);
    assert_eq!(u32_from(-7), 0);
    assert_eq!(u32_from(i32::MAX), 2147483647);
}

#[test]
fn rows_are_padded_to_the_longest() {
    let mut rows = vec![vec![1u8], vec![1, 2, 3], vec![]];
    pad_all_rows(&mut rows, 3, 0);
    assert_eq!(rows, vec![vec![1, 0, 0], vec![1, 2, 3], vec![0, 0, 0]]);
}

#[test]
fn padding_never_shortens_a_row() {
    let mut rows = vec![vec![1u8, 2, 3, 4]];
    pad_all_rows(&mut rows, 2, 0);
    assert_eq!(rows, vec![vec![1, 2, 3, 4]]);
}

#[test]
fn rows_become_a_grid() {
    let rows = vec![
        vec![Tile::Boundary, Tile::EmptySpace],
        vec![Tile::UpLadder, Tile::DownLadder],
    ];
    let map = BackgroundMap { data: vec_to_array(&rows) };
    assert_eq!(map.get_tile_at(0, 0), Tile::Boundary);
    assert_eq!(map.get_tile_at(1, 0), Tile::UpLadder);
    assert_eq!(map.get_tile_at(1, 1), Tile::DownLadder);
    assert_eq!(map.get_tile_at(2, 0), Tile::EmptySpace);
}

#[test]
fn map_file_is_read_row_by_row_and_padded() {
    let map = BackgroundMap { data: process_map_data("##\n#^#\n%") };
    assert_eq!(map.get_tile_at(0, 0), Tile::Boundary);
    assert_eq!(map.get_tile_at(0, 1), Tile::Boundary);
    // the first row was shorter than the second: padded with empty space
    assert_eq!(map.get_tile_at(0, 2), Tile::EmptySpace);
    assert_eq!(map.get_tile_at(1, 1), Tile::UpLadder);
    assert_eq!(map.get_tile_at(1, 2), Tile::Boundary);
    // outside the map
    assert_eq!(map.get_tile_at(5, 5), Tile::EmptySpace);
}

#[test]
fn map_file_tiles_know_where_they_were_read() {
    let map = BackgroundMap { data: process_map_data("  \r\n +\n%") };
    assert_eq!(map.get_tile_at(1, 1), Tile::Door(Door::new(1, 1, OpenState::Closed)));
}

#[test]
fn map_name_is_the_file_name_up_to_the_first_dot() {
    assert_eq!(map_name_from_file_name("Home.txt"), "Home");
    assert_eq!(map_name_from_file_name("Cave.map.json"), "Cave");
    assert_eq!(map_name_from_file_name("NoDot"), "NoDot");
    assert_eq!(map_name_from_file_name(".hidden"), "");
}

#[test]
fn later_files_for_a_map_override_earlier_ones() {
    let named = collect_named(vec![
        ("Home.json".to_string(), 1),
        ("Cave.json".to_string(), 2),
        ("Home.txt".to_string(), 3),
    ]);
    assert_eq!(named, vec![("Home".to_string(), 3), ("Cave".to_string(), 2)]);
}

#[test]
fn all_maps_are_read_and_keyed_by_name() {
    let maps = initialise_all_maps(vec![
        ("Home.txt".to_string(), "#+#\n%".to_string()),
        ("Cave.txt".to_string(), "^\n%".to_string()),
    ]);
    assert_eq!(maps.len(), 2);
    assert_eq!(map_named(&maps, "Home").get_tile_at(0, 1), Tile::Door(Door::new(1, 0, OpenState::Closed)));
    assert_eq!(map_named(&maps, "Cave").get_tile_at(0, 0), Tile::UpLadder);
}

#[test]
fn carriage_returns_change_nothing() {
    let windows = BackgroundMap { data: process_map_data("#+\r\n#^#\r\n%") };
    let unix = BackgroundMap { data: process_map_data("#+\n#^#\n%") };
    for y in 0..4 {
        for x in 0..4 {
            assert_eq!(windows.get_tile_at(y, x), unix.get_tile_at(y, x));
        }
    }
}

#[test]
fn the_grid_is_as_wide_as_the_longest_row() {
    let map = BackgroundMap { data: process_map_data("#\n####\n##\n%") };
    // the second row is the longest: four columns, the others padded
    assert_eq!(map.get_tile_at(1, 3), Tile::Boundary);
    assert_eq!(map.get_tile_at(0, 3), Tile::EmptySpace);
    assert_eq!(map.get_tile_at(2, 1), Tile::Boundary);
    assert_eq!(map.get_tile_at(2, 2), Tile::EmptySpace);
}
