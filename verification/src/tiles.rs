use vstd::prelude::*;

verus! {

/// Whether a tile blocks movement.
#[derive(Clone, Copy, Debug, PartialEq, Eq, Structural)]
pub enum Collidable {
    True,
    False,
}

/// Whether a door stands open or closed.
#[derive(Clone, Copy, Debug, PartialEq, Eq, Structural)]
pub enum OpenState {
    Open,
    Closed,
}

/// The column (`x`) and row (`y`) a tile was read from.
#[derive(Clone, Copy, Debug, PartialEq, Eq, Structural)]
pub struct TilePosition {
    pub x: u32,
    pub y: u32,
}

/// A door tile; closed doors block movement, open ones do not.
#[derive(Clone, Copy, Debug, PartialEq, Eq, Structural)]
pub struct Door {
    pub tile_position: TilePosition,
    pub character_icon: char,
    pub collidable: Collidable,
    pub open_state: OpenState,
}

/// A wall tile, drawn with the character it was read from.
#[derive(Clone, Copy, Debug, PartialEq, Eq, Structural)]
pub struct Wall {
    pub tile_position: TilePosition,
    pub character_icon: char,
    pub collidable: Collidable,
}

/// One cell of a background map.
#[derive(Clone, Copy, Debug, PartialEq, Eq, Structural)]
pub enum Tile {
    Wall(Wall),
    Door(Door),
    UpLadder,
    DownLadder,
    EmptySpace,
    Boundary,
    NewLine,
    CarriageReturn,
    EndOfFile,
}

/// The icon of a door in the given state.
pub open spec fn door_icon(open_state: OpenState) -> char {
    match open_state {
        OpenState::Open => '/',
        OpenState::Closed => '+',
    }
}

/// The collision flag of a door in the given state.
pub open spec fn door_collidable(open_state: OpenState) -> Collidable {
    match open_state {
        OpenState::Open => Collidable::False,
        OpenState::Closed => Collidable::True,
    }
}

impl Door {
    /// A door at `(x, y)`: `/` and passable when open, `+` and blocking when closed.
    pub fn new(x: u32, y: u32, open_state: OpenState) -> (door: Door)
        ensures
            door.tile_position == (TilePosition { x, y }),
            door.character_icon == door_icon(open_state),
            door.collidable == door_collidable(open_state),
            door.open_state == open_state,
    {
        Door {
            tile_position: TilePosition { x, y },
            character_icon: match open_state {
                OpenState::Open => '/',
                OpenState::Closed => '+',
            },
            collidable: match open_state {
                OpenState::Open => Collidable::False,
                OpenState::Closed => Collidable::True,
            },
            open_state,
        }
    }
}

impl Wall {
    /// A blocking wall at `(x, y)` drawn with `character_icon`.
    pub fn new(x: u32, y: u32, character_icon: char) -> (wall: Wall)
        ensures
            wall.tile_position == (TilePosition { x, y }),
            wall.character_icon == character_icon,
            wall.collidable == Collidable::True,
    {
        Wall { tile_position: TilePosition { x, y }, character_icon, collidable: Collidable::True }
    }
}

/// The character a tile is drawn with.
pub open spec fn tile_character(tile: Tile) -> char {
    match tile {
        Tile::Wall(wall) => wall.character_icon,
        Tile::Door(door) => door.character_icon,
        Tile::UpLadder => '<',
        Tile::DownLadder => '>',
        Tile::Boundary => '#',
        Tile::EmptySpace | Tile::NewLine | Tile::CarriageReturn | Tile::EndOfFile => ' ',
    }
}

impl Tile {
    /// The character this tile is drawn with.
    pub fn character(&self) -> (c: char)
        ensures
            c == tile_character(*self),
    {
        match self {
            Tile::Wall(wall) => wall.character_icon,
            Tile::Door(door) => door.character_icon,
            Tile::UpLadder => '<',
            Tile::DownLadder => '>',
            Tile::Boundary => '#',
            Tile::EmptySpace | Tile::NewLine | Tile::CarriageReturn | Tile::EndOfFile => ' ',
        }
    }
}

/// Whether `c` is one of the characters a wall is drawn with in map files.
pub open spec fn is_wall_char(c: char) -> bool {
    c == '|' || c == '*' || c == '-' || c == ','
}

/// The tile a map file character stands for, read at column `x` and row `y`.
pub open spec fn tile_for_char(x: u32, y: u32, c: char) -> Tile {
    if c == '\n' {
        Tile::NewLine
    } else if c == '\r' {
        Tile::CarriageReturn
    } else if c == '%' {
        Tile::EndOfFile
    } else if c == '#' {
        Tile::Boundary
    } else if c == '^' {
        Tile::UpLadder
    } else if c == 'v' {
        Tile::DownLadder
    } else if c == '+' {
        Tile::Door(
            Door {
                tile_position: TilePosition { x, y },
                character_icon: '+',
                collidable: Collidable::True,
                open_state: OpenState::Closed,
            },
        )
    } else if c == '/' {
        Tile::Door(
            Door {
                tile_position: TilePosition { x, y },
                character_icon: '/',
                collidable: Collidable::False,
                open_state: OpenState::Open,
            },
        )
    } else if is_wall_char(c) {
        Tile::Wall(
            Wall { tile_position: TilePosition { x, y }, character_icon: c, collidable: Collidable::True },
        )
    } else {
        Tile::EmptySpace
    }
}

/// Reads one map file character at column `x` and row `y` as a tile.
pub fn map_character_to_tile(x: u32, y: u32, character: char) -> (tile: Tile)
    ensures
        tile == tile_for_char(x, y, character),
{
    match character {
        '\n' => Tile::NewLine,
        '\r' => Tile::CarriageReturn,
        '%' => Tile::EndOfFile,
        '#' => Tile::Boundary,
        '^' => Tile::UpLadder,
        'v' => Tile::DownLadder,
        '+' => Tile::Door(Door::new(x, y, OpenState::Closed)),
        '/' => Tile::Door(Door::new(x, y, OpenState::Open)),
        '|' | '*' | '-' | ',' => Tile::Wall(Wall::new(x, y, character)),
        _ => Tile::EmptySpace,
    }
}

/// Whether an entity moving onto `tile` is blocked by it.
pub open spec fn blocks_movement(tile: Tile) -> bool {
    match tile {
        Tile::Door(door) => door.collidable == Collidable::True,
        Tile::Wall(wall) => wall.collidable == Collidable::True,
        Tile::Boundary => true,
        _ => false,
    }
}

/// Whether an entity moving onto `tile` is blocked by it: closed doors,
/// walls and the map boundary block, everything else lets it pass.
pub fn entity_is_colliding_with_tile(tile: &Tile) -> (colliding: bool)
    ensures
        colliding == blocks_movement(*tile),
{
    match tile {
        Tile::Door(door) => door.collidable == Collidable::True,
        Tile::Wall(wall) => wall.collidable == Collidable::True,
        Tile::Boundary => true,
        _ => false,
    }
}

} // verus!
