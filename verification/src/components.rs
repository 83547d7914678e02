use vstd::prelude::*;
use crate::consts::{
    DEAD_ICON, DEAD_MAP, DEFAULT_MAP, DEFAULT_PLAYER_ICON, DEFAULT_PLAYER_POSITION_X,
    DEFAULT_PLAYER_POSITION_Y,
};

verus! {

broadcast use vstd::string::to_string_from_display_ensures_for_str;

/// Where an entity is, on which map, and which way it is about to move.
#[derive(Debug)]
pub struct Position {
    pub update_available: bool,
    pub pos_x: u32,
    pub pos_y: u32,
    pub current_map: String,
    pub velocity_x: i32,
    pub velocity_y: i32,
}

/// The fields of a position, with the map name as a sequence of characters.
pub struct PositionView {
    pub update_available: bool,
    pub pos_x: u32,
    pub pos_y: u32,
    pub current_map: Seq<char>,
    pub velocity_x: i32,
    pub velocity_y: i32,
}

impl View for Position {
    type V = PositionView;

    open spec fn view(&self) -> PositionView {
        PositionView {
            update_available: self.update_available,
            pos_x: self.pos_x,
            pos_y: self.pos_y,
            current_map: self.current_map@,
            velocity_x: self.velocity_x,
            velocity_y: self.velocity_y,
        }
    }
}

impl Clone for Position {
    fn clone(&self) -> (copy: Self)
        ensures
            copy@ == self@,
    {
        Position {
            update_available: self.update_available,
            pos_x: self.pos_x,
            pos_y: self.pos_y,
            current_map: self.current_map.clone(),
            velocity_x: self.velocity_x,
            velocity_y: self.velocity_y,
        }
    }
}

/// The position new players start at: the default map, column 16, row 6, at rest.
pub open spec fn default_position() -> PositionView {
    PositionView {
        update_available: false,
        pos_x: DEFAULT_PLAYER_POSITION_X,
        pos_y: DEFAULT_PLAYER_POSITION_Y,
        current_map: DEFAULT_MAP@,
        velocity_x: 0,
        velocity_y: 0,
    }
}

/// The position of an entity that has left the world: the dead map, at the origin, at rest.
pub open spec fn dead_position() -> PositionView {
    PositionView {
        update_available: false,
        pos_x: 0,
        pos_y: 0,
        current_map: DEAD_MAP@,
        velocity_x: 0,
        velocity_y: 0,
    }
}

impl Default for Position {
    fn default() -> (position: Self)
        ensures
            position@ == default_position(),
    {
        Position {
            update_available: false,
            pos_x: DEFAULT_PLAYER_POSITION_X,
            pos_y: DEFAULT_PLAYER_POSITION_Y,
            current_map: DEFAULT_MAP.to_string(),
            velocity_x: 0,
            velocity_y: 0,
        }
    }
}

/// Components that have a value standing for an entity that left the world.
pub trait Dead: Sized {
    fn dead() -> Self;
}

impl Dead for Position {
    fn dead() -> (position: Self)
        ensures
            position@ == dead_position(),
    {
        Position {
            update_available: false,
            pos_x: 0,
            pos_y: 0,
            current_map: DEAD_MAP.to_string(),
            velocity_x: 0,
            velocity_y: 0,
        }
    }
}

/// The colours an entity can be drawn in on the client's terminal.
#[derive(Clone, Copy, Debug, PartialEq, Eq, Structural)]
pub enum Colour {
    Reset,
    Black,
    DarkGrey,
    Red,
    DarkRed,
    Green,
    DarkGreen,
    Yellow,
    DarkYellow,
    Blue,
    DarkBlue,
    Magenta,
    DarkMagenta,
    Cyan,
    DarkCyan,
    White,
    Grey,
    Rgb { r: u8, g: u8, b: u8 },
    AnsiValue(u8),
}

pub const DEFAULT_PLAYER_COLOUR: Colour = Colour::Magenta;
pub const DEFAULT_MONSTER_COLOUR: Colour = Colour::Red;
pub const DEFAULT_ITEM_COLOUR: Colour = Colour::DarkYellow;

/// How an entity is drawn, and whether it blocks others.
#[derive(Clone, Copy, Debug, PartialEq, Eq, Structural)]
pub struct DisplayDetails {
    pub icon: char,
    pub colour: Colour,
    pub visible: bool,
    pub collidable: bool,
}

/// How a player is drawn: the player icon in the player colour, visible and
/// blocking.
pub open spec fn default_display() -> DisplayDetails {
    DisplayDetails { icon: DEFAULT_PLAYER_ICON, colour: DEFAULT_PLAYER_COLOUR, visible: true, collidable: true }
}

impl Default for DisplayDetails {
    fn default() -> (details: Self)
        ensures
            details == default_display(),
    {
        DisplayDetails {
            icon: DEFAULT_PLAYER_ICON,
            colour: DEFAULT_PLAYER_COLOUR,
            visible: true,
            collidable: true,
        }
    }
}

/// How an entity that left the world is drawn: a blank, invisible, passable icon.
pub open spec fn dead_display() -> DisplayDetails {
    DisplayDetails { icon: DEAD_ICON, colour: DEFAULT_PLAYER_COLOUR, visible: false, collidable: false }
}

impl Dead for DisplayDetails {
    fn dead() -> (details: Self)
        ensures
            details == dead_display(),
    {
        DisplayDetails { icon: DEAD_ICON, colour: DEFAULT_PLAYER_COLOUR, visible: false, collidable: false }
    }
}

/// Who a player is and where their client connects from; `id` holds the
/// 128 bits of the player's UUID.
#[derive(Debug)]
pub struct PlayerDetails {
    pub id: u128,
    pub player_name: String,
    pub client_addr: String,
    pub currently_online: bool,
}

/// The fields of a player's details, with names and addresses as sequences of characters.
pub struct PlayerDetailsView {
    pub id: u128,
    pub player_name: Seq<char>,
    pub client_addr: Seq<char>,
    pub currently_online: bool,
}

impl View for PlayerDetails {
    type V = PlayerDetailsView;

    open spec fn view(&self) -> PlayerDetailsView {
        PlayerDetailsView {
            id: self.id,
            player_name: self.player_name@,
            client_addr: self.client_addr@,
            currently_online: self.currently_online,
        }
    }
}

/// What kind of monster an entity is, where it spawned and whom it chases;
/// `id` and `current_target` hold the 128 bits of UUIDs.
#[derive(Debug)]
pub struct MonsterDetails {
    pub id: u128,
    pub monster_type: String,
    pub spawn_position: Position,
    pub current_target: Option<u128>,
}

/// An item lying in the world; `id` holds the 128 bits of its UUID.
#[derive(Clone, Copy, Debug, PartialEq, Eq, Structural)]
pub struct ItemDetails {
    pub id: u128,
    pub has_been_picked_up: bool,
}

/// A trinket a player can carry; it has nothing but its name.
#[derive(Debug)]
pub struct Trinket {
    pub name: String,
}

} // verus!
