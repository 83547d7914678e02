use vstd::prelude::*;
use crate::components::Position;

verus! {

/// Who sent a request: the client's address and the player it speaks for.
#[derive(Debug)]
pub struct ClientDetails {
    pub client_addr: String,
    pub player_name: String,
}

/// A player's name with the position the player's client reports or asks for.
#[derive(Debug)]
pub struct PositionMessage {
    pub player_name: String,
    pub position: Position,
}

/// What a client can ask of the server.
#[derive(Debug)]
pub enum PlayerRequest {
    PlayerJoin(ClientDetails),
    PlayerLogout(ClientDetails),
    UpdateVelocity(PositionMessage),
    PickupItem(PositionMessage),
    ChangeMap(PositionMessage),
    DropItem((u16, PositionMessage)),
    StatUp((String, String)),
    GetAllMaps,
    Timeout(String),
    Undefined,
}

/// A step an entity wants to take, in columns and rows.
#[derive(Clone, Copy, Debug, PartialEq, Eq, Structural)]
pub struct Velocity {
    pub x: i32,
    pub y: i32,
}

/// A request to join the game under a player name.
#[derive(Debug)]
pub struct CreatePlayerMessage {
    pub client_addr: String,
    pub player_name: String,
}

/// A player's requested step.
#[derive(Debug)]
pub struct VelocityMessage {
    pub player_name: String,
    pub velocity: Velocity,
}

/// What a client can tell the server's message handler.
#[derive(Debug)]
pub enum PlayerMessage {
    PlayerJoin(CreatePlayerMessage),
    UpdateVelocity(VelocityMessage),
    GetAllMaps,
    GetChunkedAllMaps,
    Timeout(String),
}

} // verus!
