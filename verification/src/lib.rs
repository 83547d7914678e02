//! Verified core of a small multiplayer rogue-like server: map parsing,
//! tiles, spawn bookkeeping, monster movement decisions, collisions and the
//! player requests, with what is broadcast to whom.

pub mod background_map;
pub mod broadcast;
pub mod components;
pub mod consts;
pub mod exits;
pub mod grid;
pub mod inventory;
pub mod keyed;
pub mod map_state;
pub mod math_utils;
pub mod messages;
pub mod movement;
pub mod players;
pub mod position;
pub mod progression;
pub mod random;
pub mod requests;
pub mod schedule;
pub mod search;
pub mod spawns;
pub mod tiles;
