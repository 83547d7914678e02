use vstd::prelude::*;

verus! {

/// The map new players start on and respawn to.
pub const DEFAULT_MAP: &'static str = "Home";

/// Suffix of the map name that entities which left a map are reported on.
pub const DEAD_MAP: &'static str = "Dead";

pub const DEFAULT_PLAYER_ICON: char = '@';
pub const DEFAULT_PLAYER_POSITION_X: u32 = 16;
pub const DEFAULT_PLAYER_POSITION_Y: u32 = 6;
pub const DEAD_ICON: char = ' ';
pub const DEFAULT_MONSTER_ICON: char = 'x';
pub const DEFAULT_ITEM_ICON: char = ',';

/// How far, in each axis, a monster notices players and may stray from where
/// it spawned.
pub const MONSTER_DISTANCE_ACTIVATION: i32 = 10;

/// The highest respawn roll that brings a missing monster back: each tick,
/// per map and monster type, a roll from 0 to 101 is drawn and the monster
/// comes back when the roll is at most this, that is on 6 rolls in 102.
pub const TICK_SPAWN_CHANCE_PERCENTAGE: u32 = 5;

/// Percentage of experience lost on death.
pub const EXP_LOSS_ON_DEATH_PERCENTAGE: u32 = 5;

/// Highest level a player can reach.
pub const MAX_LEVEL: u32 = 100;

} // verus!
