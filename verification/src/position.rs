use vstd::prelude::*;
use crate::background_map::{grid_tile_at, BackgroundMap};
use crate::components::{Position, PositionView};
use crate::consts::DEFAULT_MAP;
use crate::keyed::{distinct_names, find_name, keyed_view, lemma_keyed_dom, lemma_keyed_lookup};
use crate::math_utils::{converted_or_zero, i32_from, u32_from};
use crate::movement::coord;
use crate::tiles::{blocks_movement, entity_is_colliding_with_tile};

verus! {

broadcast use vstd::string::to_string_from_display_ensures_for_str;

/// Every map of the world, keyed by map name; each name occurs once.
pub type AllMaps = Vec<(String, BackgroundMap)>;

/// The map named `map`, or the default map when there is none by that name.
pub open spec fn current_map_of(all_maps: Seq<(String, BackgroundMap)>, map: Seq<char>) -> BackgroundMap {
    if keyed_view(all_maps).contains_key(map) {
        keyed_view(all_maps)[map]
    } else {
        keyed_view(all_maps)[DEFAULT_MAP@]
    }
}

/// Whether looking up `map` finds a map: it exists, or the default map does.
pub open spec fn map_available(all_maps: Seq<(String, BackgroundMap)>, map: Seq<char>) -> bool {
    keyed_view(all_maps).contains_key(map) || keyed_view(all_maps).contains_key(DEFAULT_MAP@)
}

/// The map named `map`; an entity on a map that does not exist is taken to
/// be on the default map.
pub fn get_current_map<'a>(all_maps: &'a AllMaps, map: &String) -> (current: &'a BackgroundMap)
    requires
        distinct_names(all_maps@),
        map_available(all_maps@, map@),
    ensures
        *current == current_map_of(all_maps@, map@),
{
    match find_name(all_maps, map) {
        Some(k) => {
            proof {
                lemma_keyed_lookup(all_maps@, k as int);
            }
            &all_maps[k].1
        },
        None => {
            proof {
                lemma_keyed_dom(all_maps@, map@);
            }
            let default_map = DEFAULT_MAP.to_string();
            proof {
                lemma_keyed_dom(all_maps@, DEFAULT_MAP@);
            }
            let k = find_name(all_maps, &default_map).unwrap();
            proof {
                lemma_keyed_lookup(all_maps@, k as int);
            }
            &all_maps[k].1
        },
    }
}

/// The coordinate one step of `velocity` from `value`, as the entity systems
/// compute it: through `i32`, with a negative result taken as zero.
pub open spec fn stepped(value: u32, velocity: i32) -> int {
    converted_or_zero(coord(value) + velocity, 0, u32::MAX as int)
}

/// Whether taking the step a position's velocity asks for stays within `i32`.
pub open spec fn step_fits(p: PositionView) -> bool {
    i32::MIN <= coord(p.pos_x) + p.velocity_x <= i32::MAX && i32::MIN <= coord(p.pos_y) + p.velocity_y <= i32::MAX
}

pub open spec fn is_moving(p: PositionView) -> bool {
    p.velocity_x != 0 || p.velocity_y != 0
}

/// A position after the tile check: a moving entity whose step would end on a
/// blocking tile of its map is stopped; anything else is unchanged.
pub open spec fn after_tile_check(p: PositionView, map: BackgroundMap) -> PositionView {
    if is_moving(p) && blocks_movement(grid_tile_at(map.data, stepped(p.pos_y, p.velocity_y), stepped(p.pos_x, p.velocity_x))) {
        PositionView { velocity_x: 0, velocity_y: 0, ..p }
    } else {
        p
    }
}

/// A position after its step is taken: a moving entity moves by its velocity,
/// comes to rest and has its new position to be sent; anything else is
/// unchanged.
pub open spec fn after_step(p: PositionView) -> PositionView {
    if is_moving(p) {
        PositionView {
            pos_x: stepped(p.pos_x, p.velocity_x) as u32,
            pos_y: stepped(p.pos_y, p.velocity_y) as u32,
            velocity_x: 0,
            velocity_y: 0,
            update_available: true,
            ..p
        }
    } else {
        p
    }
}

/// Stops an entity whose next step would end on a blocking tile of the map it
/// is on.
pub fn check_for_tile_collision(position: &mut Position, all_maps: &AllMaps)
    requires
        distinct_names(all_maps@),
        is_moving(old(position)@) ==> map_available(all_maps@, old(position)@.current_map),
        is_moving(old(position)@) ==> step_fits(old(position)@),
    ensures
        final(position)@ == after_tile_check(old(position)@, current_map_of(all_maps@, old(position)@.current_map)),
{
    if position.velocity_x != 0 || position.velocity_y != 0 {
        let current_map = get_current_map(all_maps, &position.current_map);
        let potential_pos_x = u32_from(i32_from(position.pos_x) + position.velocity_x);
        let potential_pos_y = u32_from(i32_from(position.pos_y) + position.velocity_y);
        let tile = current_map.get_tile_at(potential_pos_y, potential_pos_x);
        if entity_is_colliding_with_tile(&tile) {
            position.velocity_x = 0;
            position.velocity_y = 0;
        }
    }
}

/// Takes the step an entity's velocity asks for, brings it to rest and marks
/// its new position to be sent.
pub fn update_entities_position(position: &mut Position)
    requires
        is_moving(old(position)@) ==> step_fits(old(position)@),
    ensures
        final(position)@ == after_step(old(position)@),
{
    if position.velocity_x != 0 || position.velocity_y != 0 {
        position.pos_x = u32_from(i32_from(position.pos_x) + position.velocity_x);
        position.pos_y = u32_from(i32_from(position.pos_y) + position.velocity_y);
        position.velocity_x = 0;
        position.velocity_y = 0;
        position.update_available = true;
    }
}

/// An entity whose step would end on a blocking tile stays where it is: the
/// tile check stops it, and taking the step then moves it nowhere.
pub proof fn law_blocked_step_stays(p: PositionView, map: BackgroundMap)
    requires
        is_moving(p),
        blocks_movement(grid_tile_at(map.data, stepped(p.pos_y, p.velocity_y), stepped(p.pos_x, p.velocity_x))),
    ensures
        after_step(after_tile_check(p, map)).pos_x == p.pos_x,
        after_step(after_tile_check(p, map)).pos_y == p.pos_y,
        after_step(after_tile_check(p, map)).current_map == p.current_map,
        !is_moving(after_step(after_tile_check(p, map))),
{
}

/// An entity that is not moving is left as it is by both the tile check and
/// the step.
pub proof fn law_resting_entity_unchanged(p: PositionView, map: BackgroundMap)
    requires
        !is_moving(p),
    ensures
        after_step(after_tile_check(p, map)) == p,
{
}

} // verus!
