use vstd::prelude::*;
use ndarray::Array2;
use rayon::iter::{IntoParallelRefIterator, ParallelIterator};
use crate::background_map::BackgroundMap;
use crate::grid::{tile_grid_dims, tile_grid_shape};
use crate::keyed::{distinct_names, find_name, keyed_view, lemma_keyed_dom, lemma_keyed_lookup};
use crate::components::{MonsterDetails, PlayerDetails, Position, PositionView};
use crate::math_utils::{i32_from, u32_from};
use crate::consts::DEFAULT_MAP;
use crate::position::{is_moving, step_fits, stepped};
use crate::random::new_entity_id;

verus! {

/// What kind of entity stands on a spot.
#[derive(Clone, Copy, Debug, PartialEq, Eq, Structural)]
pub enum OccupantKind {
    Player,
    Monster,
}

/// An entity standing on a spot of a map, with what collision checks read
/// of it: its id, its player name or monster type, its client address (empty
/// for monsters), whether it is online (monsters always are) and whether it
/// blocks others.
#[derive(Clone, Debug)]
pub struct Occupant {
    pub kind: OccupantKind,
    pub id: u128,
    pub name: String,
    pub client_addr: String,
    pub currently_online: bool,
    pub collidable: bool,
}

/// Whether an occupant blocks an entity moving onto its spot: an online,
/// blocking player, or a blocking monster.
pub open spec fn blocks(o: Occupant) -> bool {
    match o.kind {
        OccupantKind::Player => o.currently_online && o.collidable,
        OccupantKind::Monster => o.collidable,
    }
}

/// Whether an occupant blocks an entity moving onto its spot.
pub fn is_blocking(o: &Occupant) -> (blocking: bool)
    ensures
        blocking == blocks(*o),
{
    match o.kind {
        OccupantKind::Player => o.currently_online && o.collidable,
        OccupantKind::Monster => o.collidable,
    }
}

/// The entities standing on each spot of one map, held in an
/// `ndarray::Array2` of lists. Verus sees only the names below.
#[verifier::external_body]
pub struct MapState {
    array: Array2<Vec<Occupant>>,
}

/// The lists of a map state, row after row.
pub uninterp spec fn map_state_cells(state: MapState) -> Seq<Seq<Occupant>>;

/// The number of rows and of columns of a map state.
pub uninterp spec fn map_state_shape(state: MapState) -> (nat, nat);

/// The list on row `y`, column `x` of a map state, if the spot is inside it.
pub open spec fn occupants_at(state: MapState, y: int, x: int) -> Option<Seq<Occupant>> {
    let (rows, cols) = map_state_shape(state);
    if 0 <= y < rows && 0 <= x < cols {
        Some(map_state_cells(state)[y * cols + x])
    } else {
        None
    }
}

/// Calls `Array2::from_elem` with the shape `(rows, cols)` and an empty list.
/// Claims, as ndarray documents: the state has that shape and every list is
/// empty. The call panics when the element count overflows `isize`, so that
/// is ruled out.
#[verifier::external_body]
fn empty_map_state(rows: usize, cols: usize) -> (state: MapState)
    requires
        rows <= isize::MAX,
        cols <= isize::MAX,
        rows * cols <= isize::MAX,
    ensures
        map_state_shape(state) == (rows as nat, cols as nat),
        map_state_cells(state).len() == rows * cols,
        forall|i: int| 0 <= i < rows * cols ==> #[trigger] map_state_cells(state)[i].len() == 0,
{
    MapState { array: Array2::from_elem((rows, cols), Vec::new()) }
}

/// Calls `Array2::get` with the index `(y, x)`. Claims, as ndarray documents:
/// `None` outside the state, otherwise the list on row `y`, column `x`.
#[verifier::external_body]
fn map_state_get(state: &MapState, y: usize, x: usize) -> (occupants: Option<&Vec<Occupant>>)
    ensures
        occupants is None <==> occupants_at(*state, y as int, x as int) is None,
        occupants matches Some(v) ==> occupants_at(*state, y as int, x as int) == Some(v@),
{
    state.array.get((y, x))
}

/// Calls `Array2::get_mut` with the index `(y, x)` and pushes `occupant` on
/// the list found there. Claims, as ndarray documents: outside the state
/// nothing changes and the result is `false`; inside it, only that list
/// changes, by `occupant` added at its end.
#[verifier::external_body]
fn map_state_push(state: &mut MapState, y: usize, x: usize, occupant: Occupant) -> (inside: bool)
    ensures
        inside == (occupants_at(*old(state), y as int, x as int) is Some),
        map_state_shape(*final(state)) == map_state_shape(*old(state)),
        !inside ==> map_state_cells(*final(state)) == map_state_cells(*old(state)),
        inside ==> map_state_cells(*final(state)) == map_state_cells(*old(state)).update(
            y * map_state_shape(*old(state)).1 + x,
            map_state_cells(*old(state))[y * map_state_shape(*old(state)).1 + x].push(occupant),
        ),
{
    match state.array.get_mut((y, x)) {
        Some(occupants) => {
            occupants.push(occupant);
            true
        },
        None => false,
    }
}

/// Calls `ArrayBase::map_inplace` with `Vec::clear`. Claims, as ndarray
/// documents: the shape stays and every list is emptied.
#[verifier::external_body]
fn map_state_clear(state: &mut MapState)
    ensures
        map_state_shape(*final(state)) == map_state_shape(*old(state)),
        map_state_cells(*final(state)).len() == map_state_cells(*old(state)).len(),
        forall|i: int| 0 <= i < map_state_cells(*final(state)).len() ==> #[trigger] map_state_cells(*final(state))[i].len() == 0,
{
    state.array.map_inplace(|occupants| occupants.clear());
}

/// Calls rayon's `find_any` on the occupants of a spot with `is_blocking`.
/// Claims, as rayon documents: `None` exactly when no occupant blocks;
/// otherwise some blocking occupant of the list, which one being left to the
/// parallel search.
#[verifier::external_body]
fn find_any_blocking(occupants: &Vec<Occupant>) -> (found: Option<&Occupant>)
    ensures
        found is None <==> forall|i: int| 0 <= i < occupants@.len() ==> !blocks(#[trigger] occupants@[i]),
        found matches Some(o) ==> occupants@.contains(*o) && blocks(*o),
{
    occupants.par_iter().find_any(|o| is_blocking(o))
}

/// Whether a map state has the given shape and no entity on any spot.
pub open spec fn is_empty_state(state: MapState, shape: (nat, nat)) -> bool {
    &&& map_state_shape(state) == shape
    &&& forall|c: int| 0 <= c < map_state_cells(state).len() ==> #[trigger] map_state_cells(state)[c].len() == 0
}

/// The map states of every map, keyed by map name; each name occurs once.
pub type AllMapStates = Vec<(String, MapState)>;

/// An empty map state for every map, with the map's shape.
pub fn initialise_all_map_states(all_maps: &Vec<(String, BackgroundMap)>) -> (all_map_states: AllMapStates)
    ensures
        all_map_states@.len() == all_maps@.len(),
        forall|i: int| 0 <= i < all_maps@.len() ==> #[trigger] all_map_states@[i].0@ == all_maps@[i].0@
            && is_empty_state(all_map_states@[i].1, tile_grid_shape(all_maps@[i].1.data)),
{
    let mut all_map_states: AllMapStates = Vec::new();
    let n = all_maps.len();
    let mut i: usize = 0;
    while i < n
        invariant
            0 <= i <= n,
            n == all_maps@.len(),
            all_map_states@.len() == i,
            forall|k: int| 0 <= k < i ==> #[trigger] all_map_states@[k].0@ == all_maps@[k].0@
                && is_empty_state(all_map_states@[k].1, tile_grid_shape(all_maps@[k].1.data)),
        decreases n - i,
    {
        let (rows, cols) = tile_grid_dims(&all_maps[i].1.data);
        let state = empty_map_state(rows, cols);
        all_map_states.push((all_maps[i].0.clone(), state));
        i = i + 1;
    }
    all_map_states
}

/// Adds `occupant` to the list on column `x`, row `y`; a spot outside the map
/// changes nothing.
pub fn insert_entity_at(map: &mut MapState, occupant: Occupant, x: u32, y: u32)
    ensures
        map_state_shape(*final(map)) == map_state_shape(*old(map)),
        occupants_at(*old(map), y as int, x as int) is None ==> map_state_cells(*final(map)) == map_state_cells(*old(map)),
        occupants_at(*old(map), y as int, x as int) matches Some(list) ==> map_state_cells(*final(map)) == map_state_cells(*old(map)).update(
            y * map_state_shape(*old(map)).1 + x,
            list.push(occupant),
        ),
{
    map_state_push(map, y as usize, x as usize, occupant);
}

/// Empties every list of every map state.
pub fn clear_all_entities(map_states: &mut AllMapStates)
    ensures
        final(map_states)@.len() == old(map_states)@.len(),
        forall|i: int| 0 <= i < old(map_states)@.len() ==> #[trigger] final(map_states)@[i].0@ == old(map_states)@[i].0@
            && is_empty_state(final(map_states)@[i].1, map_state_shape(old(map_states)@[i].1)),
{
    let ghost initial = map_states@;
    let n = map_states.len();
    let mut i: usize = 0;
    while i < n
        invariant
            0 <= i <= n,
            n == map_states@.len(),
            initial.len() == n,
            forall|k: int| i <= k < n ==> #[trigger] map_states@[k] == initial[k],
            forall|k: int| 0 <= k < i ==> #[trigger] map_states@[k].0@ == initial[k].0@
                && is_empty_state(map_states@[k].1, map_state_shape(initial[k].1)),
        decreases n - i,
    {
        let ghost before = map_states@;
        let (name, mut state) = map_states.remove(i);
        map_state_clear(&mut state);
        map_states.insert(i, (name, state));
        assert(map_states@ =~= before.update(i as int, (name, state)));
        i = i + 1;
    }
}

/// The combatant found on a spot an entity tries to move onto.
#[derive(Debug)]
pub struct Defender {
    pub id: u128,
    pub name: String,
    pub client_addr: String,
    pub currently_online: bool,
    pub is_player: bool,
}

impl Default for Defender {
    /// No combatant: a fresh random id, no name or address, offline, no player.
    fn default() -> (defender: Self)
        ensures
            defender.name@ == Seq::<char>::empty(),
            defender.client_addr@ == Seq::<char>::empty(),
            !defender.currently_online,
            !defender.is_player,
    {
        Defender {
            id: new_entity_id(),
            name: String::new(),
            client_addr: String::new(),
            currently_online: false,
            is_player: false,
        }
    }
}

/// The combatant that a blocking occupant is: a player as itself, a monster
/// by its type, with no address and online.
pub open spec fn defends(d: Defender, o: Occupant) -> bool {
    &&& d.id == o.id
    &&& d.name@ == o.name@
    &&& d.is_player == (o.kind == OccupantKind::Player)
    &&& o.kind == OccupantKind::Player ==> d.client_addr@ == o.client_addr@ && d.currently_online == o.currently_online
    &&& o.kind == OccupantKind::Monster ==> d.client_addr@ == Seq::<char>::empty() && d.currently_online
}

/// Whether some entity on row `y`, column `x` blocks.
pub open spec fn spot_blocked(state: MapState, y: int, x: int) -> bool {
    match occupants_at(state, y, x) {
        Some(list) => exists|i: int| 0 <= i < list.len() && blocks(#[trigger] list[i]),
        None => false,
    }
}

/// Whether `d` is the combatant of some blocking entity on row `y`, column `x`.
pub open spec fn blocked_by(state: MapState, y: int, x: int, d: Defender) -> bool {
    match occupants_at(state, y, x) {
        Some(list) => exists|i: int| 0 <= i < list.len() && blocks(#[trigger] list[i]) && defends(d, list[i]),
        None => false,
    }
}

/// Whether an entity moving onto column `x`, row `y` runs into another, and
/// which one. Row 0 is never checked. When several entities on the spot
/// block, any one of them may be reported.
pub fn is_colliding_with_entity(x: u32, y: u32, map_state: &MapState) -> (collision: (bool, Defender))
    ensures
        collision.0 <==> (y != 0 && spot_blocked(*map_state, y as int, x as int)),
        collision.0 ==> blocked_by(*map_state, y as int, x as int, collision.1),
        !collision.0 ==> collision.1.name@ == Seq::<char>::empty() && !collision.1.is_player && !collision.1.currently_online,
{
    if y == 0 {
        return (false, Defender::default());
    }
    match map_state_get(map_state, y as usize, x as usize) {
        None => (false, Defender::default()),
        Some(occupants) => match find_any_blocking(occupants) {
            None => {
                assert(!spot_blocked(*map_state, y as int, x as int));
                (false, Defender::default())
            },
            Some(o) => {
                let ghost k = choose|k: int| 0 <= k < occupants@.len() && occupants@[k] == *o;
                let defender = match o.kind {
                    OccupantKind::Player => Defender {
                        id: o.id,
                        name: o.name.clone(),
                        client_addr: o.client_addr.clone(),
                        currently_online: o.currently_online,
                        is_player: true,
                    },
                    OccupantKind::Monster => Defender {
                        id: o.id,
                        name: o.name.clone(),
                        client_addr: String::new(),
                        currently_online: true,
                        is_player: false,
                    },
                };
                proof {
                    assert(blocks(occupants@[k]) && defends(defender, occupants@[k]));
                    let list = occupants_at(*map_state, y as int, x as int)->0;
                    assert(list == occupants@);
                    assert(blocks(list[k]) && defends(defender, list[k]));
                    assert(spot_blocked(*map_state, y as int, x as int));
                    assert(blocked_by(*map_state, y as int, x as int, defender));
                }
                (true, defender)
            },
        },
    }
}

/// Whether adding entities to a map state can find the state of `map`.
pub open spec fn has_map_state(all_map_states: Seq<(String, MapState)>, map: Seq<char>) -> bool {
    exists|i: int| 0 <= i < all_map_states.len() && #[trigger] all_map_states[i].0@ == map
}

/// Adds an entity standing at `x`, `y` on `map` to that map's state; a spot
/// outside the map changes nothing.
pub fn add_entity_to_map_state(all_map_states: &mut AllMapStates, map: &String, x: u32, y: u32, occupant: Occupant)
    requires
        distinct_names(old(all_map_states)@),
        has_map_state(old(all_map_states)@, map@),
    ensures
        final(all_map_states)@.len() == old(all_map_states)@.len(),
        distinct_names(final(all_map_states)@),
        forall|i: int| 0 <= i < old(all_map_states)@.len() && #[trigger] old(all_map_states)@[i].0@ != map@ ==> final(all_map_states)@[i] == old(all_map_states)@[i],
        forall|i: int| 0 <= i < old(all_map_states)@.len() && #[trigger] old(all_map_states)@[i].0@ == map@ ==> {
            let before = old(all_map_states)@[i].1;
            let after = final(all_map_states)@[i].1;
            &&& final(all_map_states)@[i].0@ == map@
            &&& map_state_shape(after) == map_state_shape(before)
            &&& occupants_at(before, y as int, x as int) is None ==> map_state_cells(after) == map_state_cells(before)
            &&& occupants_at(before, y as int, x as int) matches Some(list) ==> map_state_cells(after) == map_state_cells(before).update(
                y * map_state_shape(before).1 + x,
                list.push(occupant),
            )
        },
{
    let k = match find_name(all_map_states, map) {
        Some(k) => k,
        None => {
            proof {
                let i = choose|i: int| 0 <= i < all_map_states@.len() && #[trigger] all_map_states@[i].0@ == map@;
                assert(all_map_states@[i].0@ != map@);
            }
            return;
        },
    };
    let ghost before = all_map_states@;
    let (name, mut state) = all_map_states.remove(k);
    insert_entity_at(&mut state, occupant, x, y);
    all_map_states.insert(k, (name, state));
    assert(all_map_states@ =~= before.update(k as int, (name, state)));
    assert forall|i: int, j: int|
        0 <= i < all_map_states@.len() && 0 <= j < all_map_states@.len() && i != j implies #[trigger] all_map_states@[i].0@
            != #[trigger] all_map_states@[j].0@ by {
        assert(all_map_states@[i].0@ == before[i].0@ && all_map_states@[j].0@ == before[j].0@);
    }
    assert forall|i: int| 0 <= i < before.len() && #[trigger] before[i].0@ == map@ implies i == k by {
        if i != k {
            assert(before[i].0@ != before[k as int].0@);
        }
    }
}

/// The state of `map`, or that of the default map when there is none by that name.
pub open spec fn current_state_of(all_map_states: Seq<(String, MapState)>, map: Seq<char>) -> MapState {
    if keyed_view(all_map_states).contains_key(map) {
        keyed_view(all_map_states)[map]
    } else {
        keyed_view(all_map_states)[DEFAULT_MAP@]
    }
}

/// The state of the map named `map`; an entity on a map that does not exist
/// is taken to be on the default map.
pub fn get_current_map_states<'a>(all_map_states: &'a AllMapStates, map: &String) -> (state: &'a MapState)
    requires
        distinct_names(all_map_states@),
        keyed_view(all_map_states@).contains_key(map@) || keyed_view(all_map_states@).contains_key(DEFAULT_MAP@),
    ensures
        *state == current_state_of(all_map_states@, map@),
{
    match find_name(all_map_states, map) {
        Some(k) => {
            proof {
                lemma_keyed_lookup(all_map_states@, k as int);
            }
            &all_map_states[k].1
        },
        None => {
            proof {
                lemma_keyed_dom(all_map_states@, map@);
                lemma_keyed_dom(all_map_states@, DEFAULT_MAP@);
            }
            let default_map = DEFAULT_MAP.to_string();
            let k = find_name(all_map_states, &default_map).unwrap();
            proof {
                lemma_keyed_lookup(all_map_states@, k as int);
            }
            &all_map_states[k].1
        },
    }
}

/// The id of an attacking entity: the player's id, else the monster's; an
/// entity that is neither gets a fresh random id.
pub fn get_attacker_id(player_details: Option<&PlayerDetails>, monster_details: Option<&MonsterDetails>) -> (id: u128)
    ensures
        player_details matches Some(p) ==> id == p.id,
        player_details is None && monster_details is Some ==> id == monster_details.unwrap().id,
{
    match player_details {
        Some(p) => p.id,
        None => match monster_details {
            Some(m) => m.id,
            None => new_entity_id(),
        },
    }
}

/// A moving entity about to step onto a spot where another blocking entity
/// stands attacks it instead: it is stopped and the defender is returned.
/// An entity at rest, or stepping onto a free spot, is left as it is.
pub fn check_for_combat(position: &mut Position, all_map_states: &AllMapStates) -> (defender: Option<Defender>)
    requires
        distinct_names(all_map_states@),
        is_moving(old(position)@) ==> keyed_view(all_map_states@).contains_key(old(position)@.current_map)
            || keyed_view(all_map_states@).contains_key(DEFAULT_MAP@),
        is_moving(old(position)@) ==> step_fits(old(position)@),
    ensures
        ({
            let p = old(position)@;
            let state = current_state_of(all_map_states@, p.current_map);
            let x = stepped(p.pos_x, p.velocity_x);
            let y = stepped(p.pos_y, p.velocity_y);
            let collides = is_moving(p) && y != 0 && spot_blocked(state, y, x);
            &&& defender is Some <==> collides
            &&& defender matches Some(d) ==> blocked_by(state, y, x, d)
            &&& final(position)@ == if collides { PositionView { velocity_x: 0, velocity_y: 0, ..p } } else { p }
        }),
{
    if position.velocity_x == 0 && position.velocity_y == 0 {
        return None;
    }
    let current_map_states = get_current_map_states(all_map_states, &position.current_map);
    let potential_pos_x = u32_from(i32_from(position.pos_x) + position.velocity_x);
    let potential_pos_y = u32_from(i32_from(position.pos_y) + position.velocity_y);
    let (colliding, defender) = is_colliding_with_entity(potential_pos_x, potential_pos_y, current_map_states);
    if colliding {
        position.velocity_x = 0;
        position.velocity_y = 0;
        Some(defender)
    } else {
        None
    }
}

/// Whether the spot on column `x`, row `y` counts as blocked when each
/// entity on it overrides the one before: the last entity standing there
/// decides. The spot must lie inside the map.
pub fn is_colliding(x: u32, y: u32, map_state: &MapState) -> (colliding: bool)
    requires
        occupants_at(*map_state, y as int, x as int) is Some,
    ensures
        colliding == {
            let list = occupants_at(*map_state, y as int, x as int)->0;
            list.len() > 0 && blocks(list.last())
        },
{
    let occupants = map_state_get(map_state, y as usize, x as usize).unwrap();
    let mut colliding = false;
    let n = occupants.len();
    let mut i: usize = 0;
    while i < n
        invariant
            0 <= i <= n,
            n == occupants@.len(),
            colliding == (i > 0 && blocks(occupants@[i - 1])),
        decreases n - i,
    {
        colliding = is_blocking(&occupants[i]);
        i = i + 1;
    }
    colliding
}

} // verus!
