use vstd::prelude::*;
use crate::components::{MonsterDetails, PlayerDetails, Position, PositionView};
use crate::consts::MONSTER_DISTANCE_ACTIVATION;
use crate::math_utils::{converted_or_zero, i32_from};
use crate::random::{new_entity_id, random_between, random_coin};

verus! {

/// A map coordinate as the movement rules read it: its value as an `i32`, or
/// zero when it does not fit.
pub open spec fn coord(value: u32) -> int {
    converted_or_zero(value as int, i32::MIN as int, i32::MAX as int)
}

pub open spec fn abs(value: int) -> int {
    if value < 0 { -value } else { value }
}

/// Whether a monster at `current` has strayed further than the activation
/// distance from `spawn` along either axis.
pub open spec fn outside_spawn_range(spawn: PositionView, current: PositionView) -> bool {
    abs(coord(current.pos_x) - coord(spawn.pos_x)) > MONSTER_DISTANCE_ACTIVATION
        || abs(coord(current.pos_y) - coord(spawn.pos_y)) > MONSTER_DISTANCE_ACTIVATION
}

fn abs_i32(value: i32) -> (result: i32)
    requires
        value > i32::MIN,
    ensures
        result == abs(value as int),
{
    if value < 0 { -value } else { value }
}

/// Whether a monster at `current_position` has strayed further than the
/// activation distance from `spawn_position` along either axis.
pub fn check_if_outside_spawn_range(spawn_position: &Position, current_position: &Position) -> (outside: bool)
    ensures
        outside == outside_spawn_range(spawn_position@, current_position@),
{
    let diff_x: i32 = i32_from(current_position.pos_x) - i32_from(spawn_position.pos_x);
    let diff_y: i32 = i32_from(current_position.pos_y) - i32_from(spawn_position.pos_y);
    abs_i32(diff_x) > MONSTER_DISTANCE_ACTIVATION || abs_i32(diff_y) > MONSTER_DISTANCE_ACTIVATION
}

/// One step along an axis towards a target that lies `diff` behind: one
/// lower when the difference is positive, one higher otherwise.
pub open spec fn step_towards(diff: int) -> int {
    if diff > 0 { -1 } else { 1 }
}

/// The coordinate one step from `position` towards a target `diff` behind it.
pub fn move_towards(diff: i32, position: i32) -> (moved: i32)
    requires
        position + step_towards(diff as int) >= i32::MIN,
        position + step_towards(diff as int) <= i32::MAX,
    ensures
        moved == position + step_towards(diff as int),
{
    if diff > 0 {
        position - 1
    } else {
        position + 1
    }
}

/// The velocity a monster at `m` takes to close in on a target at `t`, given
/// the random draws: a coin, a die roll and a second coin.
/// - Off both axes, or on the target itself: one step along x or along y,
///   chosen by the coin.
/// - In line along x (or y) and more than one step away: a step straight
///   towards the target unless the die shows 1; then a sidestep along the
///   other axis, whose direction the second coin picks.
/// - One step away in line: the step onto the target (an attack).
pub open spec fn steer_velocity(m: PositionView, t: PositionView, coin: bool, die: u32, second_coin: bool) -> (int, int) {
    let dx = coord(m.pos_x) - coord(t.pos_x);
    let dy = coord(m.pos_y) - coord(t.pos_y);
    if (abs(dx) >= 1 && abs(dy) >= 1) || (dx == 0 && dy == 0) {
        if coin { (step_towards(dx), 0) } else { (0, step_towards(dy)) }
    } else if abs(dx) > 1 && dy == 0 {
        if die > 1 {
            (step_towards(dx), 0)
        } else if second_coin {
            (0, step_towards(dy + 1))
        } else {
            (0, step_towards(dy - 1))
        }
    } else if dx == 0 && abs(dy) > 1 {
        if die > 1 {
            (0, step_towards(dy))
        } else if second_coin {
            (step_towards(dx + 1), 0)
        } else {
            (step_towards(dx - 1), 0)
        }
    } else if abs(dx) == 1 && dy == 0 {
        (step_towards(dx), 0)
    } else if dx == 0 && abs(dy) == 1 {
        (0, step_towards(dy))
    } else {
        (0, 0)
    }
}

/// Whether `next` is `pos` with only its velocity set to `velocity`.
pub open spec fn with_velocity(pos: PositionView, next: PositionView, velocity: (int, int)) -> bool {
    next == PositionView { velocity_x: velocity.0 as i32, velocity_y: velocity.1 as i32, ..pos }
}

/// Whether no step a monster at `m` can take towards `t` leaves the `i32`
/// range: a monster can only step past `i32::MAX` along an axis where it
/// and its target both stand at `i32::MAX`.
pub open spec fn steering_stays_in_range(m: PositionView, t: PositionView) -> bool {
    !(coord(m.pos_x) == i32::MAX && coord(t.pos_x) == i32::MAX)
        && !(coord(m.pos_y) == i32::MAX && coord(t.pos_y) == i32::MAX)
}

proof fn lemma_steer_in_range(m: PositionView, t: PositionView, coin: bool, die: u32, second_coin: bool)
    requires
        steering_stays_in_range(m, t),
    ensures
        coord(m.pos_x) + steer_velocity(m, t, coin, die, second_coin).0 <= i32::MAX,
        coord(m.pos_y) + steer_velocity(m, t, coin, die, second_coin).1 <= i32::MAX,
{
}

/// Sets the velocity of a monster at `monster_position` to the step that
/// closes in on `target_position`, given the random draws.
pub fn steer_towards_target(
    monster_position: &mut Position,
    target_position: &Position,
    coin: bool,
    die: u32,
    second_coin: bool,
)
    requires
        steering_stays_in_range(old(monster_position)@, target_position@),
    ensures
        with_velocity(
            old(monster_position)@,
            final(monster_position)@,
            steer_velocity(old(monster_position)@, target_position@, coin, die, second_coin),
        ),
{
    proof {
        lemma_steer_in_range(monster_position@, target_position@, coin, die, second_coin);
    }
    let monster_position_x = i32_from(monster_position.pos_x);
    let monster_position_y = i32_from(monster_position.pos_y);
    let diff_x: i32 = monster_position_x - i32_from(target_position.pos_x);
    let diff_y: i32 = monster_position_y - i32_from(target_position.pos_y);
    let mut new_pos_x = monster_position_x;
    let mut new_pos_y = monster_position_y;
    let abs_x = abs_i32(diff_x);
    let abs_y = abs_i32(diff_y);

    if (abs_x >= 1 && abs_y >= 1) || (diff_x == 0 && diff_y == 0) {
        if coin {
            new_pos_x = move_towards(diff_x, monster_position_x);
        } else {
            new_pos_y = move_towards(diff_y, monster_position_y);
        }
    } else if abs_x > 1 && diff_y == 0 {
        if die > 1 {
            new_pos_x = move_towards(diff_x, monster_position_x);
        } else if second_coin {
            new_pos_y = move_towards(diff_y + 1, monster_position_y);
        } else {
            new_pos_y = move_towards(diff_y - 1, monster_position_y);
        }
    } else if diff_x == 0 && abs_y > 1 {
        if die > 1 {
            new_pos_y = move_towards(diff_y, monster_position_y);
        } else if second_coin {
            new_pos_x = move_towards(diff_x + 1, monster_position_x);
        } else {
            new_pos_x = move_towards(diff_x - 1, monster_position_x);
        }
    } else if abs_x == 1 && diff_y == 0 {
        new_pos_x = move_towards(diff_x, monster_position_x);
    } else if diff_x == 0 && abs_y == 1 {
        new_pos_y = move_towards(diff_y, monster_position_y);
    }
    monster_position.velocity_x = new_pos_x - monster_position_x;
    monster_position.velocity_y = new_pos_y - monster_position_y;
}

/// Sets the velocity of a monster to a step that closes in on the target,
/// drawing a coin, a die roll from 1 to 6 and a second coin at random.
pub fn move_towards_target(monster_position: &mut Position, target_position: &Position)
    requires
        steering_stays_in_range(old(monster_position)@, target_position@),
    ensures
        exists|coin: bool, die: u32, second_coin: bool|
            1 <= die <= 6 && with_velocity(
                old(monster_position)@,
                final(monster_position)@,
                #[trigger] steer_velocity(old(monster_position)@, target_position@, coin, die, second_coin),
            ),
{
    let coin = random_coin();
    let die = random_between(1, 6);
    let second_coin = random_coin();
    steer_towards_target(monster_position, target_position, coin, die, second_coin);
}

/// The unit velocity a random pick from 1 to 4 stands for: right, left, down, up.
pub open spec fn wander_velocity(pick: u32) -> (int, int) {
    if pick == 1 {
        (1, 0)
    } else if pick == 2 {
        (-1, 0)
    } else if pick == 3 {
        (0, 1)
    } else if pick == 4 {
        (0, -1)
    } else {
        (0, 0)
    }
}

/// Sets the velocity of a wandering monster from a pick from 1 to 4.
pub fn set_wander_velocity(monster_position: &mut Position, pick: u32)
    ensures
        with_velocity(old(monster_position)@, final(monster_position)@, wander_velocity(pick)),
{
    let mut velocity_x: i32 = 0;
    let mut velocity_y: i32 = 0;
    if pick == 1 {
        velocity_x = 1;
    } else if pick == 2 {
        velocity_x = -1;
    } else if pick == 3 {
        velocity_y = 1;
    } else if pick == 4 {
        velocity_y = -1;
    }
    monster_position.velocity_x = velocity_x;
    monster_position.velocity_y = velocity_y;
}

/// Sets the velocity of a wandering monster to one step in a random one of
/// the four directions.
pub fn move_randomly(monster_position: &mut Position)
    ensures
        exists|pick: u32|
            1 <= pick <= 4 && with_velocity(
                old(monster_position)@,
                final(monster_position)@,
                #[trigger] wander_velocity(pick),
            ),
{
    let pick = random_between(1, 4);
    set_wander_velocity(monster_position, pick);
}

/// The players a server knows the positions of, by the 128 bits of their ids.
pub open spec fn players_view(players: Seq<(u128, Position)>) -> Seq<(u128, PositionView)> {
    players.map_values(|entry: (u128, Position)| (entry.0, entry.1@))
}

/// Whether a player at `p` is close enough for a monster at `m` to notice:
/// on the same map, from the activation distance before to just short of the
/// activation distance past the monster, along both axes.
pub open spec fn is_nearby(m: PositionView, p: PositionView) -> bool {
    &&& m.current_map == p.current_map
    &&& coord(m.pos_x) - MONSTER_DISTANCE_ACTIVATION <= coord(p.pos_x) < coord(m.pos_x) + MONSTER_DISTANCE_ACTIVATION
    &&& coord(m.pos_y) - MONSTER_DISTANCE_ACTIVATION <= coord(p.pos_y) < coord(m.pos_y) + MONSTER_DISTANCE_ACTIVATION
}

/// The players near a monster at `m`, in the order given.
pub open spec fn nearby_players(players: Seq<(u128, PositionView)>, m: PositionView) -> Seq<(u128, PositionView)> {
    players.filter(|entry: (u128, PositionView)| is_nearby(m, entry.1))
}

/// Whether the activation window around a monster at `m` fits in the `i32` range.
pub open spec fn activation_window_in_range(m: PositionView) -> bool {
    coord(m.pos_x) + MONSTER_DISTANCE_ACTIVATION <= i32::MAX && coord(m.pos_y)
        + MONSTER_DISTANCE_ACTIVATION <= i32::MAX
}

/// The players near a monster, with their positions, in the order given.
pub fn get_all_players_nearby(player_positions: &Vec<(u128, Position)>, monster_position: &Position) -> (nearby: Vec<(u128, Position)>)
    requires
        activation_window_in_range(monster_position@),
    ensures
        players_view(nearby@) == nearby_players(players_view(player_positions@), monster_position@),
{
    let mut nearby: Vec<(u128, Position)> = Vec::new();
    let monster_position_x = i32_from(monster_position.pos_x);
    let monster_position_y = i32_from(monster_position.pos_y);
    let low_x = monster_position_x - MONSTER_DISTANCE_ACTIVATION;
    let high_x = monster_position_x + MONSTER_DISTANCE_ACTIVATION;
    let low_y = monster_position_y - MONSTER_DISTANCE_ACTIVATION;
    let high_y = monster_position_y + MONSTER_DISTANCE_ACTIVATION;
    let ghost pred = |entry: (u128, PositionView)| is_nearby(monster_position@, entry.1);
    let n = player_positions.len();
    let mut i: usize = 0;
    while i < n
        invariant
            0 <= i <= n,
            n == player_positions@.len(),
            pred == (|entry: (u128, PositionView)| is_nearby(monster_position@, entry.1)),
            low_x == coord(monster_position.pos_x) - MONSTER_DISTANCE_ACTIVATION,
            high_x == coord(monster_position.pos_x) + MONSTER_DISTANCE_ACTIVATION,
            low_y == coord(monster_position.pos_y) - MONSTER_DISTANCE_ACTIVATION,
            high_y == coord(monster_position.pos_y) + MONSTER_DISTANCE_ACTIVATION,
            players_view(nearby@) == players_view(player_positions@).take(i as int).filter(pred),
        decreases n - i,
    {
        let player_id = player_positions[i].0;
        let position = &player_positions[i].1;
        let x = i32_from(position.pos_x);
        let y = i32_from(position.pos_y);
        let ghost before = players_view(player_positions@).take(i as int);
        proof {
            assert(players_view(player_positions@).take(i + 1) == before.push(players_view(player_positions@)[i as int]));
            before.lemma_filter_push(players_view(player_positions@)[i as int], pred);
        }
        if monster_position.current_map == position.current_map && low_x <= x && x < high_x && low_y <= y
            && y < high_y {
            nearby.push((player_id, position.clone()));
            assert(players_view(nearby@) =~= players_view(nearby@).drop_last().push(players_view(nearby@).last()));
        }
        i = i + 1;
    }
    assert(players_view(player_positions@).take(n as int) == players_view(player_positions@));
    nearby
}

/// How far a player at `p` is from a monster at `m`, measured along the axis
/// on which they are closer.
pub open spec fn axis_distance(m: PositionView, p: PositionView) -> int {
    let dx = abs(coord(m.pos_x) - coord(p.pos_x));
    let dy = abs(coord(m.pos_y) - coord(p.pos_y));
    if dx <= dy { dx } else { dy }
}

/// Whether entry `k` is the first of `players` at the smallest axis distance
/// from a monster at `m`.
pub open spec fn is_first_nearest(players: Seq<(u128, PositionView)>, m: PositionView, k: int) -> bool {
    &&& 0 <= k < players.len()
    &&& forall|j: int| 0 <= j < players.len() ==> axis_distance(m, #[trigger] players[j].1) >= axis_distance(m, players[k].1)
    &&& forall|j: int| 0 <= j < k ==> axis_distance(m, #[trigger] players[j].1) > axis_distance(m, players[k].1)
}

/// The id of the first player at the smallest axis distance from a monster at `m`.
pub open spec fn nearest_player_id(players: Seq<(u128, PositionView)>, m: PositionView) -> u128 {
    players[choose|k: int| is_first_nearest(players, m, k)].0
}

proof fn lemma_first_nearest_unique(players: Seq<(u128, PositionView)>, m: PositionView, k: int)
    requires
        is_first_nearest(players, m, k),
    ensures
        nearest_player_id(players, m) == players[k].0,
{
    let c = choose|k: int| is_first_nearest(players, m, k);
    assert(is_first_nearest(players, m, c));
    if c < k {
        assert(axis_distance(m, players[c].1) > axis_distance(m, players[k].1));
    } else if k < c {
        assert(axis_distance(m, players[k].1) > axis_distance(m, players[c].1));
    }
}

fn unsigned_distance(a: i32, b: i32) -> (d: u32)
    requires
        a >= 0,
        b >= 0,
    ensures
        d == abs(a - b),
{
    if a >= b { (a - b) as u32 } else { (b - a) as u32 }
}

/// The id of the first nearby player at the smallest axis distance from the
/// monster; with no players, a fresh random id.
pub fn get_nearest_target(nearby_players: &Vec<(u128, Position)>, monster_position: &Position) -> (target: u128)
    ensures
        nearby_players@.len() > 0 ==> target == nearest_player_id(players_view(nearby_players@), monster_position@),
        nearby_players@.len() > 0 ==> exists|k: int| #[trigger] is_first_nearest(players_view(nearby_players@), monster_position@, k),
{
    let ghost players = players_view(nearby_players@);
    let mut closest_distance: u32 = u32::MAX;
    let mut closest_index: usize = 0;
    let n = nearby_players.len();
    let mut i: usize = 0;
    while i < n
        invariant
            0 <= i <= n,
            n == nearby_players@.len(),
            players == players_view(nearby_players@),
            i == 0 ==> closest_distance == u32::MAX,
            i > 0 ==> {
                &&& closest_index < i
                &&& closest_distance == axis_distance(monster_position@, players[closest_index as int].1)
                &&& forall|j: int| 0 <= j < i ==> axis_distance(monster_position@, #[trigger] players[j].1) >= closest_distance
                &&& forall|j: int| 0 <= j < closest_index ==> axis_distance(monster_position@, #[trigger] players[j].1) > closest_distance
            },
        decreases n - i,
    {
        let target_position = &nearby_players[i].1;
        let diff_x = unsigned_distance(i32_from(monster_position.pos_x), i32_from(target_position.pos_x));
        let diff_y = unsigned_distance(i32_from(monster_position.pos_y), i32_from(target_position.pos_y));
        if diff_x < closest_distance {
            closest_distance = diff_x;
            closest_index = i;
        }
        if diff_y < closest_distance {
            closest_distance = diff_y;
            closest_index = i;
        }
        i = i + 1;
    }
    if n == 0 {
        return new_entity_id();
    }
    proof {
        assert(is_first_nearest(players, monster_position@, closest_index as int));
        lemma_first_nearest_unique(players, monster_position@, closest_index as int);
    }
    nearby_players[closest_index].0
}

/// The position of the first of `players` with id `id`, if there is one.
pub open spec fn position_of(players: Seq<(u128, PositionView)>, id: u128) -> Option<PositionView>
    decreases players.len(),
{
    if players.len() == 0 {
        None
    } else if players[0].0 == id {
        Some(players[0].1)
    } else {
        position_of(players.drop_first(), id)
    }
}

/// The index of the first of `players` with id `id`, if there is one.
pub fn find_player(players: &Vec<(u128, Position)>, id: u128) -> (index: Option<usize>)
    ensures
        position_of(players_view(players@), id) is None <==> index is None,
        index matches Some(k) ==> k < players@.len() && position_of(players_view(players@), id) == Some(players@[k as int].1@),
{
    let ghost all = players_view(players@);
    let n = players.len();
    let mut i: usize = 0;
    assert(all.skip(0) == all);
    while i < n
        invariant
            0 <= i <= n,
            n == players@.len(),
            all == players_view(players@),
            position_of(all, id) == position_of(all.skip(i as int), id),
        decreases n - i,
    {
        assert(all.skip(i as int).drop_first() == all.skip(i + 1));
        if players[i].0 == id {
            return Some(i);
        }
        i = i + 1;
    }
    None
}

/// What a monster does on a server tick, given where it spawned, where it
/// is, whom it chases, the known players and the random draws: the target it
/// chases afterwards and the velocity it takes.
/// - If its target is still near, it keeps chasing it.
/// - Otherwise, if it strayed too far from its spawn, it drops its target and
///   heads back to the spawn.
/// - Otherwise, if some player is near, it chases the first nearest one.
/// - Otherwise it wanders one step in the direction the pick stands for.
pub open spec fn monster_plan(
    target: Option<u128>,
    spawn: PositionView,
    position: PositionView,
    players: Seq<(u128, PositionView)>,
    coin: bool,
    die: u32,
    second_coin: bool,
    pick: u32,
) -> (Option<u128>, (int, int)) {
    let nearby = nearby_players(players, position);
    if target is Some && position_of(nearby, target->0) is Some {
        (target, steer_velocity(position, position_of(nearby, target->0)->0, coin, die, second_coin))
    } else if outside_spawn_range(spawn, position) {
        (None, steer_velocity(position, spawn, coin, die, second_coin))
    } else if nearby.len() > 0 {
        let id = nearest_player_id(nearby, position);
        (Some(id), steer_velocity(position, position_of(nearby, id)->0, coin, die, second_coin))
    } else {
        (target, wander_velocity(pick))
    }
}

proof fn lemma_position_of_nearest(players: Seq<(u128, PositionView)>, m: PositionView, k: int)
    requires
        is_first_nearest(players, m, k),
    ensures
        position_of(players, players[k].0) is Some,
    decreases players.len(),
{
    if players[0].0 != players[k].0 {
        assert(k > 0);
        let rest = players.drop_first();
        assert(rest[k - 1] == players[k]);
        lemma_position_of_some(rest, players[k].0, k - 1);
    }
}

proof fn lemma_position_of_some(players: Seq<(u128, PositionView)>, id: u128, k: int)
    requires
        0 <= k < players.len(),
        players[k].0 == id,
    ensures
        position_of(players, id) is Some,
    decreases players.len(),
{
    if players[0].0 != id {
        lemma_position_of_some(players.drop_first(), id, k - 1);
    }
}

/// Decides a monster's target and velocity for this tick, given the random
/// draws: keeps chasing a target that is still near, else returns to its
/// spawn if it strayed too far, else chases the nearest player, else wanders.
pub fn decide_monster_movement(
    monster: &mut MonsterDetails,
    position: &mut Position,
    players_positions: &Vec<(u128, Position)>,
    coin: bool,
    die: u32,
    second_coin: bool,
    pick: u32,
)
    requires
        activation_window_in_range(old(position)@),
    ensures
        ({
            let plan = monster_plan(
                old(monster).current_target,
                old(monster).spawn_position@,
                old(position)@,
                players_view(players_positions@),
                coin,
                die,
                second_coin,
                pick,
            );
            &&& final(monster).current_target == plan.0
            &&& final(monster).id == old(monster).id
            &&& final(monster).monster_type == old(monster).monster_type
            &&& final(monster).spawn_position == old(monster).spawn_position
            &&& with_velocity(old(position)@, final(position)@, plan.1)
        }),
{
    let nearby = get_all_players_nearby(players_positions, position);
    let outside_spawn_range = check_if_outside_spawn_range(&monster.spawn_position, position);
    let ghost nearby_view = nearby_players(players_view(players_positions@), position@);
    let mut moving_towards_existing_target = false;
    if let Some(target) = monster.current_target {
        match find_player(&nearby, target) {
            Some(k) => {
                steer_towards_target(position, &nearby[k].1, coin, die, second_coin);
                moving_towards_existing_target = true;
            },
            None => {},
        }
    }
    if outside_spawn_range && !moving_towards_existing_target {
        monster.current_target = None;
        steer_towards_target(position, &monster.spawn_position, coin, die, second_coin);
    } else if !outside_spawn_range && !moving_towards_existing_target && nearby.len() > 0 {
        let nearest_target = get_nearest_target(&nearby, position);
        proof {
            let k = choose|k: int| is_first_nearest(nearby_view, position@, k);
            lemma_position_of_nearest(nearby_view, position@, k);
        }
        monster.current_target = Some(nearest_target);
        match find_player(&nearby, nearest_target) {
            Some(k) => {
                steer_towards_target(position, &nearby[k].1, coin, die, second_coin);
            },
            None => {},
        }
    } else if !outside_spawn_range && !moving_towards_existing_target && nearby.len() == 0 {
        set_wander_velocity(position, pick);
    }
}

/// Decides a monster's target and velocity for this tick as
/// `decide_monster_movement` does, drawing a coin, a die roll from 1 to 6, a
/// second coin and a direction pick from 1 to 4 at random.
pub fn update_monster_velocities(
    monster: &mut MonsterDetails,
    position: &mut Position,
    players_positions: &Vec<(u128, Position)>,
)
    requires
        activation_window_in_range(old(position)@),
    ensures
        exists|coin: bool, die: u32, second_coin: bool, pick: u32|
            1 <= die <= 6 && 1 <= pick <= 4 && ({
                let plan = #[trigger] monster_plan(
                    old(monster).current_target,
                    old(monster).spawn_position@,
                    old(position)@,
                    players_view(players_positions@),
                    coin,
                    die,
                    second_coin,
                    pick,
                );
                &&& final(monster).current_target == plan.0
                &&& with_velocity(old(position)@, final(position)@, plan.1)
            }),
        final(monster).id == old(monster).id,
        final(monster).monster_type == old(monster).monster_type,
        final(monster).spawn_position == old(monster).spawn_position,
{
    let coin = random_coin();
    let die = random_between(1, 6);
    let second_coin = random_coin();
    let pick = random_between(1, 4);
    decide_monster_movement(monster, position, players_positions, coin, die, second_coin, pick);
}

/// The ids and positions of the online players, in order.
pub open spec fn online_positions(players: Seq<(PlayerDetails, Position)>) -> Seq<(u128, PositionView)>
    decreases players.len(),
{
    if players.len() == 0 {
        Seq::empty()
    } else {
        let rest = online_positions(players.drop_last());
        let (details, position) = players.last();
        if details.currently_online {
            rest.push((details.id, position@))
        } else {
            rest
        }
    }
}

/// The positions that monsters chase: those of the online players, by id.
pub fn update_player_positions_resource(players: &Vec<(PlayerDetails, Position)>) -> (players_positions: Vec<(u128, Position)>)
    ensures
        players_view(players_positions@) == online_positions(players@),
{
    let mut players_positions: Vec<(u128, Position)> = Vec::new();
    let n = players.len();
    let mut i: usize = 0;
    while i < n
        invariant
            0 <= i <= n,
            n == players@.len(),
            players_view(players_positions@) == online_positions(players@.take(i as int)),
        decreases n - i,
    {
        let ghost before = players_positions@;
        assert(players@.take(i + 1).drop_last() =~= players@.take(i as int));
        if players[i].0.currently_online {
            players_positions.push((players[i].0.id, players[i].1.clone()));
            assert(players_view(players_positions@) =~= players_view(before).push((players@[i as int].0.id, players@[i as int].1@)));
        }
        i = i + 1;
    }
    assert(players@.take(n as int) =~= players@);
    players_positions
}

/// Whether a velocity is one step along exactly one axis.
pub open spec fn is_unit_step(v: (int, int)) -> bool {
    abs(v.0) + abs(v.1) == 1
}

proof fn lemma_steer_unit(m: PositionView, t: PositionView, coin: bool, die: u32, second_coin: bool)
    ensures
        is_unit_step(steer_velocity(m, t, coin, die, second_coin)),
{
}

/// Whatever it decides, a monster moves one step along exactly one axis per
/// tick: chasing, heading home and wandering alike.
pub proof fn law_monster_step_is_unit(
    target: Option<u128>,
    spawn: PositionView,
    position: PositionView,
    players: Seq<(u128, PositionView)>,
    coin: bool,
    die: u32,
    second_coin: bool,
    pick: u32,
)
    requires
        1 <= pick <= 4,
    ensures
        is_unit_step(monster_plan(target, spawn, position, players, coin, die, second_coin, pick).1),
{
    let nearby = nearby_players(players, position);
    if target is Some && position_of(nearby, target->0) is Some {
        lemma_steer_unit(position, position_of(nearby, target->0)->0, coin, die, second_coin);
    } else if outside_spawn_range(spawn, position) {
        lemma_steer_unit(position, spawn, coin, die, second_coin);
    } else if nearby.len() > 0 {
        let id = nearest_player_id(nearby, position);
        lemma_steer_unit(position, position_of(nearby, id)->0, coin, die, second_coin);
    }
}

/// The distance, in steps along the axes, between two positions.
pub open spec fn step_distance(a: PositionView, b: PositionView) -> int {
    abs(coord(a.pos_x) - coord(b.pos_x)) + abs(coord(a.pos_y) - coord(b.pos_y))
}

/// A monster one step from its target, in line with it, steps onto it.
pub proof fn law_adjacent_target_is_attacked(m: PositionView, t: PositionView, coin: bool, die: u32, second_coin: bool)
    requires
        step_distance(m, t) == 1,
    ensures
        coord(m.pos_x) + steer_velocity(m, t, coin, die, second_coin).0 == coord(t.pos_x),
        coord(m.pos_y) + steer_velocity(m, t, coin, die, second_coin).1 == coord(t.pos_y),
{
}

/// A chasing monster's step brings it one step closer to its target, unless
/// it is already there or, in line with a target further than one step away,
/// the die shows 1 and it sidesteps.
pub proof fn law_steering_closes_in(m: PositionView, t: PositionView, coin: bool, die: u32, second_coin: bool)
    requires
        step_distance(m, t) > 0,
        die > 1 || step_distance(m, t) == 1
            || (coord(m.pos_x) != coord(t.pos_x) && coord(m.pos_y) != coord(t.pos_y)),
    ensures
        ({
            let v = steer_velocity(m, t, coin, die, second_coin);
            abs(coord(m.pos_x) + v.0 - coord(t.pos_x)) + abs(coord(m.pos_y) + v.1 - coord(t.pos_y)) == step_distance(m, t) - 1
        }),
{
}

/// A monster notices exactly the players on its own map whose column and row
/// both lie from ten before to just short of ten past its own: every player
/// it notices is one of the players and lies in that window, and every player
/// in that window is noticed.
pub proof fn law_nearby_players_are_the_window(players: Seq<(u128, PositionView)>, m: PositionView)
    ensures
        forall|k: int| 0 <= k < nearby_players(players, m).len() ==> {
            let p = #[trigger] nearby_players(players, m)[k];
            &&& players.contains(p)
            &&& p.1.current_map == m.current_map
            &&& coord(m.pos_x) - MONSTER_DISTANCE_ACTIVATION <= coord(p.1.pos_x) < coord(m.pos_x) + MONSTER_DISTANCE_ACTIVATION
            &&& coord(m.pos_y) - MONSTER_DISTANCE_ACTIVATION <= coord(p.1.pos_y) < coord(m.pos_y) + MONSTER_DISTANCE_ACTIVATION
        },
        forall|j: int| 0 <= j < players.len() && (#[trigger] players[j]).1.current_map == m.current_map
            && coord(m.pos_x) - MONSTER_DISTANCE_ACTIVATION <= coord(players[j].1.pos_x) < coord(m.pos_x) + MONSTER_DISTANCE_ACTIVATION
            && coord(m.pos_y) - MONSTER_DISTANCE_ACTIVATION <= coord(players[j].1.pos_y) < coord(m.pos_y) + MONSTER_DISTANCE_ACTIVATION
            ==> nearby_players(players, m).contains(players[j]),
{
    broadcast use vstd::seq_lib::group_filter_ensures;
    broadcast use Seq::lemma_filter_contains_rev;
    assert forall|k: int| 0 <= k < nearby_players(players, m).len() implies players.contains(#[trigger] nearby_players(players, m)[k]) by {
        assert(nearby_players(players, m).contains(nearby_players(players, m)[k]));
    }
}

proof fn lemma_first_nearest_exists(players: Seq<(u128, PositionView)>, m: PositionView)
    requires
        players.len() > 0,
    ensures
        exists|k: int| is_first_nearest(players, m, k),
    decreases players.len(),
{
    if players.len() == 1 {
        assert(is_first_nearest(players, m, 0));
    } else {
        let init = players.drop_last();
        lemma_first_nearest_exists(init, m);
        let k0 = choose|k: int| is_first_nearest(init, m, k);
        let last = players.len() - 1;
        assert forall|j: int| 0 <= j < last implies #[trigger] players[j] == init[j] by {}
        if axis_distance(m, players[last].1) < axis_distance(m, players[k0].1) {
            assert(is_first_nearest(players, m, last));
        } else {
            assert(is_first_nearest(players, m, k0));
        }
    }
}

/// The target a monster picks among several nearby players is one of them,
/// and no nearby player is closer to the monster along the axis on which
/// each is closest: its smaller gap, across columns or across rows, is the
/// least of all. A player in line with the monster is never passed over for
/// one off both axes. Of several at the same least gap, the first listed is
/// picked.
pub proof fn law_nearest_target_is_closest(players: Seq<(u128, PositionView)>, m: PositionView)
    requires
        players.len() > 0,
    ensures
        exists|k: int| 0 <= k < players.len() && players[k].0 == nearest_player_id(players, m) && forall|j: int|
            0 <= j < players.len() ==> {
                let dxk = abs(coord(m.pos_x) - coord(players[k].1.pos_x));
                let dyk = abs(coord(m.pos_y) - coord(players[k].1.pos_y));
                let dxj = abs(coord(m.pos_x) - coord((#[trigger] players[j]).1.pos_x));
                let dyj = abs(coord(m.pos_y) - coord(players[j].1.pos_y));
                &&& (if dxk <= dyk { dxk } else { dyk }) <= (if dxj <= dyj { dxj } else { dyj })
                &&& j < k ==> (if dxk <= dyk { dxk } else { dyk }) < (if dxj <= dyj { dxj } else { dyj })
            },
{
    lemma_first_nearest_exists(players, m);
    let c = choose|k: int| is_first_nearest(players, m, k);
    assert(is_first_nearest(players, m, c));
    lemma_first_nearest_unique(players, m, c);
    assert forall|j: int| 0 <= j < players.len() implies {
        let dxk = abs(coord(m.pos_x) - coord(players[c].1.pos_x));
        let dyk = abs(coord(m.pos_y) - coord(players[c].1.pos_y));
        let dxj = abs(coord(m.pos_x) - coord((#[trigger] players[j]).1.pos_x));
        let dyj = abs(coord(m.pos_y) - coord(players[j].1.pos_y));
        &&& (if dxk <= dyk { dxk } else { dyk }) <= (if dxj <= dyj { dxj } else { dyj })
        &&& j < c ==> (if dxk <= dyk { dxk } else { dyk }) < (if dxj <= dyj { dxj } else { dyj })
    } by {
        assert(axis_distance(m, players[j].1) >= axis_distance(m, players[c].1));
    }
}

/// A monster whose target is still among the players near it keeps that
/// target and steps towards it, whether or not it has strayed from its
/// spawn; next to its target, the step lands on the target.
pub proof fn law_nearby_target_is_chased(
    target: u128,
    spawn: PositionView,
    position: PositionView,
    players: Seq<(u128, PositionView)>,
    coin: bool,
    die: u32,
    second_coin: bool,
    pick: u32,
)
    requires
        position_of(nearby_players(players, position), target) is Some,
    ensures
        ({
            let plan = monster_plan(Some(target), spawn, position, players, coin, die, second_coin, pick);
            let t = position_of(nearby_players(players, position), target)->0;
            &&& plan.0 == Some(target)
            &&& plan.1 == steer_velocity(position, t, coin, die, second_coin)
            &&& step_distance(position, t) == 1 ==> coord(position.pos_x) + plan.1.0 == coord(t.pos_x)
                && coord(position.pos_y) + plan.1.1 == coord(t.pos_y)
        }),
{
    let t = position_of(nearby_players(players, position), target)->0;
    if step_distance(position, t) == 1 {
        law_adjacent_target_is_attacked(position, t, coin, die, second_coin);
    }
}

} // verus!
