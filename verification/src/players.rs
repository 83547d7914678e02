use vstd::prelude::*;
use crate::components::{default_display, default_position, DisplayDetails, PlayerDetails, PlayerDetailsView, Position, PositionView};
use crate::random::new_entity_id;
use crate::exits::{exit_at_spot, exits_of, MapExitPositions};
use crate::keyed::{distinct_names, find_name, keyed_view, lemma_keyed_dom, lemma_keyed_lookup};
use crate::messages::{PositionMessage, Velocity};
use crate::search::{first_match, lemma_first_match_at, lemma_first_match_exists, lemma_first_match_found, lemma_first_match_none};

verus! {

/// The components of a player entity that the player requests read and
/// change: who the player is, how it is drawn, where it is, what it carries,
/// and whether its inventory changed since it was last sent.
pub struct PlayerEntity<I> {
    pub player_details: PlayerDetails,
    pub display_details: DisplayDetails,
    pub position: Position,
    pub carried: Vec<I>,
    pub inventory_updated: bool,
}

/// A player entity with its strings and lists as sequences.
pub struct PlayerEntityView<I> {
    pub details: PlayerDetailsView,
    pub display: DisplayDetails,
    pub position: PositionView,
    pub carried: Seq<I>,
    pub inventory_updated: bool,
}

impl<I> View for PlayerEntity<I> {
    type V = PlayerEntityView<I>;

    open spec fn view(&self) -> PlayerEntityView<I> {
        PlayerEntityView {
            details: self.player_details@,
            display: self.display_details,
            position: self.position@,
            carried: self.carried@,
            inventory_updated: self.inventory_updated,
        }
    }
}

pub open spec fn players_view<I>(players: Seq<PlayerEntity<I>>) -> Seq<PlayerEntityView<I>> {
    players.map_values(|p: PlayerEntity<I>| p@)
}

/// Whether a player goes by `name`.
pub open spec fn named<I>(name: Seq<char>) -> spec_fn(PlayerEntityView<I>) -> bool {
    |p: PlayerEntityView<I>| p.details.player_name == name
}

/// The index of the first player that goes by `name`, if any.
pub fn find_player_named<I>(players: &Vec<PlayerEntity<I>>, name: &String) -> (index: Option<usize>)
    ensures
        index matches Some(i) ==> i < players@.len() && players@[i as int].player_details.player_name@ == name@
            && first_match(players_view(players@), named::<I>(name@)) == Some(i as int),
        index is None ==> first_match(players_view(players@), named::<I>(name@)) is None,
{
    let n = players.len();
    let mut i: usize = 0;
    while i < n
        invariant
            0 <= i <= n,
            n == players@.len(),
            forall|j: int| 0 <= j < i ==> #[trigger] players@[j].player_details.player_name@ != name@,
        decreases n - i,
    {
        if players[i].player_details.player_name == *name {
            proof {
                let v = players_view(players@);
                assert forall|j: int| 0 <= j < i implies !named::<I>(name@)(#[trigger] v[j]) by {
                    assert(v[j] == players@[j]@);
                }
                lemma_first_match_at(v, named::<I>(name@), i as int);
            }
            return Some(i);
        }
        i = i + 1;
    }
    proof {
        let v = players_view(players@);
        assert forall|j: int| 0 <= j < v.len() implies !named::<I>(name@)(#[trigger] v[j]) by {
            assert(v[j] == players@[j]@);
        }
        lemma_first_match_none(v, named::<I>(name@));
    }
    None
}

/// Which way a join request went.
#[derive(Clone, Copy, Debug, PartialEq, Eq, Structural)]
pub enum JoinOutcome {
    /// The offline player at this index came back online.
    Rejoined(usize),
    /// The player at this index is already online; nothing changed.
    AlreadyOnline(usize),
    /// No player had the name: a new one was created, the last in the list.
    CreateNew,
}

/// A player back online at `client_addr`, visible and blocking again.
pub open spec fn rejoined<I>(p: PlayerEntityView<I>, client_addr: Seq<char>) -> PlayerEntityView<I> {
    PlayerEntityView {
        details: PlayerDetailsView { currently_online: true, client_addr, ..p.details },
        display: DisplayDetails { collidable: true, visible: true, ..p.display },
        ..p
    }
}

/// What a join request for `name` from `client_addr` does to the players,
/// given which way it went.
pub open spec fn join_result<I>(
    before: Seq<PlayerEntity<I>>,
    after: Seq<PlayerEntity<I>>,
    name: Seq<char>,
    client_addr: Seq<char>,
    outcome: JoinOutcome,
) -> bool {
    match outcome {
        JoinOutcome::Rejoined(i) => {
            &&& first_match(players_view(before), named::<I>(name)) == Some(i as int)
            &&& i < before.len()
            &&& !before[i as int].player_details.currently_online
            &&& players_view(after) == players_view(before).update(i as int, rejoined(before[i as int]@, client_addr))
        },
        JoinOutcome::AlreadyOnline(i) => {
            &&& first_match(players_view(before), named::<I>(name)) == Some(i as int)
            &&& i < before.len()
            &&& before[i as int].player_details.currently_online
            &&& players_view(after) == players_view(before)
        },
        JoinOutcome::CreateNew => {
            &&& first_match(players_view(before), named::<I>(name)) is None
            &&& players_view(after).len() == before.len() + 1
            &&& players_view(after).drop_last() == players_view(before)
            &&& is_new_player(players_view(after).last(), name, client_addr)
        },
    }
}

/// Whether `p` is a newly created player called `name`, online from
/// `client_addr`, drawn and placed as new players are, carrying nothing.
pub open spec fn is_new_player<I>(p: PlayerEntityView<I>, name: Seq<char>, client_addr: Seq<char>) -> bool {
    &&& p.details.player_name == name
    &&& p.details.client_addr == client_addr
    &&& p.details.currently_online
    &&& p.display == default_display()
    &&& p.position == default_position()
    &&& p.carried == Seq::<I>::empty()
    &&& !p.inventory_updated
}

/// A join request for `name` from `client_addr`: the first player with that
/// name comes back online from that address if it was offline; if it is
/// online already, nothing changes; with no such player a new one is created
/// under a fresh random id, online from that address, drawn and placed as new
/// players are, carrying nothing, and added at the end.
pub fn join_player<I>(players: &mut Vec<PlayerEntity<I>>, name: &String, client_addr: &String) -> (outcome: JoinOutcome)
    ensures
        join_result(old(players)@, final(players)@, name@, client_addr@, outcome),
{
    match find_player_named(players, name) {
        None => {
            create_player(players, name, client_addr);
            JoinOutcome::CreateNew
        },
        Some(i) => {
            if players[i].player_details.currently_online {
                JoinOutcome::AlreadyOnline(i)
            } else {
                let ghost before = players@;
                let mut player = players.remove(i);
                player.player_details.currently_online = true;
                player.player_details.client_addr = client_addr.clone();
                player.display_details.collidable = true;
                player.display_details.visible = true;
                players.insert(i, player);
                assert(players@ =~= before.update(i as int, player));
                assert(players_view(players@) =~= players_view(before).update(i as int, rejoined(before[i as int]@, client_addr@)));
                JoinOutcome::Rejoined(i)
            }
        },
    }
}

/// Adds a new player called `name` at the end: online from `client_addr`
/// under a fresh random id, drawn and placed as new players are, carrying
/// nothing.
pub fn create_player<I>(players: &mut Vec<PlayerEntity<I>>, name: &String, client_addr: &String)
    ensures
        players_view(final(players)@).len() == old(players)@.len() + 1,
        players_view(final(players)@).drop_last() == players_view(old(players)@),
        is_new_player(players_view(final(players)@).last(), name@, client_addr@),
{
    let ghost before = players@;
    let player = PlayerEntity {
        player_details: create_player_details(name, client_addr.clone()),
        display_details: DisplayDetails::default(),
        position: Position::default(),
        carried: Vec::new(),
        inventory_updated: false,
    };
    players.push(player);
    assert(players_view(players@).drop_last() =~= players_view(before));
}

/// The details of a new player called `name`, online from `client_addr`,
/// under a fresh random id.
pub fn create_player_details(name: &String, client_addr: String) -> (details: PlayerDetails)
    ensures
        details.player_name@ == name@,
        details.client_addr@ == client_addr@,
        details.currently_online,
{
    PlayerDetails { id: new_entity_id(), player_name: name.clone(), client_addr, currently_online: true }
}

/// Whether a player's client connects from `address`.
pub open spec fn at_address<I>(address: Seq<char>) -> spec_fn(PlayerEntityView<I>) -> bool {
    |p: PlayerEntityView<I>| p.details.client_addr == address
}

/// Whether a player goes by `name` and its client connects from `address`.
pub open spec fn at_address_named<I>(address: Seq<char>, name: Seq<char>) -> spec_fn(PlayerEntityView<I>) -> bool {
    |p: PlayerEntityView<I>| p.details.client_addr == address && p.details.player_name == name
}

/// A player gone offline: no address, invisible and passable.
pub open spec fn logged_out<I>(p: PlayerEntityView<I>) -> PlayerEntityView<I> {
    PlayerEntityView {
        details: PlayerDetailsView { currently_online: false, client_addr: Seq::empty(), ..p.details },
        display: DisplayDetails { visible: false, collidable: false, ..p.display },
        ..p
    }
}

/// What logging the player matched by `which` out does: the first such
/// player goes offline and its id and map are returned; with no such player
/// nothing changes and the map is empty (the id is then a fresh random one).
pub open spec fn logs_out_first<I>(
    before: Seq<PlayerEntity<I>>,
    after: Seq<PlayerEntity<I>>,
    which: spec_fn(PlayerEntityView<I>) -> bool,
    result: (u128, String),
) -> bool {
    match first_match(players_view(before), which) {
        Some(i) => {
            &&& 0 <= i < before.len()
            &&& result.0 == before[i].player_details.id
            &&& result.1@ == before[i].position.current_map@
            &&& players_view(after) == players_view(before).update(i, logged_out(before[i]@))
        },
        None => {
            &&& result.1@ == Seq::<char>::empty()
            &&& players_view(after) == players_view(before)
        },
    }
}

fn log_out_at<I>(players: &mut Vec<PlayerEntity<I>>, i: usize) -> (result: (u128, String))
    requires
        i < old(players)@.len(),
    ensures
        result.0 == old(players)@[i as int].player_details.id,
        result.1@ == old(players)@[i as int].position.current_map@,
        players_view(final(players)@) == players_view(old(players)@).update(i as int, logged_out(old(players)@[i as int]@)),
{
    let ghost before = players@;
    let mut player = players.remove(i);
    let id = player.player_details.id;
    let map = player.position.current_map.clone();
    player.display_details.visible = false;
    player.display_details.collidable = false;
    player.player_details.currently_online = false;
    player.player_details.client_addr = String::new();
    players.insert(i, player);
    assert(players@ =~= before.update(i as int, player));
    assert(players_view(players@) =~= players_view(before).update(i as int, logged_out(before[i as int]@)));
    (id, map)
}

/// A logout request from `address` for `originating_player_name`: the first
/// player with that name at that address goes offline, invisible and
/// passable, and its id and map are returned for the logout broadcast.
pub fn set_player_logged_out<I>(players: &mut Vec<PlayerEntity<I>>, address: &String, originating_player_name: &String) -> (result: (u128, String))
    ensures
        logs_out_first(old(players)@, final(players)@, at_address_named::<I>(address@, originating_player_name@), result),
{
    let n = players.len();
    let mut i: usize = 0;
    while i < n
        invariant
            0 <= i <= n,
            n == players@.len(),
            players@ == old(players)@,
            forall|j: int| 0 <= j < i ==> !at_address_named::<I>(address@, originating_player_name@)(#[trigger] players_view(players@)[j]),
        decreases n - i,
    {
        if players[i].player_details.client_addr == *address
            && players[i].player_details.player_name == *originating_player_name {
            proof {
                lemma_first_match_at(players_view(players@), at_address_named::<I>(address@, originating_player_name@), i as int);
            }
            return log_out_at(players, i);
        }
        i = i + 1;
    }
    proof {
        lemma_first_match_none(players_view(players@), at_address_named::<I>(address@, originating_player_name@));
    }
    (new_entity_id(), String::new())
}

/// A client at `address` timed out: the first player at that address goes
/// offline, invisible and passable, and its id and map are returned for the
/// logout broadcast.
pub fn set_player_disconnected<I>(players: &mut Vec<PlayerEntity<I>>, address: &String) -> (result: (u128, String))
    ensures
        logs_out_first(old(players)@, final(players)@, at_address::<I>(address@), result),
{
    let n = players.len();
    let mut i: usize = 0;
    while i < n
        invariant
            0 <= i <= n,
            n == players@.len(),
            players@ == old(players)@,
            forall|j: int| 0 <= j < i ==> !at_address::<I>(address@)(#[trigger] players_view(players@)[j]),
        decreases n - i,
    {
        if players[i].player_details.client_addr == *address {
            proof {
                lemma_first_match_at(players_view(players@), at_address::<I>(address@), i as int);
            }
            return log_out_at(players, i);
        }
        i = i + 1;
    }
    proof {
        lemma_first_match_none(players_view(players@), at_address::<I>(address@));
    }
    (new_entity_id(), String::new())
}

/// The addresses that a logout on `map` is announced to: those of the online
/// players on that map, in order.
pub open spec fn logout_recipients<I>(players: Seq<PlayerEntityView<I>>, map: Seq<char>) -> Seq<Seq<char>>
    decreases players.len(),
{
    if players.len() == 0 {
        Seq::empty()
    } else {
        let rest = logout_recipients(players.drop_last(), map);
        let p = players.last();
        if p.details.currently_online && p.position.current_map == map {
            rest.push(p.details.client_addr)
        } else {
            rest
        }
    }
}

pub open spec fn addresses_view(addresses: Seq<String>) -> Seq<Seq<char>> {
    addresses.map_values(|a: String| a@)
}

/// The client addresses that a player logging out from
/// `logged_out_player_map` is announced to: every online player on that map.
pub fn broadcast_player_logged_out<I>(players: &Vec<PlayerEntity<I>>, logged_out_player_map: &String) -> (recipients: Vec<String>)
    ensures
        addresses_view(recipients@) == logout_recipients(players_view(players@), logged_out_player_map@),
{
    let mut recipients: Vec<String> = Vec::new();
    let n = players.len();
    let mut i: usize = 0;
    while i < n
        invariant
            0 <= i <= n,
            n == players@.len(),
            addresses_view(recipients@) == logout_recipients(players_view(players@).take(i as int), logged_out_player_map@),
        decreases n - i,
    {
        let ghost before = recipients@;
        let player = &players[i];
        if player.player_details.currently_online && player.position.current_map == *logged_out_player_map {
            recipients.push(player.player_details.client_addr.clone());
            assert(addresses_view(recipients@) =~= addresses_view(before).push(player.player_details.client_addr@));
        }
        assert(players_view(players@).take(i + 1).drop_last() =~= players_view(players@).take(i as int));
        i = i + 1;
    }
    assert(players_view(players@).take(n as int) =~= players_view(players@));
    recipients
}

/// A player marked offline with no address; how it is drawn is unchanged.
pub open spec fn marked_offline<I>(p: PlayerEntityView<I>) -> PlayerEntityView<I> {
    PlayerEntityView { details: PlayerDetailsView { currently_online: false, client_addr: Seq::empty(), ..p.details }, ..p }
}

/// Marks every player offline, with no address.
pub fn logout_all_players<I>(players: &mut Vec<PlayerEntity<I>>)
    ensures
        players_view(final(players)@) == players_view(old(players)@).map_values(|p: PlayerEntityView<I>| marked_offline(p)),
{
    let ghost initial = players_view(players@);
    let n = players.len();
    let mut i: usize = 0;
    while i < n
        invariant
            0 <= i <= n,
            n == players@.len(),
            initial.len() == n,
            forall|j: int| 0 <= j < i ==> #[trigger] players_view(players@)[j] == marked_offline(initial[j]),
            forall|j: int| i <= j < n ==> #[trigger] players_view(players@)[j] == initial[j],
        decreases n - i,
    {
        let ghost before = players@;
        assert(players_view(before)[i as int] == initial[i as int]);
        let mut player = players.remove(i);
        player.player_details.currently_online = false;
        player.player_details.client_addr = String::new();
        assert(player@ == marked_offline(initial[i as int]));
        players.insert(i, player);
        assert(players@ =~= before.update(i as int, player));
        assert(players_view(players@) =~= players_view(before).update(i as int, player@));
        i = i + 1;
    }
    assert(players_view(players@) =~= initial.map_values(|p: PlayerEntityView<I>| marked_offline(p)));
}

/// A player whose next step is the velocity of `position`.
pub open spec fn with_velocity_of<I>(p: PlayerEntityView<I>, position: PositionView) -> PlayerEntityView<I> {
    PlayerEntityView {
        position: PositionView { velocity_x: position.velocity_x, velocity_y: position.velocity_y, ..p.position },
        ..p
    }
}

/// What setting velocities from a message does: every player with the
/// message's name takes the message's velocity, the others stay as they are.
pub open spec fn velocity_result<I>(before: Seq<PlayerEntity<I>>, after: Seq<PlayerEntity<I>>, position_message: PositionMessage) -> bool {
    &&& players_view(after).len() == before.len()
    &&& forall|j: int| 0 <= j < before.len() ==> #[trigger] players_view(after)[j] == (
        if before[j].player_details.player_name@ == position_message.player_name@ {
            with_velocity_of(before[j]@, position_message.position@)
        } else {
            before[j]@
        })
}

/// Sets the next step of every player named in the message to the velocity
/// the message carries.
pub fn set_player_velocity<I>(players: &mut Vec<PlayerEntity<I>>, position_message: &PositionMessage)
    ensures
        velocity_result(old(players)@, final(players)@, *position_message),
{
    let ghost initial = players@;
    let n = players.len();
    let mut i: usize = 0;
    while i < n
        invariant
            0 <= i <= n,
            n == players@.len(),
            initial.len() == n,
            forall|j: int| 0 <= j < i ==> #[trigger] players_view(players@)[j] == (
                if initial[j].player_details.player_name@ == position_message.player_name@ {
                    with_velocity_of(initial[j]@, position_message.position@)
                } else {
                    initial[j]@
                }),
            forall|j: int| i <= j < n ==> #[trigger] players@[j] == initial[j],
            forall|j: int| i <= j < n ==> #[trigger] players_view(players@)[j] == initial[j]@,
        decreases n - i,
    {
        if players[i].player_details.player_name == position_message.player_name {
            let ghost before = players@;
            let mut player = players.remove(i);
            player.position.velocity_x = position_message.position.velocity_x;
            player.position.velocity_y = position_message.position.velocity_y;
            players.insert(i, player);
            assert(players@ =~= before.update(i as int, player));
            assert(players_view(players@) =~= players_view(before).update(i as int, player@));
        }
        i = i + 1;
    }
}

/// Whether a player goes by `name` and is online.
pub open spec fn named_online<I>(name: Seq<char>) -> spec_fn(PlayerEntityView<I>) -> bool {
    |p: PlayerEntityView<I>| p.details.player_name == name && p.details.currently_online
}

/// A player moved through `exit`: onto its target map and spot, at rest, with
/// the new position to be sent.
pub open spec fn moved_through<I>(p: PlayerEntityView<I>, exit: MapExitPositions) -> PlayerEntityView<I> {
    PlayerEntityView {
        position: PositionView {
            current_map: exit.new_map@,
            pos_x: exit.new_x,
            pos_y: exit.new_y,
            velocity_x: 0,
            velocity_y: 0,
            update_available: true,
        },
        ..p
    }
}

/// Which way a change-map request went.
#[derive(Clone, Copy, Debug, PartialEq, Eq, Structural)]
pub enum ChangeMapOutcome {
    /// No online player has the name in the request; nothing changed.
    NoSuchPlayer,
    /// The player at this index stands on no exit; nothing changed.
    NoExitHere(usize),
    /// The player at this index went through an exit.
    ChangedMap(usize),
}

/// The exits of `map` in `all_map_exits`, or none when it lists no such map.
fn exits_for<'a>(all_map_exits: &'a Vec<(String, Vec<MapExitPositions>)>, map: &String) -> (exits: Option<&'a Vec<MapExitPositions>>)
    requires
        distinct_names(all_map_exits@),
    ensures
        exits matches Some(e) ==> e@ == exits_of(all_map_exits@, map@),
        exits is None ==> exits_of(all_map_exits@, map@) == Seq::<MapExitPositions>::empty(),
{
    match find_name(all_map_exits, map) {
        Some(k) => {
            proof {
                lemma_keyed_lookup(all_map_exits@, k as int);
            }
            Some(&all_map_exits[k].1)
        },
        None => {
            proof {
                lemma_keyed_dom(all_map_exits@, map@);
            }
            None
        },
    }
}

/// The index of the first exit on column `x`, row `y`, if any.
fn find_exit(exits: &Vec<MapExitPositions>, x: u32, y: u32) -> (index: Option<usize>)
    ensures
        index matches Some(e) ==> e < exits@.len() && first_match(exits@, exit_at_spot(x, y)) == Some(e as int),
        index is None ==> first_match(exits@, exit_at_spot(x, y)) is None,
{
    let n = exits.len();
    let mut e: usize = 0;
    while e < n
        invariant
            0 <= e <= n,
            n == exits@.len(),
            forall|j: int| 0 <= j < e ==> !exit_at_spot(x, y)(#[trigger] exits@[j]),
        decreases n - e,
    {
        if exits[e].x == x && exits[e].y == y {
            proof {
                lemma_first_match_at(exits@, exit_at_spot(x, y), e as int);
            }
            return Some(e);
        }
        e = e + 1;
    }
    proof {
        lemma_first_match_none(exits@, exit_at_spot(x, y));
    }
    None
}

/// What a change-map request does, given which way it went.
pub open spec fn change_map_result<I>(
    before: Seq<PlayerEntity<I>>,
    after: Seq<PlayerEntity<I>>,
    all_map_exits: Seq<(String, Vec<MapExitPositions>)>,
    position_message: PositionMessage,
    outcome: ChangeMapOutcome,
) -> bool {
    let exits = exits_of(all_map_exits, position_message.position.current_map@);
    let spot = exit_at_spot(position_message.position.pos_x, position_message.position.pos_y);
    match first_match(players_view(before), named_online::<I>(position_message.player_name@)) {
        None => outcome == ChangeMapOutcome::NoSuchPlayer && players_view(after) == players_view(before),
        Some(i) => match first_match(exits, spot) {
            None => outcome == ChangeMapOutcome::NoExitHere(i as usize) && 0 <= i < before.len()
                && players_view(after) == players_view(before),
            Some(e) => outcome == ChangeMapOutcome::ChangedMap(i as usize) && 0 <= i < before.len() && 0 <= e < exits.len()
                && players_view(after) == players_view(before).update(i, moved_through(before[i]@, exits[e])),
        },
    }
}

/// A request to go through the exit at the spot the message names, on the
/// map the message names. The first online player with the message's name,
/// if the map has an exit there (the first one listed), is moved onto that
/// exit's target map and spot, at rest, with the new position to be sent.
pub fn change_map_request<I>(
    players: &mut Vec<PlayerEntity<I>>,
    all_map_exits: &Vec<(String, Vec<MapExitPositions>)>,
    position_message: &PositionMessage,
) -> (outcome: ChangeMapOutcome)
    requires
        distinct_names(all_map_exits@),
    ensures
        change_map_result(old(players)@, final(players)@, all_map_exits@, *position_message, outcome),
{
    let n = players.len();
    let mut i: usize = 0;
    while i < n
        invariant
            0 <= i <= n,
            n == players@.len(),
            players@ == old(players)@,
            distinct_names(all_map_exits@),
            forall|j: int| 0 <= j < i ==> !named_online::<I>(position_message.player_name@)(#[trigger] players_view(players@)[j]),
        decreases n - i,
    {
        if players[i].player_details.player_name == position_message.player_name && players[i].player_details.currently_online {
            proof {
                lemma_first_match_at(players_view(players@), named_online::<I>(position_message.player_name@), i as int);
            }
            let x = position_message.position.pos_x;
            let y = position_message.position.pos_y;
            let exit_index = match exits_for(all_map_exits, &position_message.position.current_map) {
                Some(exits) => match find_exit(exits, x, y) {
                    Some(e) => Some((exits, e)),
                    None => None,
                },
                None => {
                    proof {
                        lemma_first_match_none(exits_of(all_map_exits@, position_message.position.current_map@), exit_at_spot(x, y));
                    }
                    None
                },
            };
            match exit_index {
                Some((exits, e)) => {
                    let exit = &exits[e];
                    let ghost before = players@;
                    let mut player = players.remove(i);
                    player.position.current_map = exit.new_map.clone();
                    player.position.pos_x = exit.new_x;
                    player.position.pos_y = exit.new_y;
                    player.position.velocity_x = 0;
                    player.position.velocity_y = 0;
                    player.position.update_available = true;
                    players.insert(i, player);
                    assert(players@ =~= before.update(i as int, player));
                    assert(players_view(players@) =~= players_view(before).update(i as int, moved_through(before[i as int]@, exits@[e as int])));
                    return ChangeMapOutcome::ChangedMap(i);
                },
                None => {
                    return ChangeMapOutcome::NoExitHere(i);
                },
            }
        }
        i = i + 1;
    }
    proof {
        lemma_first_match_none(players_view(players@), named_online::<I>(position_message.player_name@));
    }
    ChangeMapOutcome::NoSuchPlayer
}

/// A player changes map only by standing on an exit of the map it names:
/// the exit lies on exactly the message's column and row, and the player
/// lands on that exit's target map, column and row; of several exits on the
/// spot, the first listed is taken. When the request finds
/// the player but no exit on that very spot, the player stays where it was.
pub proof fn law_exit_is_taken_only_on_its_spot<I>(
    before: Seq<PlayerEntity<I>>,
    after: Seq<PlayerEntity<I>>,
    all_map_exits: Seq<(String, Vec<MapExitPositions>)>,
    position_message: PositionMessage,
    outcome: ChangeMapOutcome,
)
    requires
        change_map_result(before, after, all_map_exits, position_message, outcome),
        before.len() <= usize::MAX,
    ensures
        ({
            let exits = exits_of(all_map_exits, position_message.position.current_map@);
            &&& outcome matches ChangeMapOutcome::ChangedMap(i) ==> i < before.len() && i < after.len()
                && exists|e: int| 0 <= e < exits.len() && {
                    &&& (#[trigger] exits[e]).x == position_message.position.pos_x
                    &&& exits[e].y == position_message.position.pos_y
                    &&& after[i as int].position.current_map@ == exits[e].new_map@
                    &&& after[i as int].position.pos_x == exits[e].new_x
                    &&& after[i as int].position.pos_y == exits[e].new_y
                    &&& forall|j: int| 0 <= j < e ==> !({
                        &&& (#[trigger] exits[j]).x == position_message.position.pos_x
                        &&& exits[j].y == position_message.position.pos_y
                    })
                }
            &&& outcome matches ChangeMapOutcome::NoExitHere(i) ==> i < before.len() && i < after.len()
                && after[i as int].position@ == before[i as int].position@
                && forall|e: int| 0 <= e < exits.len() ==> !({
                    &&& (#[trigger] exits[e]).x == position_message.position.pos_x
                    &&& exits[e].y == position_message.position.pos_y
                })
        }),
{
    let exits = exits_of(all_map_exits, position_message.position.current_map@);
    let spot = exit_at_spot(position_message.position.pos_x, position_message.position.pos_y);
    let vb = players_view(before);
    let va = players_view(after);
    match first_match(vb, named_online::<I>(position_message.player_name@)) {
        None => {},
        Some(i) => {
            match first_match(exits, spot) {
                None => {
                    assert(va.len() == vb.len());
                    assert(va[i] == after[i]@ && vb[i] == before[i]@);
                    assert forall|e: int| 0 <= e < exits.len() implies !({
                        &&& (#[trigger] exits[e]).x == position_message.position.pos_x
                        &&& exits[e].y == position_message.position.pos_y
                    }) by {
                        if spot(exits[e]) {
                            lemma_first_match_exists(exits, spot, e);
                        }
                    }
                },
                Some(e) => {
                    lemma_first_match_found(exits, spot);
                    assert(va.len() == vb.len());
                    assert(va[i] == after[i]@);
                    assert(va[i] == moved_through(vb[i], exits[e]));
                    assert(spot(exits[e]));
                    assert forall|j: int| 0 <= j < e implies !({
                        &&& (#[trigger] exits[j]).x == position_message.position.pos_x
                        &&& exits[j].y == position_message.position.pos_y
                    }) by {
                        assert(!spot(exits[j]));
                    }
                },
            }
        },
    }
}

/// Whether no two players share a name.
pub open spec fn distinct_player_names<I>(players: Seq<PlayerEntityView<I>>) -> bool {
    forall|a: int, b: int|
        0 <= a < players.len() && 0 <= b < players.len() && a != b ==> #[trigger] players[a].details.player_name
            != #[trigger] players[b].details.player_name
}

/// A player who logged out and then joins again under the same name, from any
/// address, is the same player back online from the new address, visible and
/// blocking again, where it was and with what it carried; nobody else changes.
pub proof fn law_logout_then_rejoin<I>(
    before: Seq<PlayerEntity<I>>,
    logged_out_players: Seq<PlayerEntity<I>>,
    rejoined_players: Seq<PlayerEntity<I>>,
    address: Seq<char>,
    name: Seq<char>,
    new_address: Seq<char>,
    result: (u128, String),
    outcome: JoinOutcome,
)
    requires
        distinct_player_names(players_view(before)),
        first_match(players_view(before), at_address_named::<I>(address, name)) is Some,
        logs_out_first(before, logged_out_players, at_address_named::<I>(address, name), result),
        join_result(logged_out_players, rejoined_players, name, new_address, outcome),
    ensures
        ({
            let i = first_match(players_view(before), at_address_named::<I>(address, name))->0;
            let was = players_view(before)[i];
            &&& outcome == JoinOutcome::Rejoined(i as usize)
            &&& players_view(rejoined_players) == players_view(before).update(i, PlayerEntityView {
                details: PlayerDetailsView { currently_online: true, client_addr: new_address, ..was.details },
                display: DisplayDetails { visible: true, collidable: true, ..was.display },
                ..was
            })
        }),
{
    let v = players_view(before);
    let i = first_match(v, at_address_named::<I>(address, name))->0;
    lemma_first_match_found(v, at_address_named::<I>(address, name));
    let w = players_view(logged_out_players);
    assert(w == v.update(i, logged_out(before[i]@)));
    assert forall|j: int| 0 <= j < i implies !named::<I>(name)(#[trigger] w[j]) by {
        assert(w[j] == v[j]);
        assert(v[j].details.player_name != v[i].details.player_name);
    }
    assert(named::<I>(name)(w[i]));
    lemma_first_match_at(w, named::<I>(name), i);
    assert(w[i] == logged_out_players[i]@);
    assert(players_view(rejoined_players) =~= v.update(i, PlayerEntityView {
        details: PlayerDetailsView { currently_online: true, client_addr: new_address, ..v[i].details },
        display: DisplayDetails { visible: true, collidable: true, ..v[i].display },
        ..v[i]
    }));
}

/// The velocity the last of `updates` named `name` asks for, if any.
pub open spec fn last_update_for(updates: Seq<(String, Velocity)>, name: Seq<char>) -> Option<Velocity>
    decreases updates.len(),
{
    if updates.len() == 0 {
        None
    } else if updates.last().0@ == name {
        Some(updates.last().1)
    } else {
        last_update_for(updates.drop_last(), name)
    }
}

/// Gives a player the velocity of the last update sent under its name; with
/// none, its velocity stays.
pub fn update_player_input(player_details: &PlayerDetails, velocity: &mut Velocity, player_updates: &Vec<(String, Velocity)>)
    ensures
        *final(velocity) == match last_update_for(player_updates@, player_details.player_name@) {
            Some(v) => v,
            None => *old(velocity),
        },
{
    let ghost initial = *velocity;
    let n = player_updates.len();
    let mut i: usize = 0;
    while i < n
        invariant
            0 <= i <= n,
            n == player_updates@.len(),
            *velocity == match last_update_for(player_updates@.take(i as int), player_details.player_name@) {
                Some(v) => v,
                None => initial,
            },
        decreases n - i,
    {
        assert(player_updates@.take(i + 1).drop_last() =~= player_updates@.take(i as int));
        if player_updates[i].0 == player_details.player_name {
            velocity.x = player_updates[i].1.x;
            velocity.y = player_updates[i].1.y;
        }
        i = i + 1;
    }
    assert(player_updates@.take(n as int) =~= player_updates@);
}

} // verus!
