use vstd::prelude::*;
use crate::exits::MapExitPositions;
use crate::inventory::{drop_index_valid, drop_item, drop_result, items_view, pickup_item, pickup_result, DropOutcome, ItemEntity, Pickup};
use crate::keyed::distinct_names;
use crate::messages::PlayerRequest;
use crate::players::{
    addresses_view, at_address, at_address_named, broadcast_player_logged_out, change_map_request, change_map_result,
    join_player, join_result, logout_recipients, logs_out_first, players_view,
    set_player_disconnected, set_player_logged_out, set_player_velocity, velocity_result, ChangeMapOutcome,
    distinct_player_names, named, JoinOutcome, PlayerEntity, PlayerEntityView,
};
use crate::search::{first_match, lemma_first_match_exists};

verus! {

/// The player and item entities that player requests act on.
pub struct GameWorld<I> {
    pub players: Vec<PlayerEntity<I>>,
    pub items: Vec<ItemEntity<I>>,
}

/// What handling a request did, and what is left to the caller.
pub enum RequestOutcome<I> {
    /// A join request went this way; a created player is the last one.
    Joined(JoinOutcome),
    /// Velocities were set.
    VelocityUpdated,
    /// A pickup request found this.
    PickedUp(Pickup),
    /// A drop request went this way.
    Dropped(DropOutcome<I>),
    /// A change-map request went this way.
    MapChanged(ChangeMapOutcome),
    /// The player named second asks to raise the stat named first; stats are
    /// the caller's.
    StatIncrease(String, String),
    /// A player went offline: its id and map, and the addresses to tell.
    LoggedOut(u128, String, Vec<String>),
    /// A request the world does not act on.
    Unknown,
}

/// What handling `request` does to the world, given what came of it.
pub open spec fn request_result<I: Clone>(
    before: GameWorld<I>,
    after: GameWorld<I>,
    all_map_exits: Seq<(String, Vec<MapExitPositions>)>,
    request: PlayerRequest,
    outcome: RequestOutcome<I>,
) -> bool {
    let items_kept = items_view(after.items@) == items_view(before.items@);
    match request {
        PlayerRequest::PlayerJoin(client) => outcome matches RequestOutcome::Joined(j) && items_kept
            && join_result(before.players@, after.players@, client.player_name@, client.client_addr@, j),
        PlayerRequest::UpdateVelocity(message) => outcome is VelocityUpdated && items_kept
            && velocity_result(before.players@, after.players@, message),
        PlayerRequest::PickupItem(message) => outcome matches RequestOutcome::PickedUp(p)
            && pickup_result(before.items@, after.items@, before.players@, after.players@, message, p),
        PlayerRequest::DropItem((index, message)) => outcome matches RequestOutcome::Dropped(d) && items_kept
            && drop_result(before.players@, after.players@, index, message, d),
        PlayerRequest::ChangeMap(message) => outcome matches RequestOutcome::MapChanged(c) && items_kept
            && change_map_result(before.players@, after.players@, all_map_exits, message, c),
        PlayerRequest::StatUp((stat, name)) => outcome matches RequestOutcome::StatIncrease(s, n) && s@ == stat@ && n@ == name@
            && items_kept && players_view(after.players@) == players_view(before.players@),
        PlayerRequest::PlayerLogout(client) => outcome matches RequestOutcome::LoggedOut(id, map, recipients) && items_kept
            && logs_out_first(before.players@, after.players@, at_address_named::<I>(client.client_addr@, client.player_name@), (id, map))
            && addresses_view(recipients@) == logout_recipients(players_view(after.players@), map@),
        PlayerRequest::Timeout(address) => outcome matches RequestOutcome::LoggedOut(id, map, recipients) && items_kept
            && logs_out_first(before.players@, after.players@, at_address::<I>(address@), (id, map))
            && addresses_view(recipients@) == logout_recipients(players_view(after.players@), map@),
        _ => outcome is Unknown && items_kept && players_view(after.players@) == players_view(before.players@),
    }
}

/// Whether a request can be handled without failing: a drop request must name
/// an item the player carries, if it carries any.
pub open spec fn request_valid<I>(players: Seq<PlayerEntity<I>>, request: PlayerRequest) -> bool {
    match request {
        PlayerRequest::DropItem((index, message)) => drop_index_valid(players, message.player_name@, index),
        _ => true,
    }
}

/// Handles one request from a client on the world: joining, setting the next
/// step, picking up, dropping, changing map, logging out and timing out act
/// on the entities; raising a stat is handed back; anything else is ignored.
pub fn match_received_message<I: Clone>(
    world: &mut GameWorld<I>,
    all_map_exits: &Vec<(String, Vec<MapExitPositions>)>,
    request: PlayerRequest,
) -> (outcome: RequestOutcome<I>)
    requires
        distinct_names(all_map_exits@),
        request_valid(old(world).players@, request),
    ensures
        request_result(*old(world), *final(world), all_map_exits@, request, outcome),
{
    match request {
        PlayerRequest::PlayerJoin(client_details) => {
            RequestOutcome::Joined(join_player(&mut world.players, &client_details.player_name, &client_details.client_addr))
        },
        PlayerRequest::UpdateVelocity(position_message) => {
            set_player_velocity(&mut world.players, &position_message);
            RequestOutcome::VelocityUpdated
        },
        PlayerRequest::PickupItem(position_message) => {
            RequestOutcome::PickedUp(pickup_item(&mut world.items, &mut world.players, &position_message))
        },
        PlayerRequest::DropItem((item_index, position_message)) => {
            RequestOutcome::Dropped(drop_item(&mut world.players, item_index, &position_message))
        },
        PlayerRequest::ChangeMap(position_message) => {
            RequestOutcome::MapChanged(change_map_request(&mut world.players, all_map_exits, &position_message))
        },
        PlayerRequest::StatUp((stat, player_name)) => RequestOutcome::StatIncrease(stat, player_name),
        PlayerRequest::PlayerLogout(client_details) => {
            let (id, map) = set_player_logged_out(&mut world.players, &client_details.client_addr, &client_details.player_name);
            let recipients = broadcast_player_logged_out(&world.players, &map);
            RequestOutcome::LoggedOut(id, map, recipients)
        },
        PlayerRequest::Timeout(address) => {
            let (id, map) = set_player_disconnected(&mut world.players, &address);
            let recipients = broadcast_player_logged_out(&world.players, &map);
            RequestOutcome::LoggedOut(id, map, recipients)
        },
        _ => RequestOutcome::Unknown,
    }
}

/// Joining never gives two players the same name: a player is created only
/// under a name no player has, and a returning player keeps its name.
pub proof fn law_join_keeps_names_distinct<I: Clone>(
    before: GameWorld<I>,
    after: GameWorld<I>,
    all_map_exits: Seq<(String, Vec<MapExitPositions>)>,
    request: PlayerRequest,
    outcome: RequestOutcome<I>,
)
    requires
        request is PlayerJoin,
        distinct_player_names(players_view(before.players@)),
        request_result(before, after, all_map_exits, request, outcome),
    ensures
        distinct_player_names(players_view(after.players@)),
{
    let v = players_view(before.players@);
    let w = players_view(after.players@);
    if let PlayerRequest::PlayerJoin(client) = request {
        if let RequestOutcome::Joined(j) = outcome {
            match j {
                JoinOutcome::CreateNew => {
                    assert forall|a: int| 0 <= a < v.len() implies #[trigger] v[a].details.player_name != client.player_name@ by {
                        if v[a].details.player_name == client.player_name@ {
                            assert(named::<I>(client.player_name@)(v[a]));
                            lemma_first_match_exists(v, named::<I>(client.player_name@), a);
                        }
                    }
                    assert forall|a: int, b: int|
                        0 <= a < w.len() && 0 <= b < w.len() && a != b implies #[trigger] w[a].details.player_name
                            != #[trigger] w[b].details.player_name by {
                        if a < v.len() {
                            assert(w[a] == v[a]);
                        }
                        if b < v.len() {
                            assert(w[b] == v[b]);
                        }
                    }
                },
                _ => {
                    assert forall|a: int, b: int|
                        0 <= a < w.len() && 0 <= b < w.len() && a != b implies #[trigger] w[a].details.player_name
                            != #[trigger] w[b].details.player_name by {
                        assert(w[a].details.player_name == v[a].details.player_name);
                        assert(w[b].details.player_name == v[b].details.player_name);
                    }
                },
            }
        }
    }
}

} // verus!
