use vstd::prelude::*;
use crate::components::{DisplayDetails, ItemDetails, Position, PositionView, DEFAULT_ITEM_COLOUR};
use crate::consts::DEFAULT_ITEM_ICON;
use crate::messages::PositionMessage;
use crate::players::{find_player_named, named, players_view, PlayerEntity, PlayerEntityView};
use crate::random::new_entity_id;
use crate::search::{first_match, lemma_first_match_at, lemma_first_match_exists, lemma_first_match_found, lemma_first_match_none};

verus! {

/// An item lying in the world, with where it lies.
pub struct ItemEntity<I> {
    pub item_details: ItemDetails,
    pub position: Position,
    pub item: I,
}

pub struct ItemEntityView<I> {
    pub details: ItemDetails,
    pub position: PositionView,
    pub item: I,
}

impl<I> View for ItemEntity<I> {
    type V = ItemEntityView<I>;

    open spec fn view(&self) -> ItemEntityView<I> {
        ItemEntityView { details: self.item_details, position: self.position@, item: self.item }
    }
}

pub open spec fn items_view<I>(items: Seq<ItemEntity<I>>) -> Seq<ItemEntityView<I>> {
    items.map_values(|e: ItemEntity<I>| e@)
}

/// Whether an item lies on column `x`, row `y` of `map`.
pub open spec fn lies_at<I>(x: u32, y: u32, map: Seq<char>) -> spec_fn(ItemEntityView<I>) -> bool {
    |e: ItemEntityView<I>| e.position.pos_x == x && e.position.pos_y == y && e.position.current_map == map
}

/// An item marked as picked up.
pub open spec fn picked_up<I>(e: ItemEntityView<I>) -> ItemEntityView<I> {
    ItemEntityView { details: ItemDetails { has_been_picked_up: true, ..e.details }, ..e }
}

/// A player carrying `item` as its last item, with its inventory to be sent.
pub open spec fn with_item<I>(p: PlayerEntityView<I>, item: I) -> PlayerEntityView<I> {
    PlayerEntityView { carried: p.carried.push(item), inventory_updated: true, ..p }
}

/// What a pickup request found: the index of the item picked up and the
/// index of the player who asked.
#[derive(Clone, Copy, Debug, PartialEq, Eq, Structural)]
pub struct Pickup {
    pub item: Option<usize>,
    pub player: Option<usize>,
}

/// What a pickup request does to the items and the players, given what it
/// found.
pub open spec fn pickup_result<I: Clone>(
    items_before: Seq<ItemEntity<I>>,
    items_after: Seq<ItemEntity<I>>,
    players_before: Seq<PlayerEntity<I>>,
    players_after: Seq<PlayerEntity<I>>,
    position_message: PositionMessage,
    pickup: Pickup,
) -> bool {
    let spot = lies_at::<I>(position_message.position.pos_x, position_message.position.pos_y, position_message.position.current_map@);
    &&& match first_match(items_view(items_before), spot) {
        Some(k) => 0 <= k < items_before.len() && pickup.item == Some(k as usize)
            && items_view(items_after) == items_view(items_before).update(k, picked_up(items_before[k]@)),
        None => pickup.item is None && items_view(items_after) == items_view(items_before),
    }
    &&& match first_match(players_view(players_before), named::<I>(position_message.player_name@)) {
        None => pickup.player is None && players_view(players_after) == players_view(players_before),
        Some(i) => 0 <= i < players_before.len() && pickup.player == Some(i as usize) && match pickup.item {
            None => players_view(players_after) == players_view(players_before),
            Some(k) => {
                let taken = players_after[i].carried@.last();
                &&& cloned(items_before[k as int].item, taken)
                &&& players_view(players_after) == players_view(players_before).update(i, with_item(players_before[i]@, taken))
            },
        },
    }
}

/// A request to pick up the item at the spot and on the map the message
/// names. The first item lying there is marked as picked up, and a clone of
/// it goes at the end of what the first player with the message's name
/// carries.
pub fn pickup_item<I: Clone>(
    items: &mut Vec<ItemEntity<I>>,
    players: &mut Vec<PlayerEntity<I>>,
    position_message: &PositionMessage,
) -> (pickup: Pickup)
    ensures
        pickup_result(old(items)@, final(items)@, old(players)@, final(players)@, *position_message, pickup),
{
    let x = position_message.position.pos_x;
    let y = position_message.position.pos_y;
    let taken: Option<(usize, I)> = match find_item_at(items, x, y, &position_message.position.current_map) {
        Some(k) => {
            let copy = items[k].item.clone();
            let ghost before = items@;
            let mut entity = items.remove(k);
            entity.item_details.has_been_picked_up = true;
            items.insert(k, entity);
            assert(items@ =~= before.update(k as int, entity));
            assert(items_view(items@) =~= items_view(before).update(k as int, picked_up(before[k as int]@)));
            Some((k, copy))
        },
        None => None,
    };
    match find_player_named(players, &position_message.player_name) {
        None => Pickup {
            item: match taken {
                Some((k, _)) => Some(k),
                None => None,
            },
            player: None,
        },
        Some(i) => match taken {
            None => Pickup { item: None, player: Some(i) },
            Some((k, copy)) => {
                let ghost before = players@;
                let mut player = players.remove(i);
                player.carried.push(copy);
                player.inventory_updated = true;
                players.insert(i, player);
                assert(players@ =~= before.update(i as int, player));
                assert(players_view(players@) =~= players_view(before).update(i as int, with_item(before[i as int]@, copy)));
                Pickup { item: Some(k), player: Some(i) }
            },
        },
    }
}

/// The index of the first item lying on column `x`, row `y` of `map`, if any.
fn find_item_at<I>(items: &Vec<ItemEntity<I>>, x: u32, y: u32, map: &String) -> (index: Option<usize>)
    ensures
        index matches Some(k) ==> k < items@.len() && first_match(items_view(items@), lies_at::<I>(x, y, map@)) == Some(k as int),
        index is None ==> first_match(items_view(items@), lies_at::<I>(x, y, map@)) is None,
{
    let n = items.len();
    let mut k: usize = 0;
    while k < n
        invariant
            0 <= k <= n,
            n == items@.len(),
            forall|j: int| 0 <= j < k ==> !lies_at::<I>(x, y, map@)(#[trigger] items_view(items@)[j]),
        decreases n - k,
    {
        if items[k].position.pos_x == x && items[k].position.pos_y == y && items[k].position.current_map == *map {
            proof {
                lemma_first_match_at(items_view(items@), lies_at::<I>(x, y, map@), k as int);
            }
            return Some(k);
        }
        k = k + 1;
    }
    proof {
        lemma_first_match_none(items_view(items@), lies_at::<I>(x, y, map@));
    }
    None
}

/// An item entity to be added to the world.
pub struct DroppedItem<I> {
    pub item_details: ItemDetails,
    pub display_details: DisplayDetails,
    pub position: Position,
    pub item: I,
}

/// How a dropped item is drawn: the item icon in the item colour, visible and
/// passable.
pub open spec fn dropped_item_display() -> DisplayDetails {
    DisplayDetails { icon: DEFAULT_ITEM_ICON, colour: DEFAULT_ITEM_COLOUR, visible: true, collidable: false }
}

/// Where an item dropped at `position` lies: on the same spot and map, at
/// rest, with the position to be sent.
pub open spec fn dropped_at(position: PositionView) -> PositionView {
    PositionView { update_available: true, velocity_x: 0, velocity_y: 0, ..position }
}

/// Whether `dropped` is `item` dropped at `position`, not picked up.
pub open spec fn is_dropped<I>(dropped: DroppedItem<I>, item: I, position: PositionView) -> bool {
    &&& dropped.item == item
    &&& !dropped.item_details.has_been_picked_up
    &&& dropped.display_details == dropped_item_display()
    &&& dropped.position@ == dropped_at(position)
}

fn drop_at<I>(item: I, position: &Position) -> (dropped: DroppedItem<I>)
    ensures
        is_dropped(dropped, item, position@),
{
    DroppedItem {
        item_details: ItemDetails { id: new_entity_id(), has_been_picked_up: false },
        display_details: DisplayDetails {
            icon: DEFAULT_ITEM_ICON,
            colour: DEFAULT_ITEM_COLOUR,
            visible: true,
            collidable: false,
        },
        position: Position {
            update_available: true,
            pos_x: position.pos_x,
            pos_y: position.pos_y,
            current_map: position.current_map.clone(),
            velocity_x: 0,
            velocity_y: 0,
        },
        item,
    }
}

/// A player without the carried item at `index`, with its inventory to be sent.
pub open spec fn without_item<I>(p: PlayerEntityView<I>, index: int) -> PlayerEntityView<I> {
    PlayerEntityView { carried: p.carried.remove(index), inventory_updated: true, ..p }
}

/// Which way a drop request went.
pub enum DropOutcome<I> {
    /// No player has the name in the request; nothing changed.
    NoSuchPlayer,
    /// The player at this index carries nothing; nothing changed.
    NothingCarried(usize),
    /// The player at this index dropped this item, which is to be added to the world.
    Dropped(usize, DroppedItem<I>),
}

/// Whether a drop request can be carried out: the first player with the name
/// carries nothing, or carries an item at `item_index`.
pub open spec fn drop_index_valid<I>(players: Seq<PlayerEntity<I>>, name: Seq<char>, item_index: u16) -> bool {
    match first_match(players_view(players), named::<I>(name)) {
        Some(i) => players[i].carried@.len() > 0 ==> item_index < players[i].carried@.len(),
        None => true,
    }
}

/// What a drop request does, given which way it went.
pub open spec fn drop_result<I>(
    before: Seq<PlayerEntity<I>>,
    after: Seq<PlayerEntity<I>>,
    item_index: u16,
    position_message: PositionMessage,
    outcome: DropOutcome<I>,
) -> bool {
    match first_match(players_view(before), named::<I>(position_message.player_name@)) {
        None => outcome is NoSuchPlayer && players_view(after) == players_view(before),
        Some(i) => 0 <= i < before.len() && if before[i].carried@.len() == 0 {
            outcome == DropOutcome::<I>::NothingCarried(i as usize) && players_view(after) == players_view(before)
        } else {
            outcome matches DropOutcome::Dropped(j, dropped) && j == i
                && is_dropped(dropped, before[i].carried@[item_index as int], before[i].position@)
                && players_view(after) == players_view(before).update(i, without_item(before[i]@, item_index as int))
        },
    }
}

/// A request to drop the carried item at `item_index`: the first player with
/// the message's name, if it carries anything, loses that item, which comes
/// back, under a fresh random id, as an item lying where the player stands.
pub fn drop_item<I>(players: &mut Vec<PlayerEntity<I>>, item_index: u16, position_message: &PositionMessage) -> (outcome: DropOutcome<I>)
    requires
        drop_index_valid(old(players)@, position_message.player_name@, item_index),
    ensures
        drop_result(old(players)@, final(players)@, item_index, *position_message, outcome),
{
    match find_player_named(players, &position_message.player_name) {
        None => DropOutcome::NoSuchPlayer,
        Some(i) => {
            if players[i].carried.len() == 0 {
                DropOutcome::NothingCarried(i)
            } else {
                let ghost before = players@;
                let mut player = players.remove(i);
                let item = player.carried.remove(item_index as usize);
                player.inventory_updated = true;
                let dropped = drop_at(item, &player.position);
                players.insert(i, player);
                assert(players@ =~= before.update(i as int, player));
                assert(players_view(players@) =~= players_view(before).update(i as int, without_item(before[i as int]@, item_index as int)));
                DropOutcome::Dropped(i, dropped)
            }
        },
    }
}

/// What a dead monster leaves behind: a clone of each item it carried, each
/// under a fresh random id, lying where the monster died, in the order it
/// carried them.
pub fn drop_monster_inventory<I: Clone>(carried: &Vec<I>, position: &Position) -> (dropped: Vec<DroppedItem<I>>)
    ensures
        dropped@.len() == carried@.len(),
        forall|j: int| 0 <= j < carried@.len() ==> cloned(carried@[j], #[trigger] dropped@[j].item)
            && is_dropped(dropped@[j], dropped@[j].item, position@),
{
    let mut dropped: Vec<DroppedItem<I>> = Vec::new();
    let n = carried.len();
    let mut j: usize = 0;
    while j < n
        invariant
            0 <= j <= n,
            n == carried@.len(),
            dropped@.len() == j,
            forall|k: int| 0 <= k < j ==> cloned(carried@[k], #[trigger] dropped@[k].item)
                && is_dropped(dropped@[k], dropped@[k].item, position@),
        decreases n - j,
    {
        let copy = carried[j].clone();
        dropped.push(drop_at(copy, position));
        j = j + 1;
    }
    dropped
}

/// Picking an item up and then dropping the last item carried gives the item
/// back: what drops is a clone of the item picked up, lying where the player
/// stands, and the player carries what it carried before.
pub proof fn law_pickup_then_drop<I: Clone>(
    items_before: Seq<ItemEntity<I>>,
    items_after: Seq<ItemEntity<I>>,
    players_before: Seq<PlayerEntity<I>>,
    players_between: Seq<PlayerEntity<I>>,
    players_after: Seq<PlayerEntity<I>>,
    pickup_message: PositionMessage,
    drop_message: PositionMessage,
    pickup: Pickup,
    outcome: DropOutcome<I>,
)
    requires
        pickup_result(items_before, items_after, players_before, players_between, pickup_message, pickup),
        pickup.item is Some,
        pickup.player is Some,
        drop_message.player_name@ == pickup_message.player_name@,
        players_between[pickup.player->0 as int].carried@.len() <= u16::MAX + 1,
        drop_result(
            players_between,
            players_after,
            (players_between[pickup.player->0 as int].carried@.len() - 1) as u16,
            drop_message,
            outcome,
        ),
    ensures
        outcome matches DropOutcome::Dropped(j, dropped) && j == pickup.player->0
            && cloned(items_before[pickup.item->0 as int].item, dropped.item)
            && dropped.position@ == dropped_at(players_before[j as int].position@)
            && players_view(players_after) == players_view(players_before).update(
                j as int,
                PlayerEntityView { inventory_updated: true, ..players_before[j as int]@ },
            ),
{
    let name = pickup_message.player_name@;
    let v = players_view(players_before);
    lemma_first_match_found(v, named::<I>(name));
    let i = first_match(v, named::<I>(name))->0;
    let w = players_view(players_between);
    assert forall|j: int| 0 <= j < i implies !named::<I>(name)(#[trigger] w[j]) by {
        assert(w[j] == v[j]);
    }
    assert(w[i] == players_between[i]@);
    lemma_first_match_at(w, named::<I>(name), i);
    let taken = players_between[i].carried@.last();
    assert(players_between[i].carried@ == players_before[i].carried@.push(taken));
    let last = players_between[i].carried@.len() - 1;
    assert(players_between[i].carried@.remove(last) =~= players_before[i].carried@);
    assert(players_view(players_after) =~= v.update(i, PlayerEntityView { inventory_updated: true, ..players_before[i]@ }));
}

/// A pickup takes only an item that lies on the very spot of the message:
/// same column, same row and same map. It takes the first such item, and it
/// takes nothing only when no item lies there.
pub proof fn law_pickup_takes_only_what_lies_at_the_spot<I: Clone>(
    items_before: Seq<ItemEntity<I>>,
    items_after: Seq<ItemEntity<I>>,
    players_before: Seq<PlayerEntity<I>>,
    players_after: Seq<PlayerEntity<I>>,
    position_message: PositionMessage,
    pickup: Pickup,
)
    requires
        pickup_result(items_before, items_after, players_before, players_after, position_message, pickup),
        items_before.len() <= usize::MAX,
    ensures
        pickup.item matches Some(k) ==> {
            &&& k < items_before.len()
            &&& items_before[k as int].position.pos_x == position_message.position.pos_x
            &&& items_before[k as int].position.pos_y == position_message.position.pos_y
            &&& items_before[k as int].position.current_map@ == position_message.position.current_map@
            &&& forall|j: int| 0 <= j < k ==> !({
                &&& (#[trigger] items_before[j]).position.pos_x == position_message.position.pos_x
                &&& items_before[j].position.pos_y == position_message.position.pos_y
                &&& items_before[j].position.current_map@ == position_message.position.current_map@
            })
        },
        pickup.item is None ==> forall|j: int| 0 <= j < items_before.len() ==> !({
            &&& (#[trigger] items_before[j]).position.pos_x == position_message.position.pos_x
            &&& items_before[j].position.pos_y == position_message.position.pos_y
            &&& items_before[j].position.current_map@ == position_message.position.current_map@
        }),
{
    let v = items_view(items_before);
    let spot = lies_at::<I>(position_message.position.pos_x, position_message.position.pos_y, position_message.position.current_map@);
    assert forall|j: int| 0 <= j < items_before.len() implies #[trigger] v[j] == items_before[j]@ by {}
    match first_match(v, spot) {
        Some(k) => {
            lemma_first_match_found(v, spot);
            assert(v[k] == items_before[k]@);
            assert forall|j: int| 0 <= j < k implies !({
                &&& (#[trigger] items_before[j]).position.pos_x == position_message.position.pos_x
                &&& items_before[j].position.pos_y == position_message.position.pos_y
                &&& items_before[j].position.current_map@ == position_message.position.current_map@
            }) by {
                assert(!spot(v[j]));
                assert(v[j] == items_before[j]@);
            }
        },
        None => {
            assert forall|j: int| 0 <= j < items_before.len() implies !({
                &&& (#[trigger] items_before[j]).position.pos_x == position_message.position.pos_x
                &&& items_before[j].position.pos_y == position_message.position.pos_y
                &&& items_before[j].position.current_map@ == position_message.position.current_map@
            }) by {
                assert(v[j] == items_before[j]@);
                if spot(v[j]) {
                    lemma_first_match_exists(v, spot, j);
                }
            }
        },
    }
}

} // verus!
