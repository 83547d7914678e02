use vstd::prelude::*;
use vstd::string::StringExecFns;
use crate::components::{
    dead_display, dead_position, Dead, DisplayDetails, ItemDetails, MonsterDetails, PlayerDetails,
    Position, PositionView,
};
use crate::consts::{DEAD_MAP, DEFAULT_PLAYER_ICON};

verus! {

broadcast use vstd::string::to_string_from_display_ensures_for_str;

/// What is broadcast about one entity: where it is, how it is drawn, and its
/// player name, monster type or item name.
pub struct EntityEntry {
    pub id: u128,
    pub position: Position,
    pub display_details: DisplayDetails,
    pub name: String,
}

pub struct EntityEntryView {
    pub position: PositionView,
    pub display_details: DisplayDetails,
    pub name: Seq<char>,
}

/// The entities to broadcast this tick, each id at most once.
pub type EntityPositionMap = Vec<EntityEntry>;

pub open spec fn entry_view(e: EntityEntry) -> EntityEntryView {
    EntityEntryView { position: e.position@, display_details: e.display_details, name: e.name@ }
}

/// Whether no id occurs twice.
pub open spec fn distinct_ids(entries: Seq<EntityEntry>) -> bool {
    forall|i: int, j: int| 0 <= i < entries.len() && 0 <= j < entries.len() && i != j ==> #[trigger] entries[i].id != #[trigger] entries[j].id
}

/// The entries as a map from ids.
pub open spec fn entity_map_view(entries: Seq<EntityEntry>) -> Map<u128, EntityEntryView>
    decreases entries.len(),
{
    if entries.len() == 0 {
        Map::empty()
    } else {
        entity_map_view(entries.drop_last()).insert(entries.last().id, entry_view(entries.last()))
    }
}

proof fn lemma_entity_map_update(entries: Seq<EntityEntry>, k: int, entry: EntityEntry)
    requires
        distinct_ids(entries),
        0 <= k < entries.len(),
        entry.id == entries[k].id,
    ensures
        entity_map_view(entries.update(k, entry)) == entity_map_view(entries).insert(entry.id, entry_view(entry)),
        distinct_ids(entries.update(k, entry)),
    decreases entries.len(),
{
    let updated = entries.update(k, entry);
    let init = entries.drop_last();
    assert(distinct_ids(init)) by {
        assert forall|i: int, j: int| 0 <= i < init.len() && 0 <= j < init.len() && i != j implies #[trigger] init[i].id != #[trigger] init[j].id by {
            assert(init[i] == entries[i] && init[j] == entries[j]);
        }
    }
    assert forall|i: int, j: int| 0 <= i < updated.len() && 0 <= j < updated.len() && i != j implies #[trigger] updated[i].id != #[trigger] updated[j].id by {
        assert(updated[i].id == entries[i].id && updated[j].id == entries[j].id);
    }
    if k == entries.len() - 1 {
        assert(updated.drop_last() == init);
        assert(entity_map_view(updated) =~= entity_map_view(entries).insert(entry.id, entry_view(entry)));
    } else {
        lemma_entity_map_update(init, k, entry);
        assert(updated.drop_last() == init.update(k, entry));
        assert(updated.last() == entries.last());
        assert(entries[k].id != entries.last().id);
        assert(entity_map_view(updated) =~= entity_map_view(entries).insert(entry.id, entry_view(entry)));
    }
}

/// Records `entry` for broadcast, replacing what was recorded under its id.
pub fn insert_entity_entry(entity_position_map: &mut EntityPositionMap, entry: EntityEntry)
    requires
        distinct_ids(old(entity_position_map)@),
    ensures
        distinct_ids(final(entity_position_map)@),
        entity_map_view(final(entity_position_map)@) == entity_map_view(old(entity_position_map)@).insert(entry.id, entry_view(entry)),
{
    let n = entity_position_map.len();
    let mut k: usize = 0;
    while k < n
        invariant
            0 <= k <= n,
            n == entity_position_map@.len(),
            entity_position_map@ == old(entity_position_map)@,
            distinct_ids(entity_position_map@),
            forall|j: int| 0 <= j < k ==> #[trigger] entity_position_map@[j].id != entry.id,
        decreases n - k,
    {
        if entity_position_map[k].id == entry.id {
            proof {
                lemma_entity_map_update(entity_position_map@, k as int, entry);
            }
            entity_position_map.set(k, entry);
            return;
        }
        k = k + 1;
    }
    let ghost before = entity_position_map@;
    entity_position_map.push(entry);
    assert(entity_position_map@.drop_last() == before);
    assert forall|i: int, j: int|
        0 <= i < entity_position_map@.len() && 0 <= j < entity_position_map@.len() && i != j implies #[trigger] entity_position_map@[i].id
            != #[trigger] entity_position_map@[j].id by {
        if i < before.len() {
            assert(entity_position_map@[i] == before[i]);
        }
        if j < before.len() {
            assert(entity_position_map@[j] == before[j]);
        }
    }
}

/// Where an entity that left `map` is reported: at the origin of the map's
/// dead counterpart (its name followed by "Dead"), at rest.
pub open spec fn dead_on(map: Seq<char>) -> PositionView {
    PositionView { current_map: map + DEAD_MAP@, ..dead_position() }
}

fn dead_entry(id: u128, position: &Position, name: &str) -> (entry: EntityEntry)
    ensures
        entry.id == id,
        entry.position@ == dead_on(position.current_map@),
        entry.display_details == dead_display(),
        entry.name@ == name@,
{
    EntityEntry {
        id,
        position: Position { current_map: position.current_map.clone().concat(DEAD_MAP), ..Position::dead() },
        display_details: DisplayDetails::dead(),
        name: name.to_string(),
    }
}

/// Records an online player for broadcast under its id, with its name;
/// offline players are left out.
pub fn collate_player_position(
    entity_position_map: &mut EntityPositionMap,
    player_details: &PlayerDetails,
    position: &Position,
    display_details: &DisplayDetails,
)
    requires
        distinct_ids(old(entity_position_map)@),
    ensures
        distinct_ids(final(entity_position_map)@),
        entity_map_view(final(entity_position_map)@) == if player_details.currently_online {
            entity_map_view(old(entity_position_map)@).insert(
                player_details.id,
                EntityEntryView { position: position@, display_details: *display_details, name: player_details.player_name@ },
            )
        } else {
            entity_map_view(old(entity_position_map)@)
        },
{
    if player_details.currently_online {
        insert_entity_entry(
            entity_position_map,
            EntityEntry {
                id: player_details.id,
                position: position.clone(),
                display_details: *display_details,
                name: player_details.player_name.clone(),
            },
        );
    }
}

/// Records a monster for broadcast under its id, with its type.
pub fn collate_monster_position(
    entity_position_map: &mut EntityPositionMap,
    monster_details: &MonsterDetails,
    position: &Position,
    display_details: &DisplayDetails,
)
    requires
        distinct_ids(old(entity_position_map)@),
    ensures
        distinct_ids(final(entity_position_map)@),
        entity_map_view(final(entity_position_map)@) == entity_map_view(old(entity_position_map)@).insert(
            monster_details.id,
            EntityEntryView { position: position@, display_details: *display_details, name: monster_details.monster_type@ },
        ),
{
    insert_entity_entry(
        entity_position_map,
        EntityEntry {
            id: monster_details.id,
            position: position.clone(),
            display_details: *display_details,
            name: monster_details.monster_type.clone(),
        },
    );
}

/// Records an item for broadcast under its id. An item that has been picked
/// up is reported gone, at the origin of its map's dead counterpart, and is to
/// be removed from the world (the result says so); any other item is reported
/// where it lies, under `item_name`.
pub fn collate_item_position(
    entity_position_map: &mut EntityPositionMap,
    item_details: &ItemDetails,
    item_name: &String,
    position: &Position,
    display_details: &DisplayDetails,
) -> (remove_from_world: bool)
    requires
        distinct_ids(old(entity_position_map)@),
    ensures
        remove_from_world == item_details.has_been_picked_up,
        distinct_ids(final(entity_position_map)@),
        entity_map_view(final(entity_position_map)@) == entity_map_view(old(entity_position_map)@).insert(
            item_details.id,
            if item_details.has_been_picked_up {
                EntityEntryView { position: dead_on(position.current_map@), display_details: dead_display(), name: "picked_up_item"@ }
            } else {
                EntityEntryView { position: position@, display_details: *display_details, name: item_name@ }
            },
        ),
{
    if item_details.has_been_picked_up {
        insert_entity_entry(entity_position_map, dead_entry(item_details.id, position, "picked_up_item"));
        true
    } else {
        insert_entity_entry(
            entity_position_map,
            EntityEntry {
                id: item_details.id,
                position: position.clone(),
                display_details: *display_details,
                name: item_name.clone(),
            },
        );
        false
    }
}

/// Records a monster that died at `position` as gone, at the origin of its
/// map's dead counterpart.
pub fn record_monster_death(entity_position_map: &mut EntityPositionMap, monster_details: &MonsterDetails, position: &Position)
    requires
        distinct_ids(old(entity_position_map)@),
    ensures
        distinct_ids(final(entity_position_map)@),
        entity_map_view(final(entity_position_map)@) == entity_map_view(old(entity_position_map)@).insert(
            monster_details.id,
            EntityEntryView { position: dead_on(position.current_map@), display_details: dead_display(), name: "dead_monster"@ },
        ),
{
    insert_entity_entry(entity_position_map, dead_entry(monster_details.id, position, "dead_monster"));
}

/// How an entity update is sent to a player.
#[derive(Clone, Copy, Debug, PartialEq, Eq, Structural)]
pub enum Delivery {
    /// Sequenced and unreliable: a newer update supersedes it.
    Unreliable,
    /// Ordered and reliable: the entity left the player's map.
    Reliable,
}

/// Whether, and how, an entity is sent to a player on `player_map`: players
/// everywhere and anything on the same map unreliably, anything that left
/// the player's map reliably, nothing else.
pub open spec fn delivery_for(entry: EntityEntryView, player_map: Seq<char>) -> Option<Delivery> {
    if entry.display_details.icon == DEFAULT_PLAYER_ICON || entry.position.current_map == player_map {
        Some(Delivery::Unreliable)
    } else if entry.position.current_map == player_map + DEAD_MAP@ {
        Some(Delivery::Reliable)
    } else {
        None
    }
}

/// The updates to send to a player on `player_map`, in the order of the
/// entries: each entry's index with how it is sent.
pub open spec fn deliveries(entries: Seq<EntityEntry>, player_map: Seq<char>) -> Seq<(usize, Delivery)>
    decreases entries.len(),
{
    if entries.len() == 0 {
        Seq::empty()
    } else {
        let rest = deliveries(entries.drop_last(), player_map);
        match delivery_for(entry_view(entries.last()), player_map) {
            Some(d) => rest.push(((entries.len() - 1) as usize, d)),
            None => rest,
        }
    }
}

/// The entity updates to send to a player: none when the player is offline,
/// otherwise those `delivery_for` picks, in order.
pub fn broadcast_entity_updates(
    player_details: &PlayerDetails,
    player_position: &Position,
    entity_position_map: &EntityPositionMap,
) -> (sends: Vec<(usize, Delivery)>)
    ensures
        sends@ == if player_details.currently_online {
            deliveries(entity_position_map@, player_position.current_map@)
        } else {
            Seq::empty()
        },
{
    let mut sends: Vec<(usize, Delivery)> = Vec::new();
    if !player_details.currently_online {
        return sends;
    }
    let dead_map = player_position.current_map.clone().concat(DEAD_MAP);
    let n = entity_position_map.len();
    let mut k: usize = 0;
    while k < n
        invariant
            0 <= k <= n,
            n == entity_position_map@.len(),
            dead_map@ == player_position.current_map@ + DEAD_MAP@,
            sends@ == deliveries(entity_position_map@.take(k as int), player_position.current_map@),
        decreases n - k,
    {
        let entry = &entity_position_map[k];
        proof {
            assert(entity_position_map@.take(k + 1).drop_last() =~= entity_position_map@.take(k as int));
            assert(entity_position_map@.take(k + 1).last() == entity_position_map@[k as int]);
        }
        if entry.display_details.icon == DEFAULT_PLAYER_ICON || entry.position.current_map == player_position.current_map {
            sends.push((k, Delivery::Unreliable));
        } else if entry.position.current_map == dead_map {
            sends.push((k, Delivery::Reliable));
        }
        k = k + 1;
    }
    assert(entity_position_map@.take(n as int) =~= entity_position_map@);
    sends
}

/// Whether a player's new position is to be sent now: when it changed and the
/// player is online. Sending clears the change mark.
pub fn send_player_position_updates(player_details: &PlayerDetails, position: &mut Position) -> (send: bool)
    ensures
        send == (old(position).update_available && player_details.currently_online),
        final(position)@ == if send { PositionView { update_available: false, ..old(position)@ } } else { old(position)@ },
{
    if position.update_available && player_details.currently_online {
        position.update_available = false;
        true
    } else {
        false
    }
}

/// Whether a changed component (stats, inventory) of a player is to be sent
/// now: when it is marked changed and the player is online. Sending clears
/// the mark.
pub fn send_marked_update(player_details: &PlayerDetails, update_available: &mut bool) -> (send: bool)
    ensures
        send == (*old(update_available) && player_details.currently_online),
        *final(update_available) == (*old(update_available) && !send),
{
    if *update_available && player_details.currently_online {
        *update_available = false;
        true
    } else {
        false
    }
}

/// Every player is told about every other player wherever it is, and about
/// everything on its own map, as sequenced updates.
pub proof fn law_players_hear_of_players_and_their_map(entries: Seq<EntityEntry>, player_map: Seq<char>, k: int)
    requires
        0 <= k < entries.len(),
        entries.len() <= usize::MAX,
        entries[k].display_details.icon == DEFAULT_PLAYER_ICON || entries[k].position.current_map@ == player_map,
    ensures
        deliveries(entries, player_map).contains((k as usize, Delivery::Unreliable)),
    decreases entries.len(),
{
    let init = entries.drop_last();
    let rest = deliveries(init, player_map);
    if k == entries.len() - 1 {
        assert(deliveries(entries, player_map) == rest.push((k as usize, Delivery::Unreliable)));
        assert(deliveries(entries, player_map)[rest.len() as int] == (k as usize, Delivery::Unreliable));
    } else {
        assert(init[k] == entries[k]);
        law_players_hear_of_players_and_their_map(init, player_map, k);
        let i = choose|i: int| 0 <= i < rest.len() && rest[i] == (k as usize, Delivery::Unreliable);
        match delivery_for(entry_view(entries.last()), player_map) {
            Some(d) => {
                assert(deliveries(entries, player_map)[i] == rest[i]);
            },
            None => {},
        }
    }
}

} // verus!
